//! The memory map that the boot loader hands over: which of its areas are
//! usable regions of physical memory.

use super::area_alloc::{all_bounded, AreaFrameAllocator, Region};
use vstd::prelude::*;

verus! {

/// The type number of an area that is free for use.
pub const AVAILABLE: u32 = 1;

/// An area of the memory map.
#[verifier::external_type_specification]
#[verifier::external_body]
pub struct ExMemoryArea(multiboot2::MemoryArea);

/// The address at which `area` starts.
pub uninterp spec fn start_address_of(area: multiboot2::MemoryArea) -> u64;

/// The number of bytes of `area`.
pub uninterp spec fn size_of(area: multiboot2::MemoryArea) -> u64;

/// The type number of `area`.
pub uninterp spec fn type_of(area: multiboot2::MemoryArea) -> u32;

/// `multiboot2::MemoryArea::start_address`: the base address that the area
/// records.
#[verifier::external_body]
fn start_address(area: &multiboot2::MemoryArea) -> (addr: u64)
    ensures
        addr == start_address_of(*area),
{
    area.start_address()
}

/// `multiboot2::MemoryArea::size`: the length in bytes that the area
/// records.
#[verifier::external_body]
fn size(area: &multiboot2::MemoryArea) -> (length: u64)
    ensures
        length == size_of(*area),
{
    area.size()
}

/// `multiboot2::MemoryArea::typ`, as the number that
/// `multiboot2::MemoryAreaType::val` gives for it: the type number that the
/// area records.
#[verifier::external_body]
fn type_number(area: &multiboot2::MemoryArea) -> (number: u32)
    ensures
        number == type_of(*area),
{
    area.typ().val()
}

/// The region that `area` describes.
pub open spec fn region_of(area: multiboot2::MemoryArea) -> Region {
    Region { base_addr: start_address_of(area), length: size_of(area) }
}

/// The regions that the areas of `areas` that are free for use describe, in
/// the order of the areas.
pub open spec fn available_regions(areas: Seq<multiboot2::MemoryArea>) -> Seq<Region>
    decreases areas.len(),
{
    if areas.len() == 0 {
        Seq::empty()
    } else if type_of(areas.last()) == AVAILABLE {
        available_regions(areas.drop_last()).push(region_of(areas.last()))
    } else {
        available_regions(areas.drop_last())
    }
}

/// The regions that the areas of `areas` that are free for use describe.
pub fn usable_regions(areas: &[multiboot2::MemoryArea]) -> (regions: Vec<Region>)
    ensures
        regions@ == available_regions(areas@),
{
    let mut regions: Vec<Region> = Vec::new();
    let mut index: usize = 0;
    while index < areas.len()
        invariant
            0 <= index <= areas@.len(),
            regions@ == available_regions(areas@.take(index as int)),
        decreases areas@.len() - index,
    {
        let area = &areas[index];
        proof {
            assert(areas@.take(index + 1).drop_last() =~= areas@.take(index as int));
        }
        if type_number(area) == AVAILABLE {
            regions.push(Region { base_addr: start_address(area), length: size(area) });
        }
        index += 1;
    }
    assert(areas@.take(areas@.len() as int) =~= areas@);
    regions
}

/// Whether every region of `regions` is bounded.
pub fn regions_bounded(regions: &Vec<Region>) -> (bounded: bool)
    ensures
        bounded == all_bounded(regions@),
{
    let mut index: usize = 0;
    while index < regions.len()
        invariant
            0 <= index <= regions@.len(),
            forall|other: int| 0 <= other < index ==> (#[trigger] regions@[other]).bounded(),
        decreases regions@.len() - index,
    {
        let region = regions[index];
        let fits = match region.base_addr.checked_add(region.length) {
            Some(end) => end >= 1,
            None => false,
        };
        if !fits {
            return false;
        }
        index += 1;
    }
    true
}

impl AreaFrameAllocator {
    /// Makes an allocator over the areas of `areas` that are free for use,
    /// which leaves out the frames of the kernel image, from `kernel_start`
    /// to `kernel_end`, and those of the boot information, from `mb2_start`
    /// to `mb2_end`. Nothing is made where the last byte of such an area has
    /// no address of 64 bits.
    pub fn from_memory_map(
        kernel_start: u64,
        kernel_end: u64,
        mb2_start: u64,
        mb2_end: u64,
        areas: &[multiboot2::MemoryArea],
    ) -> (allocator: Option<AreaFrameAllocator>)
        ensures
            allocator is Some <==> all_bounded(available_regions(areas@)),
            allocator is Some ==> {
                let made = allocator.unwrap();
                &&& made.regions() == available_regions(areas@)
                &&& made.kernel() == (kernel_start as int / 4096, kernel_end as int / 4096)
                &&& made.boot_info() == (mb2_start as int / 4096, mb2_end as int / 4096)
                &&& forall|frame: int|
                    made.is_free(frame) <==> super::area_alloc::in_some_area(
                        available_regions(areas@),
                        frame,
                    ) && !made.reserved(frame)
            },
    {
        let regions = usable_regions(areas);
        if regions_bounded(&regions) {
            Some(AreaFrameAllocator::new(kernel_start, kernel_end, mb2_start, mb2_end, regions))
        } else {
            None
        }
    }
}

} // verus!
