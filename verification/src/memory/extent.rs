//! The extents of physical memory that the kernel image and the boot
//! information occupy.

use vstd::prelude::*;

verus! {

/// One section of the kernel image, as it lies in memory.
#[derive(Clone, Copy, Debug, PartialEq, Eq, Structural)]
pub struct Section {
    /// The address of the first byte.
    pub addr: u64,
    /// The number of bytes.
    pub size: u64,
}

impl Section {
    /// The address behind the last byte.
    pub open spec fn end(self) -> int {
        self.addr + self.size
    }
}

/// Whether `start` and `end` bound `sections`: `start` is the lowest address
/// at which a section starts, and `end` the highest behind which one ends.
pub open spec fn bounds(sections: Seq<Section>, start: u64, end: u64) -> bool {
    &&& exists|i: int| 0 <= i < sections.len() && start == (#[trigger] sections[i]).addr
    &&& exists|i: int| 0 <= i < sections.len() && end == (#[trigger] sections[i]).end()
    &&& forall|i: int|
        0 <= i < sections.len() ==> start <= (#[trigger] sections[i]).addr && sections[i].end()
            <= end
}

/// Whether each section of `sections` ends at an address of 64 bits.
pub open spec fn sections_fit(sections: Seq<Section>) -> bool {
    forall|i: int| 0 <= i < sections.len() ==> (#[trigger] sections[i]).end() <= u64::MAX
}

/// The extent of the kernel image: the lowest address at which one of
/// `sections` starts, and the highest address behind which one ends. There is
/// none without a section, or where a section ends beyond the addresses of 64
/// bits.
pub fn kernel_extent(sections: &Vec<Section>) -> (extent: Option<(u64, u64)>)
    ensures
        extent is Some <==> sections@.len() > 0 && sections_fit(sections@),
        extent is Some ==> bounds(sections@, extent.unwrap().0, extent.unwrap().1),
{
    if sections.len() == 0 {
        return None;
    }
    let first = sections[0];
    let mut start = first.addr;
    let mut end = match first.addr.checked_add(first.size) {
        Some(end) => end,
        None => {
            return None;
        },
    };
    let mut index: usize = 1;
    assert(sections@.take(1)[0] == first);
    while index < sections.len()
        invariant
            1 <= index <= sections@.len(),
            bounds(sections@.take(index as int), start, end),
            sections_fit(sections@.take(index as int)),
        decreases sections@.len() - index,
    {
        let section = sections[index];
        let ghost before = sections@.take(index as int);
        let ghost now = sections@.take(index + 1);
        let ghost low = choose|i: int|
            0 <= i < before.len() && start == (#[trigger] before[i]).addr;
        let ghost high = choose|i: int|
            0 <= i < before.len() && end == (#[trigger] before[i]).end();
        let section_end = match section.addr.checked_add(section.size) {
            Some(end) => end,
            None => {
                return None;
            },
        };
        if section.addr < start {
            start = section.addr;
        }
        if section_end > end {
            end = section_end;
        }
        proof {
            assert(start == now[low].addr || start == now[index as int].addr);
            assert(end == now[high].end() || end == now[index as int].end());
        }
        index += 1;
    }
    assert(sections@.take(sections@.len() as int) =~= sections@);
    Some((start, end))
}

/// The extent of the boot information of `total_size` bytes at `start`: its
/// first address and the address behind its last byte. There is none where
/// that address has more than 64 bits.
pub fn boot_info_extent(start: u64, total_size: u32) -> (extent: Option<(u64, u64)>)
    ensures
        extent is Some <==> start + total_size <= u64::MAX,
        extent is Some ==> extent.unwrap() == (start, (start + total_size) as u64),
{
    match start.checked_add(total_size as u64) {
        Some(end) => Some((start, end)),
        None => None,
    }
}

} // verus!
