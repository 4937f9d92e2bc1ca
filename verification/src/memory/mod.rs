//! Physical frames and the frame-allocator capability.

use vstd::multiset::Multiset;
use vstd::prelude::*;

pub mod area_alloc;
pub mod extent;
pub mod memory_map;
pub mod paging;

pub use self::area_alloc::AreaFrameAllocator;

verus! {

/// The size of a page in bytes.
pub const PAGE_SIZE: u64 = 4096;

/// The number of frames that a 64-bit physical address space holds.
pub const FRAME_COUNT: u64 = 0x10_0000_0000_0000;

/// A physical address.
pub type PhysicalAddress = u64;

/// One page-sized unit of physical memory, identified by
/// `index = address / PAGE_SIZE`.
#[derive(Clone, Copy, Debug, PartialEq, Eq, PartialOrd, Ord, Structural)]
pub struct Frame {
    /// The index of the frame.
    pub index: u64,
}

impl Frame {
    /// The frame that holds the physical address `addr`.
    pub fn get_frame_for_address(addr: PhysicalAddress) -> (frame: Frame)
        ensures
            frame.index == addr / PAGE_SIZE,
            frame.index < FRAME_COUNT,
    {
        Frame { index: addr / PAGE_SIZE }
    }

    /// Whether the start address of the frame fits in 64 bits.
    pub open spec fn addressable(self) -> bool {
        self.index < FRAME_COUNT
    }

    /// The start address of the frame, `index * PAGE_SIZE`.
    pub open spec fn start_address(self) -> int {
        self.index * PAGE_SIZE
    }

    /// The physical address at which the frame starts.
    pub fn get_start_address(&self) -> (addr: PhysicalAddress)
        requires
            self.addressable(),
        ensures
            addr == self.start_address(),
            addr % PAGE_SIZE == 0,
    {
        self.index * PAGE_SIZE
    }
}

/// The capability to hand out and take back physical frames.
pub trait FrameAllocator {
    /// The indices of the frames that the allocator can still hand out,
    /// each as often as it holds it.
    spec fn available(&self) -> Multiset<int>;

    /// Whether the allocator takes `frame` back.
    spec fn accepts(&self, frame: Frame) -> bool;

    /// Whether one allocation can take the allocator from `self` to `next`
    /// and give `frame`.
    spec fn hands_out(&self, next: &Self, frame: Option<Frame>) -> bool;

    /// Hands out a frame, or nothing when none is left.
    fn alloc_frame(&mut self) -> (frame: Option<Frame>)
        ensures
            old(self).hands_out(final(self), frame),
            match frame {
                Some(f) => old(self).available().contains(f.index as int)
                    && final(self).available() == old(self).available().remove(f.index as int),
                None => old(self).available().len() == 0
                    && final(self).available() == old(self).available(),
            },
    ;

    /// Whether taking `frame` back can take the allocator from `self` to
    /// `next`.
    spec fn takes_back(&self, next: &Self, frame: Frame) -> bool;

    /// Takes `frame` back.
    fn dealloc_frame(&mut self, frame: Frame)
        requires
            old(self).accepts(frame),
        ensures
            old(self).takes_back(final(self), frame),
            final(self).available() == old(self).available().insert(frame.index as int),
    ;
}

/// Whether allocations, one after another, can take an allocator from `first`
/// to `last` and give the frames `frames` in their order.
pub open spec fn hands_out_all<A: FrameAllocator>(first: &A, last: &A, frames: Seq<Frame>) -> bool
    decreases frames.len(),
{
    if frames.len() == 0 {
        first == last
    } else {
        exists|next: A| #[trigger]
            first.hands_out(&next, Some(frames[0])) && hands_out_all(
                &next,
                last,
                frames.drop_first(),
            )
    }
}

/// Frames that are given one after another are given in their order: the
/// first of them first, then the others.
pub proof fn lemma_hands_out_all<A: FrameAllocator>(
    first: &A,
    next: &A,
    last: &A,
    frame: Frame,
    frames: Seq<Frame>,
)
    requires
        first.hands_out(next, Some(frame)),
        hands_out_all(next, last, frames),
    ensures
        hands_out_all(first, last, seq![frame] + frames),
{
    let all = seq![frame] + frames;
    assert(all[0] == frame);
    assert(all.drop_first() =~= frames);
}

} // verus!
