//! One page of virtual memory that is mapped to a frame for a while, with a
//! small pool of frames for the page tables that this takes.

use super::entry::{EntryFlags, WRITABLE};
use super::machine::Machine;
use super::table::{Level1, Table};
use super::{ActivePageTable, Page, VirtualAddress};
use crate::memory::{hands_out_all, Frame, FrameAllocator, PAGE_SIZE};
use vstd::multiset::Multiset;
use vstd::prelude::*;

verus! {

/// The number of frames that a `TinyAllocator` can hold: one for each
/// page table below level 4.
pub const TINY_CAPACITY: usize = 3;

/// The frame of `slot`, as a multiset of indices.
pub open spec fn frame_in_slot(slot: Option<Frame>) -> Multiset<int> {
    match slot {
        Some(frame) => Multiset::singleton(frame.index as int),
        None => Multiset::empty(),
    }
}

/// The index of the first of `slots` that holds a frame.
pub open spec fn first_occupied(slots: Seq<Option<Frame>>) -> Option<int> {
    if slots[0] is Some {
        Some(0)
    } else if slots[1] is Some {
        Some(1)
    } else if slots[2] is Some {
        Some(2)
    } else {
        None
    }
}

/// The index of the first of `slots` that holds no frame.
pub open spec fn first_empty(slots: Seq<Option<Frame>>) -> Option<int> {
    if slots[0] is None {
        Some(0)
    } else if slots[1] is None {
        Some(1)
    } else if slots[2] is None {
        Some(2)
    } else {
        None
    }
}

/// An allocator of three slots, which hands out the frames that it was given.
pub struct TinyAllocator {
    /// The slots.
    slots: [Option<Frame>; 3],
}

impl TinyAllocator {
    /// The three slots.
    pub closed spec fn slots(&self) -> Seq<Option<Frame>> {
        self.slots@
    }

    /// A slot is empty exactly when the allocator holds fewer than three
    /// frames.
    pub proof fn lemma_room(&self)
        ensures
            self.slots().len() == TINY_CAPACITY,
            first_empty(self.slots()) is Some <==> self.available().len() < TINY_CAPACITY,
            first_occupied(self.slots()) is Some <==> self.available().len() > 0,
    {
    }

    /// Whether a slot is empty, so that a frame can be taken back.
    pub fn has_room(&self) -> (room: bool)
        ensures
            room == (first_empty(self.slots()) is Some),
            room == (self.available().len() < TINY_CAPACITY),
    {
        self.slots[0].is_none() || self.slots[1].is_none() || self.slots[2].is_none()
    }

    /// An allocator with up to three frames from `allocator`, which it takes
    /// one after another.
    pub fn new<A: FrameAllocator>(allocator: &mut A) -> (tiny: TinyAllocator)
        ensures
            tiny.slots().len() == TINY_CAPACITY,
            exists|second: A, third: A|
                {
                    &&& #[trigger] old(allocator).hands_out(&second, tiny.slots()[0])
                    &&& #[trigger] second.hands_out(&third, tiny.slots()[1])
                    &&& third.hands_out(final(allocator), tiny.slots()[2])
                },
            tiny.available().add(final(allocator).available()) == old(allocator).available(),
            tiny.available().len() == if old(allocator).available().len() >= TINY_CAPACITY {
                TINY_CAPACITY as int
            } else {
                old(allocator).available().len() as int
            },
            tiny.slots()[0] is None ==> tiny.slots()[1] is None,
            tiny.slots()[1] is None ==> tiny.slots()[2] is None,
    {
        let first = allocator.alloc_frame();
        let second = allocator.alloc_frame();
        let third = allocator.alloc_frame();
        TinyAllocator { slots: [first, second, third] }
    }
}

impl FrameAllocator for TinyAllocator {
    open spec fn available(&self) -> Multiset<int> {
        frame_in_slot(self.slots()[0]).add(frame_in_slot(self.slots()[1])).add(
            frame_in_slot(self.slots()[2]),
        )
    }

    /// A frame is taken back as long as a slot is empty.
    open spec fn accepts(&self, frame: Frame) -> bool {
        self.slots().len() == TINY_CAPACITY && first_empty(self.slots()) is Some
    }

    /// What one allocation does: it gives the frame of the first slot that
    /// holds one, and empties the slot; where no slot holds a frame, nothing
    /// is given and nothing changes.
    open spec fn hands_out(&self, next: &Self, frame: Option<Frame>) -> bool {
        match first_occupied(self.slots()) {
            Some(slot) => frame == self.slots()[slot] && next.slots() == self.slots().update(
                slot,
                None,
            ),
            None => frame is None && next.slots() == self.slots(),
        }
    }

    /// Hands out the frame of the first slot that holds one.
    fn alloc_frame(&mut self) -> (frame: Option<Frame>) {
        let mut slot: usize = 0;
        while slot < TINY_CAPACITY
            invariant
                0 <= slot <= TINY_CAPACITY,
                self.slots@ == old(self).slots@,
                self.slots@.len() == TINY_CAPACITY,
                forall|other: int| 0 <= other < slot ==> self.slots@[other] is None,
            decreases TINY_CAPACITY - slot,
        {
            let frame = self.slots[slot];
            if frame.is_some() {
                self.slots[slot] = None;
                return frame;
            }
            slot += 1;
        }
        None
    }

    /// What taking a frame back does: the frame goes into the first slot
    /// that is empty.
    open spec fn takes_back(&self, next: &Self, frame: Frame) -> bool {
        first_empty(self.slots()) is Some && next.slots() == self.slots().update(
            first_empty(self.slots()).unwrap(),
            Some(frame),
        )
    }

    /// Puts `frame` into the first slot that is empty.
    fn dealloc_frame(&mut self, frame: Frame) {
        let mut slot: usize = 0;
        while slot < TINY_CAPACITY
            invariant
                0 <= slot <= TINY_CAPACITY,
                self.slots@ == old(self).slots@,
                self.slots@.len() == TINY_CAPACITY,
                first_empty(self.slots@) is Some,
                forall|other: int| 0 <= other < slot ==> self.slots@[other] is Some,
            decreases TINY_CAPACITY - slot,
        {
            if self.slots[slot].is_none() {
                self.slots[slot] = Some(frame);
                return ;
            }
            slot += 1;
        }
    }
}

/// One page of virtual memory that is mapped to one frame at a time.
pub struct TemporaryPage {
    /// The page.
    page: Page,
    /// The frames for the page tables of the page.
    allocator: TinyAllocator,
}

impl TemporaryPage {
    /// The page.
    pub closed spec fn page(&self) -> Page {
        self.page
    }

    /// The allocator that holds the frames for the page tables of the page.
    pub closed spec fn allocator(&self) -> TinyAllocator {
        self.allocator
    }

    /// The indices of the frames that the allocator of the page holds.
    pub open spec fn pool(&self) -> Multiset<int> {
        self.allocator().available()
    }

    /// The temporary page `page`, with up to three frames from `allocator`
    /// for its page tables.
    pub fn new<A: FrameAllocator>(page: Page, allocator: &mut A) -> (temporary: TemporaryPage)
        ensures
            temporary.page() == page,
            temporary.allocator().slots().len() == TINY_CAPACITY,
            exists|second: A, third: A|
                {
                    &&& #[trigger] old(allocator).hands_out(
                        &second,
                        temporary.allocator().slots()[0],
                    )
                    &&& #[trigger] second.hands_out(&third, temporary.allocator().slots()[1])
                    &&& third.hands_out(final(allocator), temporary.allocator().slots()[2])
                },
            temporary.pool().add(final(allocator).available()) == old(allocator).available(),
            temporary.pool().len() == if old(allocator).available().len() >= TINY_CAPACITY {
                TINY_CAPACITY as int
            } else {
                old(allocator).available().len() as int
            },
    {
        TemporaryPage { page: page, allocator: TinyAllocator::new(allocator) }
    }

    /// Maps the page to `frame` in the active address space, writable, and
    /// gives the virtual address of the page.
    pub fn map<M: Machine>(&mut self, frame: Frame, active_table: &mut ActivePageTable<M>) -> (addr:
        VirtualAddress)
        requires
            old(active_table).tables().ready_to_map(old(self).page(), frame, old(self).pool()),
        ensures
            final(self).page() == old(self).page(),
            final(self).allocator().slots().len() == old(self).allocator().slots().len(),
            addr == old(self).page().number() * PAGE_SIZE,
            old(active_table).tables().maps(
                &final(active_table).tables(),
                old(self).page(),
                frame,
                WRITABLE,
                old(self).pool(),
                final(self).pool(),
            ),
            hands_out_all(
                &old(self).allocator(),
                &final(self).allocator(),
                old(active_table).tables().tables_made(
                    &final(active_table).tables(),
                    old(self).page(),
                ),
            ),
            old(active_table).wf() ==> {
                &&& final(active_table).wf()
                &&& final(active_table).tables().state().table_at(addr) == Some(frame)
            },
    {
        let flags = EntryFlags::from_bits_truncate(WRITABLE);
        proof {
            let bits = flags.value();
            assert(bits == WRITABLE && (bits | super::entry::PRESENT) & super::entry::HUGE_PAGE
                == 0) by (bit_vector)
                requires
                    bits == WRITABLE & super::entry::FLAG_MASK,
            ;
        }
        active_table.map_to(self.page, frame, flags, &mut self.allocator);
        proof {
            let raw = (frame.start_address() as u64) | (WRITABLE | super::entry::PRESENT);
            let start = frame.start_address() as u64;
            assert(raw & super::entry::HUGE_PAGE == 0) by (bit_vector)
                requires
                    raw == start | (WRITABLE | super::entry::PRESENT),
                    start & !super::entry::ADDRESS_MASK == 0,
            ;
        }
        self.page.address()
    }

    /// Unmaps the page and gives its frame to the allocator of the page.
    pub fn unmap<M: Machine>(&mut self, active_table: &mut ActivePageTable<M>)
        requires
            old(active_table).tables().wf(),
            old(active_table).tables().frame_of_page(old(self).page()) is Some,
            old(self).allocator().accepts(
                old(active_table).tables().frame_of_page(old(self).page()).unwrap(),
            ),
        ensures
            final(self).page() == old(self).page(),
            final(self).allocator().slots().len() == old(self).allocator().slots().len(),
            old(active_table).tables().unmaps(&final(active_table).tables(), old(self).page()),
            old(self).allocator().takes_back(
                &final(self).allocator(),
                old(active_table).tables().frame_of_page(old(self).page()).unwrap(),
            ),
            final(self).pool() == old(self).pool().insert(
                old(active_table).tables().frame_of_page(old(self).page()).unwrap().index as int,
            ),
    {
        active_table.unmap(self.page, &mut self.allocator);
    }

    /// Maps the page to `frame` in the active address space and gives the
    /// page as a level-1 table, so that the frame can be read and written as
    /// a page table.
    pub fn map_table_frame<M: Machine>(
        &mut self,
        frame: Frame,
        active_table: &mut ActivePageTable<M>,
    ) -> (table: Table<Level1>)
        requires
            old(active_table).tables().ready_to_map(old(self).page(), frame, old(self).pool()),
        ensures
            final(self).page() == old(self).page(),
            final(self).allocator().slots().len() == old(self).allocator().slots().len(),
            table.address() == old(self).page().number() * PAGE_SIZE,
            table.wf(),
            old(active_table).tables().maps(
                &final(active_table).tables(),
                old(self).page(),
                frame,
                WRITABLE,
                old(self).pool(),
                final(self).pool(),
            ),
            hands_out_all(
                &old(self).allocator(),
                &final(self).allocator(),
                old(active_table).tables().tables_made(
                    &final(active_table).tables(),
                    old(self).page(),
                ),
            ),
            old(active_table).wf() ==> final(active_table).wf() && table.frame_in(
                final(active_table).tables().state(),
            ) == Some(frame),
    {
        Table::at(self.map(frame, active_table))
    }
}

} // verus!
