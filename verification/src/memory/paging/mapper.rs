//! Mapping, unmapping and translating pages in the tables that the recursive
//! mapping shows.

use super::entry::{fits_entry, is_huge, EntryFlags, PRESENT};
use super::machine::{p1_slot, p2_slot, p3_slot, p4_slot, Flush, Machine, MachineState};
use super::table::{
    fit_entries, holds_fresh_frames, leads_to_new_table, lemma_fresh_frames_stay_fresh, lemma_new_table,
    Level4, Table, LEVEL4_TABLE,
};
use super::{Page, VirtualAddress};
use crate::memory::{
    hands_out_all, lemma_hands_out_all, Frame, FrameAllocator, PhysicalAddress, PAGE_SIZE,
};
use vstd::multiset::Multiset;
use vstd::prelude::*;

verus! {

/// Whether a table on the way to a page, `before` a mapping and `after` it,
/// is the table that was there, or else a frame that the allocator gave: one
/// of `pool` that is not in `rest`.
pub open spec fn kept_or_taken(
    before: Option<Frame>,
    after: Option<Frame>,
    pool: Multiset<int>,
    rest: Multiset<int>,
) -> bool {
    match before {
        Some(_) => after == before,
        None => after is Some && pool.contains(after.unwrap().index as int) && !rest.contains(
            after.unwrap().index as int,
        ),
    }
}

/// The frame that the allocator gave for a table on the way to a page that
/// was missing `before` a mapping and is there `after` it, as a multiset of
/// indices; no frame where the table was there before.
pub open spec fn taken(before: Option<Frame>, after: Option<Frame>) -> Multiset<int> {
    if before is None && after is Some {
        Multiset::singleton(after.unwrap().index as int)
    } else {
        Multiset::empty()
    }
}

/// The page tables of the address space that the recursive mapping shows,
/// on the machine `M`.
pub struct Mapper<M: Machine> {
    /// The machine.
    machine: M,
}

impl<M: Machine> Mapper<M> {
    /// What can be observed of the machine.
    pub closed spec fn state(&self) -> MachineState {
        self.machine.state()
    }

    /// Whether the tables are mapped into themselves.
    pub open spec fn wf(&self) -> bool {
        self.state().recursive()
    }

    /// The frame of the level-4 table that the recursive mapping shows.
    pub open spec fn top(&self) -> Frame {
        self.state().top().unwrap()
    }

    /// The frame that `page` is mapped to.
    pub open spec fn frame_of_page(&self, page: Page) -> Option<Frame> {
        self.state().walk(self.top(), page.number())
    }

    /// The physical address that the virtual address `addr` stands for.
    pub open spec fn translation(&self, addr: VirtualAddress) -> Option<PhysicalAddress> {
        match self.state().walk(self.top(), (addr / PAGE_SIZE) as u64) {
            Some(frame) => Some((frame.index * PAGE_SIZE + addr % PAGE_SIZE) as u64),
            None => None,
        }
    }

    /// Whether `page` can be mapped: no entry on the way to its level-1 table
    /// is marked as a huge page, and its own entry is unused.
    pub open spec fn can_map(&self, page: Page) -> bool {
        &&& !self.state().huge_on_path(self.top(), page.number())
        &&& self.state().unused(self.top(), page.number())
    }

    /// How many page tables are missing on the way to `page`.
    pub open spec fn missing_tables(&self, page: Page) -> nat {
        self.state().missing_tables(self.top(), page.number())
    }

    /// Whether slot `slot` of the table in `frame` is one of the four that
    /// the way to `page` goes through.
    pub open spec fn on_path(&self, page: Page, frame: Frame, slot: int) -> bool {
        self.state().on_way(self.top(), page.number(), frame, slot)
    }

    /// Whether slot `slot` of the table in `frame` is one of the two slots
    /// that map the tables into themselves: the last slot of the root table,
    /// or the last slot of the level-4 table that the recursive mapping shows.
    pub open spec fn maps_itself(&self, frame: Frame, slot: int) -> bool {
        slot == 511 && (frame == self.state().root || frame == self.top())
    }

    /// The frames of the page tables on the way to `page` that `next` has
    /// and `self` lacks, from the highest level down.
    pub open spec fn tables_made(&self, next: &Self, page: Page) -> Seq<Frame> {
        let number = page.number();
        let p3 = next.state().p3_of(next.top(), number).unwrap();
        let p2 = next.state().p2_of(next.top(), number).unwrap();
        let p1 = next.state().p1_of(next.top(), number).unwrap();
        if self.missing_tables(page) == 3 {
            seq![p3, p2, p1]
        } else if self.missing_tables(page) == 2 {
            seq![p2, p1]
        } else if self.missing_tables(page) == 1 {
            seq![p1]
        } else {
            seq![]
        }
    }

    /// Whether `page` can be mapped to `frame` with page tables from the
    /// frames with the indices `pool`: the tables are mapped into themselves,
    /// an entry can name `frame`, the page can be mapped, and where tables are
    /// missing on the way, `pool` has that many frames, all fresh.
    pub open spec fn ready_to_map(&self, page: Page, frame: Frame, pool: Multiset<int>) -> bool {
        &&& self.wf()
        &&& fits_entry(frame)
        &&& self.can_map(page)
        &&& self.missing_tables(page) > 0 ==> pool.len() >= self.missing_tables(page)
            && holds_fresh_frames(pool, self.state(), self.top())
    }

    /// What mapping `page` to `frame` with the flag bits `flags` does: it takes
    /// the tables from `self` to `next` and the frames that the allocator
    /// holds from `pool` to `rest`.
    ///
    /// The page is then mapped to the frame, with the flags and `PRESENT`, so
    /// that each address of the page stands for the same offset in the frame.
    /// Each table that was missing is a frame of `pool`, which `rest` lacks;
    /// the slot above it leads to it, and it is empty but for the slot on
    /// the way to the page. No slot has changed but those on the way to the
    /// page that led to no table, and those of the frames taken.
    pub open spec fn maps(
        &self,
        next: &Self,
        page: Page,
        frame: Frame,
        flags: u64,
        pool: Multiset<int>,
        rest: Multiset<int>,
    ) -> bool {
        &&& next.wf()
        &&& next.top() == self.top()
        &&& next.state().root == self.state().root
        &&& next.state().flushes == self.state().flushes
        &&& next.frame_of_page(page) == Some(frame)
        &&& next.missing_tables(page) == 0
        &&& !next.can_map(page)
        &&& next.state().entry(
            next.state().p1_of(next.top(), page.number()).unwrap(),
            p1_slot(page.number()),
        ) == (frame.start_address() as u64) | (flags | PRESENT)
        &&& forall|addr: VirtualAddress|
            addr / PAGE_SIZE == page.number() ==> #[trigger] next.translation(addr) == Some(
                (frame.start_address() + addr % PAGE_SIZE) as u64,
            )
        &&& rest.subset_of(pool)
        &&& rest.len() + self.missing_tables(page) == pool.len()
        &&& pool == rest.add(
            taken(
                self.state().p3_of(self.top(), page.number()),
                next.state().p3_of(next.top(), page.number()),
            ),
        ).add(
            taken(
                self.state().p2_of(self.top(), page.number()),
                next.state().p2_of(next.top(), page.number()),
            ),
        ).add(
            taken(
                self.state().p1_of(self.top(), page.number()),
                next.state().p1_of(next.top(), page.number()),
            ),
        )
        &&& self.state().p3_of(self.top(), page.number()) is None ==> leads_to_new_table(
            next.state(),
            next.top(),
            p4_slot(page.number()),
            next.state().p3_of(next.top(), page.number()).unwrap(),
            p3_slot(page.number()),
        )
        &&& self.state().p2_of(self.top(), page.number()) is None ==> leads_to_new_table(
            next.state(),
            next.state().p3_of(next.top(), page.number()).unwrap(),
            p3_slot(page.number()),
            next.state().p2_of(next.top(), page.number()).unwrap(),
            p2_slot(page.number()),
        )
        &&& self.state().p1_of(self.top(), page.number()) is None ==> leads_to_new_table(
            next.state(),
            next.state().p2_of(next.top(), page.number()).unwrap(),
            p2_slot(page.number()),
            next.state().p1_of(next.top(), page.number()).unwrap(),
            p1_slot(page.number()),
        )
        &&& kept_or_taken(
            self.state().p3_of(self.top(), page.number()),
            next.state().p3_of(next.top(), page.number()),
            pool,
            rest,
        )
        &&& kept_or_taken(
            self.state().p2_of(self.top(), page.number()),
            next.state().p2_of(next.top(), page.number()),
            pool,
            rest,
        )
        &&& kept_or_taken(
            self.state().p1_of(self.top(), page.number()),
            next.state().p1_of(next.top(), page.number()),
            pool,
            rest,
        )
        &&& forall|table: Frame, slot: int|
            #[trigger] next.state().entry(table, slot) != self.state().entry(table, slot) ==> (
            next.on_path(page, table, slot) && self.state().next(table, slot) is None) || (
            pool.contains(table.index as int) && !rest.contains(table.index as int))
    }

    /// What unmapping `page` does: it takes the tables from `self` to `next`.
    ///
    /// The entry of the page is unused and the translation of the page is
    /// flushed; nothing else has changed. Unless the entry was one of those
    /// that map the tables into themselves, the tables are still mapped into
    /// themselves, and no address of the page stands for anything.
    pub open spec fn unmaps(&self, next: &Self, page: Page) -> bool {
        let p1 = self.state().p1_of(self.top(), page.number()).unwrap();
        &&& next.state() == self.state().write(p1, p1_slot(page.number()), 0).flushed(
            Flush::Page((page.number() * PAGE_SIZE) as u64),
        )
        &&& next.wf() <==> !self.maps_itself(p1, p1_slot(page.number()))
        &&& next.wf() ==> next.top() == self.top() && next.frame_of_page(page) is None
        &&& next.wf() ==> forall|addr: VirtualAddress|
            addr / PAGE_SIZE == page.number() ==> #[trigger] next.translation(addr) is None
    }

    /// The tables of `machine`, which are mapped into themselves.
    pub fn new(machine: M) -> (mapper: Mapper<M>)
        requires
            machine.state().recursive(),
        ensures
            mapper.wf(),
            mapper.state() == machine.state(),
    {
        Mapper { machine }
    }

    /// The machine.
    pub fn machine(&self) -> (machine: &M)
        ensures
            machine.state() == self.state(),
    {
        &self.machine
    }

    /// The machine, to read and write its tables.
    pub fn machine_mut(&mut self) -> (machine: &mut M)
        ensures
            machine.state() == old(self).state(),
            final(self).state() == final(machine).state(),
    {
        &mut self.machine
    }

    /// Gives the machine back.
    pub fn into_machine(self) -> (machine: M)
        ensures
            machine.state() == self.state(),
    {
        self.machine
    }

    /// The level-4 table.
    pub fn p4(&self) -> (table: Table<Level4>)
        ensures
            table.address() == LEVEL4_TABLE,
            table.wf(),
            self.wf() ==> table.frame_in(self.state()) == Some(self.top()),
    {
        let page = LEVEL4_TABLE / 4096;
        assert((page >> 27) & 0x1ff == 511 && (page >> 18) & 0x1ff == 511 && (page >> 9) & 0x1ff
            == 511 && page & 0x1ff == 511) by (bit_vector)
            requires
                page == 0xffff_ffff_ffff_f000u64 / 4096,
        ;
        Table::at(LEVEL4_TABLE)
    }

    /// The physical address that the virtual address `virtual_addr` stands
    /// for, if its page is mapped.
    pub fn translate(&self, virtual_addr: VirtualAddress) -> (physical: Option<PhysicalAddress>)
        requires
            self.wf(),
        ensures
            physical == self.translation(virtual_addr),
    {
        let off = virtual_addr % PAGE_SIZE;
        match self.translate_page(Page::get_page_at_address(virtual_addr)) {
            Some(frame) => Some(frame.index * PAGE_SIZE + off),
            None => None,
        }
    }

    /// The frame that `page` is mapped to, if it is mapped.
    pub fn translate_page(&self, page: Page) -> (frame: Option<Frame>)
        requires
            self.wf(),
        ensures
            frame == self.frame_of_page(page),
            frame is Some ==> frame.unwrap().index < super::entry::ENTRY_FRAME_COUNT,
    {
        let p3 = match self.p4().next_table(&self.machine, page.p4_index()) {
            Some(table) => table,
            None => {
                return None;
            },
        };
        let p2 = match p3.next_table(&self.machine, page.p3_index()) {
            Some(table) => table,
            None => {
                return None;
            },
        };
        let p1 = match p2.next_table(&self.machine, page.p2_index()) {
            Some(table) => table,
            None => {
                return None;
            },
        };
        let entry = p1.entry(&self.machine, page.p1_index());
        proof {
            let raw = entry.value();
            assert((raw & super::entry::ADDRESS_MASK) / 4096 < 0x100_0000_0000u64) by (bit_vector);
        }
        entry.frame()
    }

    /// Whether `page` can be mapped: no entry on the way to its level-1 table
    /// is marked as a huge page, and its own entry is unused.
    pub fn is_mappable(&self, page: Page) -> (mappable: bool)
        requires
            self.wf(),
        ensures
            mappable == self.can_map(page),
    {
        let huge = EntryFlags::from_bits_truncate(super::entry::HUGE_PAGE);
        proof {
            lemma_huge_flag();
        }
        let p4 = self.p4();
        if p4.entry(&self.machine, page.p4_index()).flags().contains(huge) {
            return false;
        }
        let p3 = match p4.next_table(&self.machine, page.p4_index()) {
            Some(table) => table,
            None => {
                return true;
            },
        };
        if p3.entry(&self.machine, page.p3_index()).flags().contains(huge) {
            return false;
        }
        let p2 = match p3.next_table(&self.machine, page.p3_index()) {
            Some(table) => table,
            None => {
                return true;
            },
        };
        if p2.entry(&self.machine, page.p2_index()).flags().contains(huge) {
            return false;
        }
        let p1 = match p2.next_table(&self.machine, page.p2_index()) {
            Some(table) => table,
            None => {
                return true;
            },
        };
        p1.entry(&self.machine, page.p1_index()).is_unused()
    }

    /// How many page tables are missing on the way to `page`.
    pub fn count_missing_tables(&self, page: Page) -> (missing: usize)
        requires
            self.wf(),
        ensures
            missing == self.missing_tables(page),
    {
        let p3 = match self.p4().next_table(&self.machine, page.p4_index()) {
            Some(table) => table,
            None => {
                return 3;
            },
        };
        let p2 = match p3.next_table(&self.machine, page.p3_index()) {
            Some(table) => table,
            None => {
                return 2;
            },
        };
        match p2.next_table(&self.machine, page.p2_index()) {
            Some(_) => 0,
            None => 1,
        }
    }

    /// Maps `page` to `frame` with the flags `flags` and `PRESENT`. The page
    /// tables that are missing on the way are made from frames of
    /// `allocator`.
    pub fn map_to<A: FrameAllocator>(
        &mut self,
        page: Page,
        frame: Frame,
        flags: EntryFlags,
        allocator: &mut A,
    )
        requires
            old(self).ready_to_map(page, frame, old(allocator).available()),
        ensures
            old(self).maps(
                final(self),
                page,
                frame,
                flags.value(),
                old(allocator).available(),
                final(allocator).available(),
            ),
            hands_out_all(
                old(allocator),
                final(allocator),
                old(self).tables_made(final(self), page),
            ),
    {
        let ghost start = self.state();
        let ghost top = self.top();
        let ghost number = page.number();
        let ghost pool = allocator.available();
        proof {
            assert(0u64 & super::entry::HUGE_PAGE == 0) by (bit_vector);
            assert(0u64 & PRESENT == 0) by (bit_vector);
        }
        let p4 = self.p4();
        let p3 = p4.create_next_table(&mut self.machine, page.p4_index(), allocator);
        let ghost allocator2 = *allocator;
        let ghost second = self.state();
        let ghost pool2 = allocator.available();
        let ghost p3_frame = p3.frame_in(second).unwrap();
        proof {
            if start.p3_of(top, number) is None {
                lemma_fresh_frames_stay_fresh(pool, start, top, p4_slot(number), p3_frame, top);
                super::entry::lemma_fits_entry(p3_frame);
                lemma_new_table(start, top, p4_slot(number), p3_frame);
            }
            assert(second.p3_of(top, number) == Some(p3_frame));
        }
        let p2 = p3.create_next_table(&mut self.machine, page.p3_index(), allocator);
        let ghost allocator3 = *allocator;
        let ghost third = self.state();
        let ghost p2_frame = p2.frame_in(third).unwrap();
        proof {
            if second.next(p3_frame, p3_slot(number)) is None {
                lemma_fresh_frames_stay_fresh(
                    pool2,
                    second,
                    p3_frame,
                    p3_slot(number),
                    p2_frame,
                    top,
                );
                super::entry::lemma_fits_entry(p2_frame);
                lemma_new_table(second, p3_frame, p3_slot(number), p2_frame);
            }
            assert(third.p2_of(top, number) == Some(p2_frame));
        }
        let p1 = p2.create_next_table(&mut self.machine, page.p2_index(), allocator);
        let ghost fourth = self.state();
        let ghost p1_frame = p1.frame_in(fourth).unwrap();
        proof {
            if third.next(p2_frame, p2_slot(number)) is None {
                super::entry::lemma_fits_entry(p1_frame);
                lemma_new_table(third, p2_frame, p2_slot(number), p1_frame);
            }
        }
        let mut entry = p1.entry(&self.machine, page.p1_index());
        let all = flags.union(EntryFlags::from_bits_truncate(PRESENT));
        entry.set_flags(frame, all);
        proof {
            let raw = entry.value();
            let bits = all.value();
            let given = flags.value();
            assert(bits == given | PRESENT && raw & PRESENT != 0 && raw != 0) by (bit_vector)
                requires
                    bits == given | (PRESENT & super::entry::FLAG_MASK),
                    raw & super::entry::FLAG_MASK == bits,
            ;
        }
        p1.set_entry(&mut self.machine, page.p1_index(), entry);
        proof {
            let rest = allocator.available();
            let none = Seq::<Frame>::empty();
            if start.p1_of(top, number) is None {
                lemma_hands_out_all(&allocator3, &*allocator, &*allocator, p1_frame, none);
            }
            if start.p2_of(top, number) is None {
                lemma_hands_out_all(
                    &allocator2,
                    &allocator3,
                    &*allocator,
                    p2_frame,
                    seq![p1_frame],
                );
                assert(seq![p2_frame] + seq![p1_frame] =~= seq![p2_frame, p1_frame]);
            }
            if start.p3_of(top, number) is None {
                lemma_hands_out_all(
                    old(allocator),
                    &allocator2,
                    &*allocator,
                    p3_frame,
                    seq![p2_frame, p1_frame],
                );
                assert(seq![p3_frame] + seq![p2_frame, p1_frame] =~= seq![
                    p3_frame,
                    p2_frame,
                    p1_frame,
                ]);
            }
            let taken3 = taken(start.p3_of(top, number), Some(p3_frame));
            let taken2 = taken(start.p2_of(top, number), Some(p2_frame));
            let taken1 = taken(start.p1_of(top, number), Some(p1_frame));
            assert(pool =~= rest.add(taken3).add(taken2).add(taken1));
        }
    }

    /// Maps `page` to a frame of `allocator` with the flags `flags` and
    /// `PRESENT`. The page tables that are missing on the way are made from
    /// further frames of `allocator`.
    pub fn map<A: FrameAllocator>(&mut self, page: Page, flags: EntryFlags, allocator: &mut A)
        requires
            old(self).wf(),
            old(self).can_map(page),
            old(allocator).available().len() >= old(self).missing_tables(page) + 1,
            fit_entries(old(allocator).available()),
            old(self).missing_tables(page) > 0 ==> holds_fresh_frames(
                old(allocator).available(),
                old(self).state(),
                old(self).top(),
            ),
        ensures
            final(self).frame_of_page(page) is Some,
            hands_out_all(
                old(allocator),
                final(allocator),
                seq![final(self).frame_of_page(page).unwrap()] + old(self).tables_made(
                    final(self),
                    page,
                ),
            ),
            old(allocator).available().contains(
                final(self).frame_of_page(page).unwrap().index as int,
            ),
            old(self).maps(
                final(self),
                page,
                final(self).frame_of_page(page).unwrap(),
                flags.value(),
                old(allocator).available().remove(
                    final(self).frame_of_page(page).unwrap().index as int,
                ),
                final(allocator).available(),
            ),
    {
        let ghost pool = allocator.available();
        let frame = allocator.alloc_frame().unwrap();
        let ghost next = *allocator;
        proof {
            super::entry::lemma_fits_entry(frame);
            let rest = allocator.available();
            assert forall|index: int| #[trigger] rest.contains(index) implies pool.contains(index)
                && rest.count(index) <= pool.count(index) by {}
        }
        self.map_to(page, frame, flags, allocator);
        proof {
            lemma_hands_out_all(
                old(allocator),
                &next,
                &*allocator,
                frame,
                old(self).tables_made(&*self, page),
            );
        }
    }

    /// Maps the page whose address is the address of `frame` to `frame`,
    /// with the flags `flags` and `PRESENT`.
    pub fn identitiy_map<A: FrameAllocator>(
        &mut self,
        frame: Frame,
        flags: EntryFlags,
        allocator: &mut A,
    )
        requires
            old(self).ready_to_map(
                Page::with_number(frame.index),
                frame,
                old(allocator).available(),
            ),
        ensures
            old(self).maps(
                final(self),
                Page::with_number(frame.index),
                frame,
                flags.value(),
                old(allocator).available(),
                final(allocator).available(),
            ),
            hands_out_all(
                old(allocator),
                final(allocator),
                old(self).tables_made(final(self), Page::with_number(frame.index)),
            ),
            forall|addr: VirtualAddress|
                addr / PAGE_SIZE == frame.index ==> #[trigger] final(self).translation(addr)
                    == Some(addr),
    {
        broadcast use Page::lemma_number;

        let page = Page::get_page_at_address(frame.get_start_address());
        self.map_to(page, frame, flags, allocator)
    }

    /// Unmaps `page`, flushes it out of the translation cache and
    /// gives its frame to `allocator`.
    pub fn unmap<A: FrameAllocator>(&mut self, page: Page, allocator: &mut A)
        requires
            old(self).wf(),
            old(self).frame_of_page(page) is Some,
            old(allocator).accepts(old(self).frame_of_page(page).unwrap()),
        ensures
            old(self).unmaps(final(self), page),
            old(allocator).takes_back(final(allocator), old(self).frame_of_page(page).unwrap()),
            final(allocator).available() == old(allocator).available().insert(
                old(self).frame_of_page(page).unwrap().index as int,
            ),
    {
        let ghost number = page.number();
        proof {
            assert(0u64 & PRESENT == 0) by (bit_vector);
        }
        let p3 = self.p4().next_table(&self.machine, page.p4_index()).unwrap();
        let p2 = p3.next_table(&self.machine, page.p3_index()).unwrap();
        let p1 = p2.next_table(&self.machine, page.p2_index()).unwrap();
        let mut entry = p1.entry(&self.machine, page.p1_index());
        let frame = entry.frame().unwrap();
        entry.mark_unused();
        p1.set_entry(&mut self.machine, page.p1_index(), entry);
        self.machine.flush_page(page.address());
        allocator.dealloc_frame(frame);
    }
}

/// A set of flags holds the flag `HUGE_PAGE` exactly when the bit is set.
proof fn lemma_huge_flag()
    ensures
        forall|raw: u64|
            ((#[trigger] (raw & super::entry::FLAG_MASK)) & (super::entry::HUGE_PAGE
                & super::entry::FLAG_MASK) == super::entry::HUGE_PAGE & super::entry::FLAG_MASK)
                <==> is_huge(raw),
{
    assert forall|raw: u64|
        ((#[trigger] (raw & super::entry::FLAG_MASK)) & (super::entry::HUGE_PAGE
            & super::entry::FLAG_MASK) == super::entry::HUGE_PAGE & super::entry::FLAG_MASK)
            <==> is_huge(raw) by {
        assert(((raw & super::entry::FLAG_MASK) & (super::entry::HUGE_PAGE
            & super::entry::FLAG_MASK) == super::entry::HUGE_PAGE & super::entry::FLAG_MASK) <==> raw
            & super::entry::HUGE_PAGE != 0) by (bit_vector);
    }
}

/// After `page` was mapped to `frame`, each address of the page stands for
/// the address at the same offset in the frame: the first address of the page
/// for the first of the frame, and the last for the last.
pub proof fn lemma_mapped_page_translates<M: Machine>(
    before: Mapper<M>,
    after: Mapper<M>,
    page: Page,
    frame: Frame,
    flags: u64,
    pool: Multiset<int>,
    rest: Multiset<int>,
    offset: u64,
)
    requires
        before.maps(&after, page, frame, flags, pool, rest),
        offset < PAGE_SIZE,
        page.number() < crate::memory::FRAME_COUNT,
    ensures
        after.translation((page.number() * PAGE_SIZE + offset) as u64) == Some(
            (frame.start_address() + offset) as u64,
        ),
        after.translation((page.number() * PAGE_SIZE) as u64) == Some(
            frame.start_address() as u64,
        ),
        after.translation((page.number() * PAGE_SIZE + (PAGE_SIZE - 1)) as u64) == Some(
            (frame.start_address() + (PAGE_SIZE - 1)) as u64,
        ),
{
    let start = (page.number() * PAGE_SIZE) as u64;
    let addr = (start + offset) as u64;
    assert(addr / PAGE_SIZE == page.number() && addr % PAGE_SIZE == offset);
    let last = (start + (PAGE_SIZE - 1)) as u64;
    assert(last / PAGE_SIZE == page.number() && last % PAGE_SIZE == PAGE_SIZE - 1);
}

/// Mapping a page leaves every page that was mapped to a frame mapped to
/// that frame.
pub proof fn lemma_mapping_keeps_mapped_pages<M: Machine>(
    before: Mapper<M>,
    after: Mapper<M>,
    page: Page,
    frame: Frame,
    flags: u64,
    pool: Multiset<int>,
    rest: Multiset<int>,
    other: Page,
)
    requires
        before.ready_to_map(page, frame, pool),
        before.maps(&after, page, frame, flags, pool, rest),
        before.frame_of_page(other) is Some,
    ensures
        after.frame_of_page(other) == before.frame_of_page(other),
{
    let old_state = before.state();
    let new_state = after.state();
    let top = before.top();
    let number = other.number();
    let p3 = old_state.p3_of(top, number).unwrap();
    let p2 = old_state.p2_of(top, number).unwrap();
    let p1 = old_state.p1_of(top, number).unwrap();
    super::machine::lemma_slots_of_page(number);
    super::machine::lemma_slots_of_page(page.number());
    assert(old_state.is_table(top, top));
    assert(old_state.is_table(top, p3));
    assert(old_state.is_table(top, p2));
    assert(old_state.is_table(top, p1));
    assert(new_state.entry(top, p4_slot(number)) == old_state.entry(top, p4_slot(number)));
    assert(new_state.entry(p3, p3_slot(number)) == old_state.entry(p3, p3_slot(number)));
    assert(new_state.entry(p2, p2_slot(number)) == old_state.entry(p2, p2_slot(number)));
    assert(new_state.entry(p1, p1_slot(number)) == old_state.entry(p1, p1_slot(number))) by {
        assert(0u64 & PRESENT == 0) by (bit_vector);
        let raw = old_state.entry(p1, p1_slot(number));
        assert(old_state.next(p1, p1_slot(number)) is None ==> is_huge(raw));
        if after.on_path(page, p1, p1_slot(number)) && old_state.next(p1, p1_slot(number))
            is None {
            assert(!old_state.huge_on_path(top, page.number()));
            assert(old_state.unused(top, page.number()));
        }
    }
}

/// After `page` was unmapped, no address of the page stands for anything,
/// as long as the tables are still mapped into themselves.
pub proof fn lemma_unmapped_page_translates_to_nothing<M: Machine>(
    before: Mapper<M>,
    after: Mapper<M>,
    page: Page,
    addr: VirtualAddress,
)
    requires
        before.unmaps(&after, page),
        after.wf(),
        addr / PAGE_SIZE == page.number(),
    ensures
        after.translation(addr) is None,
        after.frame_of_page(page) is None,
{
}

/// A slot that a mapping has changed, and that is none of the four on the
/// way to the mapped page, is a slot of a new table and unused.
pub proof fn lemma_changed_slot_is_unused<M: Machine>(
    before: Mapper<M>,
    after: Mapper<M>,
    page: Page,
    frame: Frame,
    flags: u64,
    pool: Multiset<int>,
    rest: Multiset<int>,
    table: Frame,
    slot: int,
)
    requires
        before.maps(&after, page, frame, flags, pool, rest),
        0 <= slot < super::machine::ENTRY_COUNT,
        !after.on_path(page, table, slot),
        after.state().entry(table, slot) != before.state().entry(table, slot),
    ensures
        after.state().entry(table, slot) == 0,
{
    let number = page.number();
    let top = before.top();
    let old_p3 = before.state().p3_of(top, number);
    let old_p2 = before.state().p2_of(top, number);
    let old_p1 = before.state().p1_of(top, number);
    let p3 = after.state().p3_of(top, number);
    let p2 = after.state().p2_of(top, number);
    let p1 = after.state().p1_of(top, number);
    let index = table.index as int;
    assert(pool.contains(index) && !rest.contains(index));
    assert(pool.count(index) == rest.count(index) + taken(old_p3, p3).count(index) + taken(
        old_p2,
        p2,
    ).count(index) + taken(old_p1, p1).count(index));
    assert(Frame { index: index as u64 } == table);
    if taken(old_p3, p3).count(index) > 0 {
        assert(p3 == Some(table));
    } else if taken(old_p2, p2).count(index) > 0 {
        assert(p2 == Some(table));
    } else {
        assert(taken(old_p1, p1).count(index) > 0);
        assert(p1 == Some(table));
    }
}

/// Mapping a page leaves a page without a mapping without one, unless its
/// way goes through one of the four entries on the way to the mapped page.
pub proof fn lemma_mapping_keeps_unmapped_pages<M: Machine>(
    before: Mapper<M>,
    after: Mapper<M>,
    page: Page,
    frame: Frame,
    flags: u64,
    pool: Multiset<int>,
    rest: Multiset<int>,
    other: Page,
)
    requires
        before.maps(&after, page, frame, flags, pool, rest),
        before.frame_of_page(other) is None,
        forall|table: Frame, slot: int| #[trigger]
            after.on_path(other, table, slot) ==> !after.on_path(page, table, slot),
    ensures
        after.frame_of_page(other) is None,
{
    let number = other.number();
    let top = before.top();
    let old_state = before.state();
    let new_state = after.state();
    super::machine::lemma_slots_of_page(number);
    assert(0u64 & PRESENT == 0) by (bit_vector);
    if after.frame_of_page(other) is Some {
        let p3 = new_state.p3_of(top, number).unwrap();
        let p2 = new_state.p2_of(top, number).unwrap();
        let p1 = new_state.p1_of(top, number).unwrap();
        assert(after.on_path(other, top, p4_slot(number)));
        assert(after.on_path(other, p3, p3_slot(number)));
        assert(after.on_path(other, p2, p2_slot(number)));
        assert(after.on_path(other, p1, p1_slot(number)));
        if new_state.entry(top, p4_slot(number)) != old_state.entry(top, p4_slot(number)) {
            lemma_changed_slot_is_unused(
                before,
                after,
                page,
                frame,
                flags,
                pool,
                rest,
                top,
                p4_slot(number),
            );
        }
        if new_state.entry(p3, p3_slot(number)) != old_state.entry(p3, p3_slot(number)) {
            lemma_changed_slot_is_unused(
                before,
                after,
                page,
                frame,
                flags,
                pool,
                rest,
                p3,
                p3_slot(number),
            );
        }
        if new_state.entry(p2, p2_slot(number)) != old_state.entry(p2, p2_slot(number)) {
            lemma_changed_slot_is_unused(
                before,
                after,
                page,
                frame,
                flags,
                pool,
                rest,
                p2,
                p2_slot(number),
            );
        }
        if new_state.entry(p1, p1_slot(number)) != old_state.entry(p1, p1_slot(number)) {
            lemma_changed_slot_is_unused(
                before,
                after,
                page,
                frame,
                flags,
                pool,
                rest,
                p1,
                p1_slot(number),
            );
        }
        assert(old_state.p3_of(top, number) == Some(p3));
        assert(old_state.p2_of(top, number) == Some(p2));
        assert(old_state.p1_of(top, number) == Some(p1));
        assert(old_state.walk(top, number) == new_state.walk(top, number));
    }
}

/// Unmapping a page leaves every page as it was whose way does not go
/// through the entry of the unmapped page.
pub proof fn lemma_unmapping_keeps_other_pages<M: Machine>(
    before: Mapper<M>,
    after: Mapper<M>,
    page: Page,
    other: Page,
)
    requires
        before.wf(),
        before.unmaps(&after, page),
        after.wf(),
        !before.on_path(
            other,
            before.state().p1_of(before.top(), page.number()).unwrap(),
            p1_slot(page.number()),
        ),
    ensures
        after.frame_of_page(other) == before.frame_of_page(other),
{
}

/// A page that was mapped cannot be mapped again: not until it is unmapped,
/// to whatever frame and with whatever allocator. The entry of the page still
/// names the frame of the first mapping.
pub proof fn lemma_mapped_page_is_not_mapped_again<M: Machine>(
    before: Mapper<M>,
    after: Mapper<M>,
    page: Page,
    frame: Frame,
    flags: u64,
    pool: Multiset<int>,
    rest: Multiset<int>,
    other: Frame,
    other_pool: Multiset<int>,
)
    requires
        before.maps(&after, page, frame, flags, pool, rest),
    ensures
        !after.ready_to_map(page, other, other_pool),
        after.frame_of_page(page) == Some(frame),
{
}

} // verus!
