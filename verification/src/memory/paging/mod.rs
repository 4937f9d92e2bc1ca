//! The four-level page-table engine.

use self::table::{fit_entries, holds_fresh_frames};
use crate::memory::{
    hands_out_all, Frame, FrameAllocator, PhysicalAddress, FRAME_COUNT, PAGE_SIZE,
};
use vstd::multiset::Multiset;
use vstd::prelude::*;

pub mod entry;
pub mod machine;
pub mod mapper;
pub mod simulated;
pub mod table;
pub mod temp_page;

pub use self::entry::{Entry, EntryFlags};
pub use self::machine::{Flush, Machine, MachineState, ENTRY_COUNT};
pub use self::mapper::Mapper;
pub use self::simulated::SimulatedMachine;
pub use self::table::{HierarchicalLevel, Level1, Level2, Level3, Level4, Table, TableLevel};
pub use self::temp_page::{TemporaryPage, TinyAllocator};

verus! {

/// A virtual address.
pub type VirtualAddress = u64;

/// One page-sized unit of virtual memory, identified by
/// `index = address / PAGE_SIZE`.
#[derive(Clone, Copy, Debug, PartialEq, Eq, Structural)]
pub struct Page {
    /// The index of the page.
    index: u64,
}

impl Page {
    /// The index of the page.
    pub closed spec fn number(self) -> u64 {
        self.index
    }

    /// The page with the index `number`.
    pub closed spec fn with_number(number: u64) -> Page {
        Page { index: number }
    }

    /// The index of the page with the index `number` is `number`.
    pub broadcast proof fn lemma_number(number: u64)
        ensures
            #[trigger] Page::with_number(number).number() == number,
    {
    }

    #[verifier::type_invariant]
    spec fn wf(self) -> bool {
        self.index < FRAME_COUNT
    }

    /// The page that holds the virtual address `addr`.
    pub fn get_page_at_address(addr: VirtualAddress) -> (page: Page)
        ensures
            page.number() == addr / PAGE_SIZE,
            page == Page::with_number(addr / PAGE_SIZE),
    {
        Page { index: addr / PAGE_SIZE }
    }

    /// The virtual address at which the page starts.
    pub fn address(&self) -> (addr: VirtualAddress)
        ensures
            addr == self.number() * PAGE_SIZE,
            addr / PAGE_SIZE == self.number(),
    {
        proof {
            use_type_invariant(self);
        }
        self.index * PAGE_SIZE
    }

    /// The slot of the level-4 table that the page goes through.
    pub fn p4_index(&self) -> (slot: usize)
        ensures
            slot == machine::p4_slot(self.number()),
            slot < ENTRY_COUNT,
    {
        let index = self.index;
        assert((index >> 27) & 0x1ff < 512) by (bit_vector);
        ((self.index >> 27) & 0x1ff) as usize
    }

    /// The slot of the level-3 table that the page goes through.
    pub fn p3_index(&self) -> (slot: usize)
        ensures
            slot == machine::p3_slot(self.number()),
            slot < ENTRY_COUNT,
    {
        let index = self.index;
        assert((index >> 18) & 0x1ff < 512) by (bit_vector);
        ((self.index >> 18) & 0x1ff) as usize
    }

    /// The slot of the level-2 table that the page goes through.
    pub fn p2_index(&self) -> (slot: usize)
        ensures
            slot == machine::p2_slot(self.number()),
            slot < ENTRY_COUNT,
    {
        let index = self.index;
        assert((index >> 9) & 0x1ff < 512) by (bit_vector);
        ((self.index >> 9) & 0x1ff) as usize
    }

    /// The slot of the level-1 table that the page goes through.
    pub fn p1_index(&self) -> (slot: usize)
        ensures
            slot == machine::p1_slot(self.number()),
            slot < ENTRY_COUNT,
    {
        let index = self.index;
        assert(index & 0x1ff < 512) by (bit_vector);
        (self.index & 0x1ff) as usize
    }
}

/// The address space that the root-table register names.
pub struct ActivePageTable<M: Machine> {
    /// The tables of the address space.
    mapper: Mapper<M>,
}

impl<M: Machine> ActivePageTable<M> {
    /// The tables of the address space.
    pub closed spec fn tables(&self) -> Mapper<M> {
        self.mapper
    }

    /// Whether the address space is in use as it is: the root table is
    /// mapped into itself.
    pub open spec fn wf(&self) -> bool {
        &&& self.tables().wf()
        &&& self.tables().top() == self.tables().state().root
    }

    /// The address space of `machine`, whose root table is mapped into
    /// itself.
    pub fn new(machine: M) -> (active: ActivePageTable<M>)
        requires
            machine.state().recursive(),
            machine.state().top() == Some(machine.state().root),
        ensures
            active.wf(),
            active.tables().state() == machine.state(),
    {
        ActivePageTable { mapper: Mapper::new(machine) }
    }

    /// The tables of the address space.
    pub fn mapper(&self) -> (mapper: &Mapper<M>)
        ensures
            *mapper == self.tables(),
    {
        &self.mapper
    }

    /// The tables of the address space, to change them.
    pub fn mapper_mut(&mut self) -> (mapper: &mut Mapper<M>)
        ensures
            *mapper == old(self).tables(),
            final(self).tables() == *final(mapper),
    {
        &mut self.mapper
    }

    /// Gives the machine back.
    pub fn into_machine(self) -> (machine: M)
        ensures
            machine.state() == self.tables().state(),
    {
        self.mapper.into_machine()
    }

    /// The physical address that the virtual address `virtual_addr` stands
    /// for, if its page is mapped.
    pub fn translate(&self, virtual_addr: VirtualAddress) -> (physical: Option<PhysicalAddress>)
        requires
            self.tables().wf(),
        ensures
            physical == self.tables().translation(virtual_addr),
    {
        self.mapper.translate(virtual_addr)
    }

    /// The frame that `page` is mapped to, if it is mapped.
    pub fn translate_page(&self, page: Page) -> (frame: Option<Frame>)
        requires
            self.tables().wf(),
        ensures
            frame == self.tables().frame_of_page(page),
    {
        self.mapper.translate_page(page)
    }

    /// Maps `page` to `frame` with the flags `flags` and `PRESENT`. The page
    /// tables that are missing on the way are made from frames of
    /// `allocator`.
    pub fn map_to<A: FrameAllocator>(
        &mut self,
        page: Page,
        frame: Frame,
        flags: EntryFlags,
        allocator: &mut A,
    )
        requires
            old(self).tables().ready_to_map(page, frame, old(allocator).available()),
        ensures
            old(self).tables().maps(
                &final(self).tables(),
                page,
                frame,
                flags.value(),
                old(allocator).available(),
                final(allocator).available(),
            ),
            hands_out_all(
                old(allocator),
                final(allocator),
                old(self).tables().tables_made(&final(self).tables(), page),
            ),
    {
        self.mapper.map_to(page, frame, flags, allocator)
    }

    /// Maps `page` to a frame of `allocator` with the flags `flags` and
    /// `PRESENT`. The page tables that are missing on the way are made from
    /// further frames of `allocator`.
    pub fn map<A: FrameAllocator>(&mut self, page: Page, flags: EntryFlags, allocator: &mut A)
        requires
            old(self).tables().wf(),
            old(self).tables().can_map(page),
            old(allocator).available().len() >= old(self).tables().missing_tables(page) + 1,
            fit_entries(old(allocator).available()),
            old(self).tables().missing_tables(page) > 0 ==> holds_fresh_frames(
                old(allocator).available(),
                old(self).tables().state(),
                old(self).tables().top(),
            ),
        ensures
            final(self).tables().frame_of_page(page) is Some,
            hands_out_all(
                old(allocator),
                final(allocator),
                seq![final(self).tables().frame_of_page(page).unwrap()]
                    + old(self).tables().tables_made(&final(self).tables(), page),
            ),
            old(allocator).available().contains(
                final(self).tables().frame_of_page(page).unwrap().index as int,
            ),
            old(self).tables().maps(
                &final(self).tables(),
                page,
                final(self).tables().frame_of_page(page).unwrap(),
                flags.value(),
                old(allocator).available().remove(
                    final(self).tables().frame_of_page(page).unwrap().index as int,
                ),
                final(allocator).available(),
            ),
    {
        self.mapper.map(page, flags, allocator)
    }

    /// Maps the page whose address is the address of `frame` to `frame`,
    /// with the flags `flags` and `PRESENT`.
    pub fn identitiy_map<A: FrameAllocator>(
        &mut self,
        frame: Frame,
        flags: EntryFlags,
        allocator: &mut A,
    )
        requires
            old(self).tables().ready_to_map(
                Page::with_number(frame.index),
                frame,
                old(allocator).available(),
            ),
        ensures
            old(self).tables().maps(
                &final(self).tables(),
                Page::with_number(frame.index),
                frame,
                flags.value(),
                old(allocator).available(),
                final(allocator).available(),
            ),
            hands_out_all(
                old(allocator),
                final(allocator),
                old(self).tables().tables_made(
                    &final(self).tables(),
                    Page::with_number(frame.index),
                ),
            ),
            forall|addr: VirtualAddress|
                addr / PAGE_SIZE == frame.index ==> #[trigger] final(self).tables().translation(
                    addr,
                ) == Some(addr),
    {
        self.mapper.identitiy_map(frame, flags, allocator)
    }

    /// Unmaps `page`, flushes it out of the translation cache and
    /// gives its frame to `allocator`.
    pub fn unmap<A: FrameAllocator>(&mut self, page: Page, allocator: &mut A)
        requires
            old(self).tables().wf(),
            old(self).tables().frame_of_page(page) is Some,
            old(allocator).accepts(old(self).tables().frame_of_page(page).unwrap()),
        ensures
            old(self).tables().unmaps(&final(self).tables(), page),
            old(allocator).takes_back(
                final(allocator),
                old(self).tables().frame_of_page(page).unwrap(),
            ),
            final(allocator).available() == old(allocator).available().insert(
                old(self).tables().frame_of_page(page).unwrap().index as int,
            ),
    {
        self.mapper.unmap(page, allocator)
    }
}

impl<M: Machine> ActivePageTable<M> {
    /// Whether `with` can lend the tables of the inactive table in `inactive`,
    /// with the temporary page `page`, whose allocator holds `pool`.
    ///
    /// The address space is in use as it is, and the last slot of `inactive`
    /// leads to `inactive` itself. The root table can be mapped to `page`
    /// with page tables from `pool`, and when it is, `pool` has room for one
    /// frame, so that the page can be unmapped again. `inactive` is none of
    /// the frames of `pool`. The way to `page` does not go through the last
    /// slot of the root table, which `with` changes: it does not start in
    /// that slot, and goes through the root table once only.
    pub open spec fn ready_to_lend(
        &self,
        page: Page,
        inactive: Frame,
        pool: Multiset<int>,
    ) -> bool {
        let tables = self.tables();
        let state = tables.state();
        &&& self.wf()
        &&& state.next(inactive, 511) == Some(inactive)
        &&& tables.ready_to_map(page, state.root, pool)
        &&& pool.len() <= 2 + tables.missing_tables(page)
        &&& !pool.contains(inactive.index as int)
        &&& machine::p4_slot(page.number()) != 511
        &&& state.p3_of(tables.top(), page.number()) != Some(tables.top())
        &&& state.p2_of(tables.top(), page.number()) != Some(tables.top())
        &&& state.p1_of(tables.top(), page.number()) != Some(tables.top())
    }

    /// Whether `during` is what `with` lends to its closure when it is called
    /// on `self` with the temporary page `page`, whose allocator holds `pool`,
    /// and an inactive table in `inactive`: the root table was mapped to
    /// `page`, writable, then the last slot of the root table was made to
    /// lead to `inactive`, and the whole translation cache was flushed.
    ///
    /// So the tables that the recursive mapping shows are those of
    /// `inactive`, while the root-table register still names the root table,
    /// which `page` shows. No slot has changed but the last slot of the root
    /// table, those on the way to `page` and those of the frames of `pool`.
    pub open spec fn lends(
        &self,
        during: &Mapper<M>,
        page: Page,
        inactive: Frame,
        pool: Multiset<int>,
    ) -> bool {
        let before = self.tables().state();
        let now = during.state();
        &&& exists|mapped: Mapper<M>, rest: Multiset<int>|
            {
                &&& #[trigger] self.tables().maps(
                    &mapped,
                    page,
                    before.root,
                    entry::WRITABLE,
                    pool,
                    rest,
                )
                &&& now == mapped.state().write(
                    before.root,
                    511,
                    entry::link_to(inactive),
                ).flushed(Flush::All)
            }
        &&& during.wf()
        &&& during.top() == inactive
        &&& now.root == before.root
        &&& now.flushes == before.flushes.push(Flush::All)
        &&& Self::keeps_root_mapped(now, page)
        &&& forall|other: Frame, slot: int|
            #[trigger] now.entry(other, slot) != before.entry(other, slot) ==> (other
                == before.root && slot == 511) || now.on_way(
                before.root,
                page.number(),
                other,
                slot,
            ) || pool.contains(other.index as int)
    }

    /// Whether, in `state`, the root table is mapped to `page` as a page
    /// table, by a walk that does not go through the last slot of the root
    /// table.
    pub open spec fn keeps_root_mapped(state: MachineState, page: Page) -> bool {
        &&& state.table_at((page.number() * PAGE_SIZE) as u64) == Some(state.root)
        &&& !state.on_way(state.root, page.number(), state.root, 511)
    }

    /// The state in which `with` leaves the machine when its closure has left
    /// it in `after`: the last slot of the root table names the root table
    /// again, the whole translation cache was flushed, and `page` was
    /// unmapped.
    pub open spec fn restored(after: MachineState, page: Page) -> MachineState {
        after.write(after.root, 511, entry::link_to(after.root)).flushed(Flush::All).write(
            after.p1_of(after.root, page.number()).unwrap(),
            machine::p1_slot(page.number()),
            0,
        ).flushed(Flush::Page((page.number() * PAGE_SIZE) as u64))
    }

    /// Runs `f` on the tables of the inactive address space `table`: maps the
    /// root table to `temporary_page`, makes the last slot of the root table
    /// name the level-4 table of `table`, so that the recursive mapping shows
    /// the tables of `table`, and flushes the translation cache; runs `f`;
    /// then makes the last slot name the root table again, through
    /// `temporary_page`, flushes again and unmaps `temporary_page`.
    pub fn with<F: FnOnce(&mut Mapper<M>)>(
        &mut self,
        table: &mut InactivePageTable,
        temporary_page: &mut TemporaryPage,
        f: F,
    )
        requires
            old(self).ready_to_lend(
                old(temporary_page).page(),
                old(table).root(),
                old(temporary_page).pool(),
            ),
            forall|during: &mut Mapper<M>|
                old(self).lends(
                    &*during,
                    old(temporary_page).page(),
                    old(table).root(),
                    old(temporary_page).pool(),
                ) ==> call_requires(f, (during,)),
            forall|during: &mut Mapper<M>|
                old(self).lends(
                    &*during,
                    old(temporary_page).page(),
                    old(table).root(),
                    old(temporary_page).pool(),
                ) && call_ensures(f, (during,), ()) ==> {
                    &&& final(during).state().root == old(self).tables().state().root
                    &&& Self::keeps_root_mapped(final(during).state(), old(temporary_page).page())
                },
        ensures
            final(self).wf(),
            final(self).tables().state().root == old(self).tables().state().root,
            final(self).tables().frame_of_page(old(temporary_page).page()) is None,
            final(table).root() == old(table).root(),
            final(temporary_page).page() == old(temporary_page).page(),
            final(temporary_page).pool().len() + old(self).tables().missing_tables(
                old(temporary_page).page(),
            ) == old(temporary_page).pool().len() + 1,
            exists|mapped: Mapper<M>, lent: TinyAllocator|
                {
                    &&& #[trigger] old(self).tables().maps(
                        &mapped,
                        old(temporary_page).page(),
                        old(self).tables().state().root,
                        entry::WRITABLE,
                        old(temporary_page).pool(),
                        lent.available(),
                    )
                    &&& #[trigger] hands_out_all(
                        &old(temporary_page).allocator(),
                        &lent,
                        old(self).tables().tables_made(&mapped, old(temporary_page).page()),
                    )
                    &&& lent.takes_back(
                        &final(temporary_page).allocator(),
                        old(self).tables().state().root,
                    )
                },
            exists|during: &mut Mapper<M>|
                {
                    &&& old(self).lends(
                        &*during,
                        old(temporary_page).page(),
                        old(table).root(),
                        old(temporary_page).pool(),
                    )
                    &&& #[trigger] call_ensures(f, (during,), ())
                    &&& final(self).tables().state() == Self::restored(
                        final(during).state(),
                        old(temporary_page).page(),
                    )
                },
    {
        let ghost before = self.tables();
        let ghost page = temporary_page.page();
        let ghost number = page.number();
        let ghost pool = temporary_page.pool();
        let ghost inactive = table.root();
        let backup = self.mapper.machine().root_frame();
        let p4_table = temporary_page.map_table_frame(backup, self);
        let ghost mapped = self.tables();
        let ghost lent = temporary_page.allocator();
        proof {
            entry::lemma_named_frame_fits(before.state().entry(inactive, 511));
            entry::lemma_link(inactive);
            assert(0u64 & entry::PRESENT == 0) by (bit_vector);
        }
        let p4 = self.mapper.p4();
        p4.set_entry(self.mapper.machine_mut(), 511, Entry::to_table(table.p4_frame()));
        self.mapper.machine_mut().flush_all();
        proof {
            let now = self.tables().state();
            assert(old(self).lends(&self.mapper, page, inactive, pool)) by {
                assert forall|other: Frame, slot: int| #[trigger]
                    now.entry(other, slot) != before.state().entry(other, slot) implies (other
                    == backup && slot == 511) || now.on_way(backup, number, other, slot)
                    || pool.contains(other.index as int) by {
                    if !(other == backup && slot == 511) {
                        assert(now.entry(other, slot) == mapped.state().entry(other, slot));
                    }
                }
            }
        }
        f(&mut self.mapper);
        proof {
            entry::lemma_link(backup);
        }
        p4_table.set_entry(self.mapper.machine_mut(), 511, Entry::to_table(backup));
        self.mapper.machine_mut().flush_all();
        proof {
            temporary_page.allocator().lemma_room();
        }
        temporary_page.unmap(self);
    }
}

/// An address space that the root-table register does not name.
pub struct InactivePageTable {
    /// The frame of the level-4 table.
    p4_frame: Frame,
}

impl InactivePageTable {
    /// The frame of the level-4 table.
    pub closed spec fn root(&self) -> Frame {
        self.p4_frame
    }

    /// The frame of the level-4 table.
    pub fn p4_frame(&self) -> (frame: Frame)
        ensures
            frame == self.root(),
    {
        self.p4_frame
    }

    /// Whether `frame` holds, in `state`, the level-4 table of a new address
    /// space: its last slot names the frame itself, present and writable, and
    /// its other slots are unused.
    pub open spec fn fresh_in(state: MachineState, frame: Frame) -> bool {
        &&& state.entry(frame, 511) == entry::link_to(frame)
        &&& state.next(frame, 511) == Some(frame)
        &&& forall|slot: int| 0 <= slot < 511 ==> #[trigger] state.entry(frame, slot) == 0
    }

    /// The state in which `new` leaves the machine when it has mapped
    /// `frame` to `page` and the machine is in `mapped`: the frame is
    /// emptied, its last slot is made to lead to the frame itself, and `page`
    /// is unmapped.
    pub open spec fn made_in(mapped: MachineState, frame: Frame, page: Page) -> MachineState {
        mapped.zeroed(frame).write(frame, 511, entry::link_to(frame)).write(
            mapped.p1_of(mapped.root, page.number()).unwrap(),
            machine::p1_slot(page.number()),
            0,
        ).flushed(Flush::Page((page.number() * PAGE_SIZE) as u64))
    }

    /// Makes `frame` the level-4 table of a new address space: maps it to
    /// `temporary_page`, empties it, makes its last slot name the frame itself
    /// and unmaps it again.
    pub fn new<M: Machine>(
        frame: Frame,
        active_table: &mut ActivePageTable<M>,
        temporary_page: &mut TemporaryPage,
    ) -> (table: InactivePageTable)
        requires
            old(active_table).wf(),
            old(active_table).tables().ready_to_map(
                old(temporary_page).page(),
                frame,
                old(temporary_page).pool(),
            ),
            !old(temporary_page).pool().contains(frame.index as int),
            !old(active_table).tables().state().is_table(old(active_table).tables().top(), frame),
            old(temporary_page).pool().len() <= 2 + old(active_table).tables().missing_tables(
                old(temporary_page).page(),
            ),
        ensures
            table.root() == frame,
            final(active_table).wf(),
            final(active_table).tables().state().root == old(active_table).tables().state().root,
            Self::fresh_in(final(active_table).tables().state(), frame),
            final(active_table).tables().frame_of_page(old(temporary_page).page()) is None,
            final(active_table).tables().state().flushes
                == old(active_table).tables().state().flushes.push(
                Flush::Page((old(temporary_page).page().number() * PAGE_SIZE) as u64),
            ),
            exists|mapped: Mapper<M>, lent: TinyAllocator|
                {
                    &&& #[trigger] old(active_table).tables().maps(
                        &mapped,
                        old(temporary_page).page(),
                        frame,
                        entry::WRITABLE,
                        old(temporary_page).pool(),
                        lent.available(),
                    )
                    &&& #[trigger] hands_out_all(
                        &old(temporary_page).allocator(),
                        &lent,
                        old(active_table).tables().tables_made(&mapped, old(temporary_page).page()),
                    )
                    &&& lent.takes_back(&final(temporary_page).allocator(), frame)
                    &&& final(active_table).tables().state() == Self::made_in(
                        mapped.state(),
                        frame,
                        old(temporary_page).page(),
                    )
                },
            final(temporary_page).page() == old(temporary_page).page(),
            final(temporary_page).pool().contains(frame.index as int),
            final(temporary_page).pool().len() + old(active_table).tables().missing_tables(
                old(temporary_page).page(),
            ) == old(temporary_page).pool().len() + 1,
            forall|other: Frame, slot: int|
                #[trigger] final(active_table).tables().state().entry(other, slot)
                    != old(active_table).tables().state().entry(other, slot) ==> {
                    ||| other == frame
                    ||| final(active_table).tables().on_path(
                        old(temporary_page).page(),
                        other,
                        slot,
                    )
                    ||| old(temporary_page).pool().contains(other.index as int)
                },
    {
        let ghost before = active_table.tables();
        let ghost page = temporary_page.page();
        let ghost number = page.number();
        let ghost pool = temporary_page.pool();
        let table = temporary_page.map_table_frame(frame, active_table);
        let ghost mapped = active_table.tables();
        let ghost top = mapped.top();
        proof {
            assert(!mapped.state().reads(number, frame)) by {
                if before.state().p3_of(top, number) is Some {
                    let p3 = mapped.state().p3_of(top, number).unwrap();
                    assert(before.state().is_table(top, p3));
                }
            }
        }
        table.zero_fill(active_table.mapper_mut().machine_mut());
        let ghost emptied = active_table.tables().state();
        proof {
            entry::lemma_link(frame);
            assert(0u64 & entry::PRESENT == 0) by (bit_vector);
        }
        table.set_entry(active_table.mapper_mut().machine_mut(), 511, Entry::to_table(frame));
        let ghost linked = active_table.tables().state();
        proof {
            temporary_page.allocator().lemma_room();
        }
        temporary_page.unmap(active_table);
        proof {
            let last = active_table.tables().state();
            let p1 = linked.p1_of(top, number).unwrap();
            assert forall|other: Frame, slot: int| #[trigger]
                last.entry(other, slot) != before.state().entry(other, slot) implies other == frame
                || active_table.tables().on_path(page, other, slot) || pool.contains(
                other.index as int,
            ) by {
                if other != frame && !(other == p1 && slot == machine::p1_slot(number)) {
                    assert(emptied.entry(other, slot) == mapped.state().entry(other, slot));
                }
            }
        }
        InactivePageTable { p4_frame: frame }
    }
}

} // verus!
