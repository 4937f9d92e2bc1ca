//! Page tables, each named by the virtual address at which the recursive
//! mapping shows it.

use super::entry::{
    fits_entry, is_huge, lemma_link, link_to, Entry, EntryFlags, HUGE_PAGE, PRESENT,
};
use super::machine::{
    child_address, lemma_child_slots, lemma_slots_of_page, recursive_slots, Machine,
    MachineState, ENTRY_COUNT,
};
use crate::memory::{Frame, FrameAllocator};
use std::marker::PhantomData;
use vstd::multiset::Multiset;
use vstd::prelude::*;

verus! {

/// The virtual address of the level-4 table.
pub const LEVEL4_TABLE: u64 = 0xffff_ffff_ffff_f000;

/// The level of a page table.
pub trait TableLevel {
    /// The number of the level, from 4 down to 1.
    spec fn number() -> nat;
}

/// The level of the table that the root-table register names.
pub struct Level4;

/// The level below level 4.
pub struct Level3;

/// The level below level 3.
pub struct Level2;

/// The level of the tables whose entries map pages.
pub struct Level1;

impl TableLevel for Level4 {
    open spec fn number() -> nat {
        4
    }
}

impl TableLevel for Level3 {
    open spec fn number() -> nat {
        3
    }
}

impl TableLevel for Level2 {
    open spec fn number() -> nat {
        2
    }
}

impl TableLevel for Level1 {
    open spec fn number() -> nat {
        1
    }
}

/// A level whose tables have tables below them.
pub trait HierarchicalLevel: TableLevel {
    /// The level below.
    type NextLevel: TableLevel;

    /// The level below has the next lower number.
    proof fn lemma_next_level()
        ensures
            Self::number() >= 2,
            Self::NextLevel::number() + 1 == Self::number(),
    ;
}

impl HierarchicalLevel for Level4 {
    type NextLevel = Level3;

    proof fn lemma_next_level() {
    }
}

impl HierarchicalLevel for Level3 {
    type NextLevel = Level2;

    proof fn lemma_next_level() {
    }
}

impl HierarchicalLevel for Level2 {
    type NextLevel = Level1;

    proof fn lemma_next_level() {
    }
}

/// Whether, in `state`, slot `slot` of the table in `table` leads to the
/// table in `child`, writable, and no slot of that table but `through` is in
/// use.
pub open spec fn leads_to_new_table(
    state: MachineState,
    table: Frame,
    slot: int,
    child: Frame,
    through: int,
) -> bool {
    &&& state.entry(table, slot) == link_to(child)
    &&& forall|other: int|
        0 <= other < ENTRY_COUNT && other != through ==> #[trigger] state.entry(child, other) == 0
}

/// The state after slot `slot` of the table in `table` was made to lead to a
/// new, empty table in `child`.
pub open spec fn with_new_table(
    state: MachineState,
    table: Frame,
    slot: int,
    child: Frame,
) -> MachineState {
    state.write(table, slot, link_to(child)).zeroed(child)
}

/// Whether an entry can name each of the frames with the indices
/// `available`.
pub open spec fn fit_entries(available: Multiset<int>) -> bool {
    forall|index: int| #[trigger]
        available.contains(index) ==> 0 <= index < super::entry::ENTRY_FRAME_COUNT
}

/// Whether the frames with the indices `available` can become new page tables
/// under the level-4 table in `top`: each is there once, an entry can name it,
/// and it is neither the root table nor a table under `top`.
pub open spec fn holds_fresh_frames(
    available: Multiset<int>,
    state: MachineState,
    top: Frame,
) -> bool {
    forall|index: int| #[trigger]
        available.contains(index) ==> {
            &&& available.count(index) == 1
            &&& 0 <= index < super::entry::ENTRY_FRAME_COUNT
            &&& Frame { index: index as u64 } != state.root
            &&& !state.is_table(top, Frame { index: index as u64 })
        }
}

/// What a new table changes: the slot leads to it, it is empty, and every
/// other slot is as it was.
pub proof fn lemma_new_table(state: MachineState, table: Frame, slot: int, child: Frame)
    requires
        0 <= slot < ENTRY_COUNT,
        child != table,
        fits_entry(child),
    ensures
        with_new_table(state, table, slot, child).root == state.root,
        with_new_table(state, table, slot, child).flushes == state.flushes,
        with_new_table(state, table, slot, child).next(table, slot) == Some(child),
        forall|other: int|
            0 <= other < ENTRY_COUNT ==> #[trigger] with_new_table(
                state,
                table,
                slot,
                child,
            ).entry(child, other) == 0,
        forall|frame: Frame, other: int|
            frame != child && (frame, other) != (table, slot) ==> #[trigger] with_new_table(
                state,
                table,
                slot,
                child,
            ).entry(frame, other) == state.entry(frame, other),
{
    lemma_link(child);
}

/// Frames that can become new page tables can still do so after one of them
/// has become one.
pub proof fn lemma_fresh_frames_stay_fresh(
    available: Multiset<int>,
    state: MachineState,
    table: Frame,
    slot: int,
    child: Frame,
    top: Frame,
)
    requires
        holds_fresh_frames(available, state, top),
        available.contains(child.index as int),
        state.is_table(top, table),
        0 <= slot < ENTRY_COUNT,
        state.next(table, slot) is None,
    ensures
        holds_fresh_frames(
            available.remove(child.index as int),
            with_new_table(state, table, slot, child),
            top,
        ),
{
    let after = with_new_table(state, table, slot, child);
    let rest = available.remove(child.index as int);
    super::entry::lemma_fits_entry(child);
    assert forall|index: int| #[trigger] rest.contains(index) implies {
        &&& rest.count(index) == 1
        &&& 0 <= index < super::entry::ENTRY_FRAME_COUNT
        &&& Frame { index: index as u64 } != after.root
        &&& !after.is_table(top, Frame { index: index as u64 })
    } by {
        let frame = Frame { index: index as u64 };
        assert(available.contains(index));
        if after.is_table(top, frame) && frame != top {
            if exists|page: u64| #[trigger] after.p3_of(top, page) == Some(frame) {
                let page = choose|page: u64| #[trigger] after.p3_of(top, page) == Some(frame);
                lemma_walk_before_new_table(state, table, slot, child, top, page);
            } else if exists|page: u64| #[trigger] after.p2_of(top, page) == Some(frame) {
                let page = choose|page: u64| #[trigger] after.p2_of(top, page) == Some(frame);
                lemma_walk_before_new_table(state, table, slot, child, top, page);
            } else {
                let page = choose|page: u64| #[trigger] after.p1_of(top, page) == Some(frame);
                lemma_walk_before_new_table(state, table, slot, child, top, page);
            }
        }
    }
}

/// A walk that reaches, after a new table was made, a table other than the
/// new one, reached that table before.
pub proof fn lemma_walk_before_new_table(
    state: MachineState,
    table: Frame,
    slot: int,
    child: Frame,
    top: Frame,
    page: u64,
)
    requires
        0 <= slot < ENTRY_COUNT,
        child != table,
        child != top,
        fits_entry(child),
        state.next(table, slot) is None,
    ensures
        ({
            let after = with_new_table(state, table, slot, child);
            &&& after.p3_of(top, page) is Some && after.p3_of(top, page) != Some(child)
                ==> state.p3_of(top, page) == after.p3_of(top, page)
            &&& after.p2_of(top, page) is Some && after.p2_of(top, page) != Some(child)
                ==> state.p2_of(top, page) == after.p2_of(top, page)
            &&& after.p1_of(top, page) is Some && after.p1_of(top, page) != Some(child)
                ==> state.p1_of(top, page) == after.p1_of(top, page)
        }),
{
    lemma_new_table(state, table, slot, child);
    lemma_slots_of_page(page);
    assert(0u64 & PRESENT == 0) by (bit_vector);
}

/// A page table of level `L`, as the machine shows it at a virtual address.
pub struct Table<L: TableLevel> {
    /// The virtual address of the table.
    addr: u64,
    /// The level of the table.
    level: PhantomData<L>,
}

impl<L: TableLevel> Table<L> {
    /// The virtual address of the table.
    pub closed spec fn address(&self) -> u64 {
        self.addr
    }

    /// Whether the address is that of a table of this level: it starts a
    /// page and, from level 2 up, goes through the recursive slot once for
    /// each level.
    pub open spec fn wf(&self) -> bool {
        &&& self.address() % 4096 == 0
        &&& L::number() >= 2 ==> recursive_slots((self.address() / 4096) as u64) >= L::number()
    }

    /// The frame in which the machine finds the table.
    pub open spec fn frame_in(&self, state: MachineState) -> Option<Frame> {
        state.table_at(self.address())
    }

    /// Whether writing to the table leaves the way to it as it is: the walk
    /// to the table reads no slot of the table itself.
    pub open spec fn detached_in(&self, state: MachineState) -> bool {
        match self.frame_in(state) {
            Some(frame) => !state.reads((self.address() / 4096) as u64, frame),
            None => false,
        }
    }

    /// The table at the virtual address `addr`.
    pub fn at(addr: u64) -> (table: Self)
        ensures
            table.address() == addr,
    {
        Table { addr, level: PhantomData }
    }

    /// The virtual address of the table.
    pub fn addr(&self) -> (addr: u64)
        ensures
            addr == self.address(),
    {
        self.addr
    }

    /// The entry in slot `index`.
    pub fn entry<M: Machine>(&self, machine: &M, index: usize) -> (entry: Entry)
        requires
            self.address() % 4096 == 0,
            index < ENTRY_COUNT,
            self.frame_in(machine.state()) is Some,
        ensures
            entry.value() == machine.state().entry(
                self.frame_in(machine.state()).unwrap(),
                index as int,
            ),
    {
        Entry::from_raw(machine.read_entry(self.addr, index))
    }

    /// Puts `entry` into slot `index`.
    pub fn set_entry<M: Machine>(&self, machine: &mut M, index: usize, entry: Entry)
        requires
            self.address() % 4096 == 0,
            index < ENTRY_COUNT,
            self.frame_in(old(machine).state()) is Some,
        ensures
            final(machine).state() == old(machine).state().write(
                self.frame_in(old(machine).state()).unwrap(),
                index as int,
                entry.value(),
            ),
    {
        machine.write_entry(self.addr, index, entry.raw());
    }

    /// Marks every entry as unused.
    pub fn zero_fill<M: Machine>(&self, machine: &mut M)
        requires
            self.address() % 4096 == 0,
            self.detached_in(old(machine).state()),
        ensures
            final(machine).state() == old(machine).state().zeroed(
                self.frame_in(old(machine).state()).unwrap(),
            ),
    {
        let ghost before = machine.state();
        let ghost frame = self.frame_in(before).unwrap();
        let ghost page = (self.addr / 4096) as u64;
        let mut index: usize = 0;
        while index < ENTRY_COUNT
            invariant
                0 <= index <= ENTRY_COUNT,
                self.address() % 4096 == 0,
                page == self.address() / 4096,
                before.table_at(self.address()) == Some(frame),
                !before.reads(page, frame),
                machine.state().root == before.root,
                machine.state().flushes == before.flushes,
                machine.state().slots.dom() =~= before.slots.dom().union(
                    Set::new(|key: (Frame, int)| key.0 == frame && 0 <= key.1 < index),
                ),
                forall|key: (Frame, int)|
                    key.0 == frame && 0 <= key.1 < index ==> #[trigger] machine.state().slots[key]
                        == 0,
                forall|key: (Frame, int)|
                    !(key.0 == frame && 0 <= key.1 < index) && before.slots.contains_key(key)
                        ==> #[trigger] machine.state().slots[key] == before.slots[key],
            decreases ENTRY_COUNT - index,
        {
            assert(machine.state().table_at(self.addr) == Some(frame));
            let mut entry = self.entry(machine, index);
            entry.mark_unused();
            self.set_entry(machine, index, entry);
            index += 1;
        }
        assert(machine.state().slots =~= before.zeroed(frame).slots);
    }
}

impl<L: HierarchicalLevel> Table<L> {
    /// The virtual address of the table that slot `index` leads to, if the
    /// entry is present and maps no huge page.
    pub fn next_table_addr<M: Machine>(&self, machine: &M, index: usize) -> (addr: Option<u64>)
        requires
            self.address() % 4096 == 0,
            index < ENTRY_COUNT,
            self.frame_in(machine.state()) is Some,
        ensures
            addr == match machine.state().next(
                self.frame_in(machine.state()).unwrap(),
                index as int,
            ) {
                Some(_) => Some(child_address(self.address(), index as u64)),
                None => None,
            },
    {
        let entry = self.entry(machine, index);
        let entry_flags = entry.flags();
        let present = EntryFlags::from_bits_truncate(PRESENT);
        let huge = EntryFlags::from_bits_truncate(HUGE_PAGE);
        proof {
            let raw = entry.value();
            assert(((raw & super::entry::FLAG_MASK) & (PRESENT & super::entry::FLAG_MASK) == PRESENT
                & super::entry::FLAG_MASK) <==> raw & PRESENT != 0) by (bit_vector);
            assert(((raw & super::entry::FLAG_MASK) & (HUGE_PAGE & super::entry::FLAG_MASK)
                == HUGE_PAGE & super::entry::FLAG_MASK) <==> raw & HUGE_PAGE != 0) by (bit_vector);
        }
        if entry_flags.contains(present) && !entry_flags.contains(huge) {
            Some((self.addr << 9) | ((index as u64) << 12))
        } else {
            None
        }
    }

    /// The table that slot `index` leads to, if the entry is present and maps
    /// no huge page.
    pub fn next_table<M: Machine>(&self, machine: &M, index: usize) -> (next: Option<
        Table<L::NextLevel>,
    >)
        requires
            self.address() % 4096 == 0,
            index < ENTRY_COUNT,
            self.frame_in(machine.state()) is Some,
        ensures
            next is Some <==> machine.state().next(
                self.frame_in(machine.state()).unwrap(),
                index as int,
            ) is Some,
            next is Some ==> next.unwrap().address() == child_address(
                self.address(),
                index as u64,
            ),
            next is Some && self.wf() && machine.state().recursive() ==> next.unwrap().wf()
                && next.unwrap().frame_in(machine.state()) == machine.state().next(
                self.frame_in(machine.state()).unwrap(),
                index as int,
            ),
    {
        match self.next_table_addr(machine, index) {
            Some(addr) => {
                proof {
                    if self.wf() && machine.state().recursive() {
                        L::lemma_next_level();
                        lemma_child_table(machine.state(), self.addr, index as u64);
                    }
                }
                Some(Table::at(addr))
            },
            None => None,
        }
    }
}

impl<L: HierarchicalLevel> Table<L> {
    /// The table that slot `index` leads to; where the slot leads to none,
    /// a frame from `allocator` becomes that table, empty.
    pub fn create_next_table<M: Machine, A: FrameAllocator>(
        &self,
        machine: &mut M,
        index: usize,
        allocator: &mut A,
    ) -> (next: Table<L::NextLevel>)
        requires
            self.wf(),
            index < ENTRY_COUNT,
            old(machine).state().recursive(),
            self.frame_in(old(machine).state()) is Some,
            !is_huge(
                old(machine).state().entry(
                    self.frame_in(old(machine).state()).unwrap(),
                    index as int,
                ),
            ),
            old(machine).state().next(self.frame_in(old(machine).state()).unwrap(), index as int)
                is None ==> old(allocator).available().len() > 0 && holds_fresh_frames(
                old(allocator).available(),
                old(machine).state(),
                old(machine).state().top().unwrap(),
            ),
        ensures
            next.wf(),
            next.address() == child_address(self.address(), index as u64),
            final(machine).state().recursive(),
            next.frame_in(final(machine).state()) is Some,
            match old(machine).state().next(
                self.frame_in(old(machine).state()).unwrap(),
                index as int,
            ) {
                Some(child) => {
                    &&& final(machine).state() == old(machine).state()
                    &&& *final(allocator) == *old(allocator)
                    &&& next.frame_in(final(machine).state()) == Some(child)
                },
                None => {
                    let child = next.frame_in(final(machine).state()).unwrap();
                    &&& old(allocator).hands_out(final(allocator), Some(child))
                    &&& old(allocator).available().contains(child.index as int)
                    &&& final(allocator).available() == old(allocator).available().remove(
                        child.index as int,
                    )
                    &&& final(machine).state() == with_new_table(
                        old(machine).state(),
                        self.frame_in(old(machine).state()).unwrap(),
                        index as int,
                        child,
                    )
                },
            },
    {
        let ghost before = machine.state();
        let ghost table = self.frame_in(before).unwrap();
        let ghost top = before.top().unwrap();
        let ghost child_page = (child_address(self.addr, index as u64) / 4096) as u64;
        proof {
            L::lemma_next_level();
            lemma_child_slots(self.addr, index as u64);
        }
        match self.next_table(machine, index) {
            Some(next) => next,
            None => {
                let frame = allocator.alloc_frame().unwrap();
                proof {
                    super::entry::lemma_fits_entry(frame);
                    lemma_link(frame);
                    assert(before.p1_of(top, child_page) == Some(table));
                }
                self.set_entry(machine, index, Entry::to_table(frame));
                let next: Table<L::NextLevel> = self.next_table(machine, index).unwrap();
                next.zero_fill(machine);
                next
            },
        }
    }
}

/// Where the tables are mapped into themselves, the child of a table that
/// is reached through the recursive slot twice lies where the slot of the
/// table leads to.
pub proof fn lemma_child_table(state: MachineState, table: u64, slot: u64)
    requires
        table % 4096 == 0,
        slot < 512,
        recursive_slots((table / 4096) as u64) >= 2,
        state.recursive(),
        state.table_at(table) is Some,
    ensures
        child_address(table, slot) % 4096 == 0,
        recursive_slots((child_address(table, slot) / 4096) as u64) + 1 >= recursive_slots(
            (table / 4096) as u64,
        ),
        state.table_at(child_address(table, slot)) == state.next(
            state.table_at(table).unwrap(),
            slot as int,
        ),
{
    lemma_child_slots(table, slot);
}

} // verus!
