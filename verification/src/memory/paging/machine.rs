//! The machine that the page-table engine runs on: physical memory as far as
//! it holds page tables, the root-table register and the translation cache.
//!
//! The engine reaches a page table only through a virtual address, which the
//! machine resolves by walking the tables from the root. `MachineState` says
//! what that walk yields; `Machine` is what an implementation offers.

use super::entry::{frame_of, is_huge, is_present};
use crate::memory::Frame;
use vstd::prelude::*;

verus! {

/// The number of entries of a page table.
pub const ENTRY_COUNT: usize = 512;

/// A request to drop translations from the translation cache.
#[derive(Clone, Copy, Debug, PartialEq, Eq, Structural)]
pub enum Flush {
    /// Drop the translation of the page that holds this virtual address.
    Page(u64),
    /// Empty the cache, by loading the root-table register anew.
    All,
}

/// The slot of the level-4 table that the page with the number `page` goes
/// through.
pub open spec fn p4_slot(page: u64) -> int {
    ((page >> 27) & 0x1ff) as int
}

/// The slot of the level-3 table that the page with the number `page` goes
/// through.
pub open spec fn p3_slot(page: u64) -> int {
    ((page >> 18) & 0x1ff) as int
}

/// The slot of the level-2 table that the page with the number `page` goes
/// through.
pub open spec fn p2_slot(page: u64) -> int {
    ((page >> 9) & 0x1ff) as int
}

/// The slot of the level-1 table that the page with the number `page` goes
/// through.
pub open spec fn p1_slot(page: u64) -> int {
    (page & 0x1ff) as int
}

/// The four slots of a page are its number in four parts of nine bits: they
/// are slots of a table, and together they make up the low 36 bits of the
/// number, which are bits 12 to 47 of the addresses of the page.
pub proof fn lemma_slots_of_page(page: u64)
    ensures
        0 <= p4_slot(page) < ENTRY_COUNT,
        0 <= p3_slot(page) < ENTRY_COUNT,
        0 <= p2_slot(page) < ENTRY_COUNT,
        0 <= p1_slot(page) < ENTRY_COUNT,
        page % 0x10_0000_0000 == ((p4_slot(page) * 512 + p3_slot(page)) * 512 + p2_slot(page))
            * 512 + p1_slot(page),
{
    let p4 = (page >> 27) & 0x1ff;
    let p3 = (page >> 18) & 0x1ff;
    let p2 = (page >> 9) & 0x1ff;
    let p1 = page & 0x1ff;
    assert(p4 < 512 && p3 < 512 && p2 < 512 && p1 < 512 && page % 0x10_0000_0000 == ((p4 * 512
        + p3) * 512 + p2) * 512 + p1) by (bit_vector)
        requires
            p4 == (page >> 27) & 0x1ff,
            p3 == (page >> 18) & 0x1ff,
            p2 == (page >> 9) & 0x1ff,
            p1 == page & 0x1ff,
    ;
}

/// How many of the slots of the page with the number `page`, from level 4
/// down, are the last slot of their table. A walk goes through that slot
/// into the level-4 table again, so a page with `n` such slots, for `n` from
/// 1 to 4, is a page table of level `n`.
pub open spec fn recursive_slots(page: u64) -> nat {
    if p4_slot(page) != 511 {
        0
    } else if p3_slot(page) != 511 {
        1
    } else if p2_slot(page) != 511 {
        2
    } else if p1_slot(page) != 511 {
        3
    } else {
        4
    }
}

/// The virtual address of the table that slot `slot` of the table at the
/// virtual address `table` leads to, where the tables are mapped into
/// themselves.
pub open spec fn child_address(table: u64, slot: u64) -> u64 {
    (table << 9) | (slot << 12)
}

/// The walk to the child of a table goes through the slots that the walk to
/// the table goes through, all but the first, and then through the slot of
/// the child.
pub proof fn lemma_child_slots(table: u64, slot: u64)
    requires
        table % 4096 == 0,
        slot < 512,
    ensures
        child_address(table, slot) % 4096 == 0,
        p4_slot(child_address(table, slot) / 4096) == p3_slot(table / 4096),
        p3_slot(child_address(table, slot) / 4096) == p2_slot(table / 4096),
        p2_slot(child_address(table, slot) / 4096) == p1_slot(table / 4096),
        p1_slot(child_address(table, slot) / 4096) == slot,
        recursive_slots(child_address(table, slot) / 4096) + 1 >= recursive_slots(table / 4096),
{
    let child = (table << 9) | (slot << 12);
    let page = table / 4096;
    let next = child / 4096;
    assert(child % 4096 == 0 && (next >> 27) & 0x1ff == (page >> 18) & 0x1ff && (next >> 18)
        & 0x1ff == (page >> 9) & 0x1ff && (next >> 9) & 0x1ff == page & 0x1ff && next & 0x1ff
        == slot) by (bit_vector)
        requires
            table % 4096 == 0,
            slot < 512,
            child == (table << 9) | (slot << 12),
            page == table / 4096,
            next == child / 4096,
    ;
}

/// What the engine can observe of the machine.
pub struct MachineState {
    /// The frame of the table that the root-table register names.
    pub root: Frame,
    /// The value of each slot of each frame, read as a page table.
    pub slots: Map<(Frame, int), u64>,
    /// The flushes of the translation cache so far, oldest first.
    pub flushes: Seq<Flush>,
}

impl MachineState {
    /// The value in slot `slot` of the table in `table`; zero where `slots`
    /// holds none.
    pub open spec fn entry(self, table: Frame, slot: int) -> u64 {
        if self.slots.contains_key((table, slot)) {
            self.slots[(table, slot)]
        } else {
            0
        }
    }

    /// The table that slot `slot` of the table in `table` leads to: the
    /// frame of the entry, if the entry is present and maps no huge page.
    pub open spec fn next(self, table: Frame, slot: int) -> Option<Frame> {
        let raw = self.entry(table, slot);
        if is_present(raw) && !is_huge(raw) {
            Some(frame_of(raw))
        } else {
            None
        }
    }

    /// The frame that slot `slot` of the level-1 table in `table` maps: the
    /// frame of the entry, if the entry is present.
    pub open spec fn leaf(self, table: Frame, slot: int) -> Option<Frame> {
        let raw = self.entry(table, slot);
        if is_present(raw) {
            Some(frame_of(raw))
        } else {
            None
        }
    }

    /// The level-3 table of the page with the number `page`, walking from the
    /// level-4 table in `top`.
    pub open spec fn p3_of(self, top: Frame, page: u64) -> Option<Frame> {
        self.next(top, p4_slot(page))
    }

    /// The level-2 table of the page with the number `page`, walking from the
    /// level-4 table in `top`.
    pub open spec fn p2_of(self, top: Frame, page: u64) -> Option<Frame> {
        match self.p3_of(top, page) {
            Some(p3) => self.next(p3, p3_slot(page)),
            None => None,
        }
    }

    /// The level-1 table of the page with the number `page`, walking from the
    /// level-4 table in `top`.
    pub open spec fn p1_of(self, top: Frame, page: u64) -> Option<Frame> {
        match self.p2_of(top, page) {
            Some(p2) => self.next(p2, p2_slot(page)),
            None => None,
        }
    }

    /// The frame that the page with the number `page` is mapped to, walking
    /// from the level-4 table in `top`.
    pub open spec fn walk(self, top: Frame, page: u64) -> Option<Frame> {
        match self.p1_of(top, page) {
            Some(p1) => self.leaf(p1, p1_slot(page)),
            None => None,
        }
    }

    /// The frame that the page with the number `page` is mapped to, walking
    /// from the level-4 table in `top`, if the entry in the level-1 table maps
    /// no huge page either: a page that can itself be read as a page table.
    pub open spec fn walk_table(self, top: Frame, page: u64) -> Option<Frame> {
        match self.p1_of(top, page) {
            Some(p1) => self.next(p1, p1_slot(page)),
            None => None,
        }
    }

    /// The frame of the page table that the machine reaches at the virtual
    /// address `addr`: what the walk from the root yields for the page of
    /// `addr`.
    pub open spec fn table_at(self, addr: u64) -> Option<Frame> {
        self.walk_table(self.root, addr / 4096)
    }

    /// The level-4 table that the recursive address leads to: the table that
    /// the last slot of the root table names.
    pub open spec fn top(self) -> Option<Frame> {
        self.next(self.root, 511)
    }

    /// Whether the tables are mapped into themselves: the last slot of the
    /// root table names a level-4 table whose own last slot names that table
    /// again. Where the address space is in use as it is, that table is the
    /// root table itself.
    pub open spec fn recursive(self) -> bool {
        match self.top() {
            Some(top) => self.next(top, 511) == Some(top),
            None => false,
        }
    }

    /// How many of the three tables below the level-4 table in `top` are
    /// missing on the way to the page with the number `page`.
    pub open spec fn missing_tables(self, top: Frame, page: u64) -> nat {
        if self.p3_of(top, page) is None {
            3
        } else if self.p2_of(top, page) is None {
            2
        } else if self.p1_of(top, page) is None {
            1
        } else {
            0
        }
    }

    /// Whether one of the entries on the way from the level-4 table in `top`
    /// to the level-1 table of the page with the number `page` is marked as a
    /// huge page.
    pub open spec fn huge_on_path(self, top: Frame, page: u64) -> bool {
        ||| is_huge(self.entry(top, p4_slot(page)))
        ||| match self.p3_of(top, page) {
            Some(p3) => is_huge(self.entry(p3, p3_slot(page))),
            None => false,
        }
        ||| match self.p2_of(top, page) {
            Some(p2) => is_huge(self.entry(p2, p2_slot(page))),
            None => false,
        }
    }

    /// Whether the entry of the page with the number `page` is unused, or
    /// its level-1 table is missing.
    pub open spec fn unused(self, top: Frame, page: u64) -> bool {
        match self.p1_of(top, page) {
            Some(p1) => self.entry(p1, p1_slot(page)) == 0,
            None => true,
        }
    }

    /// Whether the walk from the root to the page with the number `page`
    /// reads a slot of the frame `frame`.
    pub open spec fn reads(self, page: u64, frame: Frame) -> bool {
        ||| frame == self.root
        ||| self.p3_of(self.root, page) == Some(frame)
        ||| self.p2_of(self.root, page) == Some(frame)
        ||| self.p1_of(self.root, page) == Some(frame)
    }

    /// Whether slot `slot` of the table in `frame` is one of the four slots
    /// that the walk from the level-4 table in `top` to the page with the
    /// number `page` goes through.
    pub open spec fn on_way(self, top: Frame, page: u64, frame: Frame, slot: int) -> bool {
        ||| frame == top && slot == p4_slot(page)
        ||| self.p3_of(top, page) == Some(frame) && slot == p3_slot(page)
        ||| self.p2_of(top, page) == Some(frame) && slot == p2_slot(page)
        ||| self.p1_of(top, page) == Some(frame) && slot == p1_slot(page)
    }

    /// Whether `frame` holds a page table of the tables under the level-4
    /// table in `top`.
    pub open spec fn is_table(self, top: Frame, frame: Frame) -> bool {
        ||| frame == top
        ||| exists|page: u64| #[trigger] self.p3_of(top, page) == Some(frame)
        ||| exists|page: u64| #[trigger] self.p2_of(top, page) == Some(frame)
        ||| exists|page: u64| #[trigger] self.p1_of(top, page) == Some(frame)
    }

    /// The state after every slot of the table in `table` was set to zero.
    pub open spec fn zeroed(self, table: Frame) -> MachineState {
        MachineState {
            slots: Map::new(
                |key: (Frame, int)|
                    self.slots.contains_key(key) || (key.0 == table && 0 <= key.1 < ENTRY_COUNT),
                |key: (Frame, int)|
                    if key.0 == table && 0 <= key.1 < ENTRY_COUNT {
                        0u64
                    } else {
                        self.slots[key]
                    },
            ),
            ..self
        }
    }

    /// The state after `raw` was written to slot `slot` of the table in
    /// `table`.
    pub open spec fn write(self, table: Frame, slot: int, raw: u64) -> MachineState {
        MachineState { slots: self.slots.insert((table, slot), raw), ..self }
    }

    /// The state after the flush `flush`.
    pub open spec fn flushed(self, flush: Flush) -> MachineState {
        MachineState { flushes: self.flushes.push(flush), ..self }
    }
}

/// What the page-table engine asks of the machine.
///
/// A table is named by the virtual address at which it is mapped. An
/// implementation on hardware reads and writes at that address and leaves the
/// walk to the processor; it meets these contracts as long as the translation
/// cache holds nothing stale, which is what the flushes are for.
pub trait Machine {
    /// What can be observed of the machine.
    spec fn state(&self) -> MachineState;

    /// Reads slot `slot` of the table at the virtual address `table`.
    fn read_entry(&self, table: u64, slot: usize) -> (raw: u64)
        requires
            table % 4096 == 0,
            slot < ENTRY_COUNT,
            self.state().table_at(table) is Some,
        ensures
            raw == self.state().entry(self.state().table_at(table).unwrap(), slot as int),
    ;

    /// Writes `raw` to slot `slot` of the table at the virtual address
    /// `table`.
    fn write_entry(&mut self, table: u64, slot: usize, raw: u64)
        requires
            table % 4096 == 0,
            slot < ENTRY_COUNT,
            old(self).state().table_at(table) is Some,
        ensures
            final(self).state() == old(self).state().write(
                old(self).state().table_at(table).unwrap(),
                slot as int,
                raw,
            ),
    ;

    /// The frame that the root-table register names.
    fn root_frame(&self) -> (frame: Frame)
        ensures
            frame == self.state().root,
    ;

    /// Drops the translation of the page that holds the virtual address
    /// `addr` from the translation cache.
    fn flush_page(&mut self, addr: u64)
        ensures
            final(self).state() == old(self).state().flushed(Flush::Page(addr)),
    ;

    /// Empties the translation cache, by loading the
    /// root-table register with the value that it holds.
    fn flush_all(&mut self)
        ensures
            final(self).state() == old(self).state().flushed(Flush::All),
    ;
}

} // verus!
