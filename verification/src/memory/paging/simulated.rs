//! A machine in software: physical memory as a sparse map of 64-bit slots,
//! with the table walk that a processor does in hardware.

use super::entry::{ADDRESS_MASK, HUGE_PAGE, PRESENT};
use super::machine::{Flush, Machine, MachineState, ENTRY_COUNT};
use crate::memory::{Frame, FRAME_COUNT};
use std::collections::HashMap;
use vstd::prelude::*;

verus! {

broadcast use vstd::std_specs::hash::group_hash_axioms;

/// A machine whose memory is zero wherever nothing was written.
pub struct SimulatedMachine {
    /// The frame that the root-table register names.
    root: Frame,
    /// The slots that were written, by physical address.
    memory: HashMap<u64, u64>,
    /// The flushes of the translation cache so far.
    flushes: Vec<Flush>,
}

/// The physical address of slot `slot` of the frame `frame`.
pub open spec fn slot_address(frame: Frame, slot: int) -> int {
    frame.index * 4096 + 8 * slot
}

impl SimulatedMachine {
    /// The value in slot `slot` of the frame `frame`: what was written last,
    /// and zero where nothing was.
    pub closed spec fn slot(&self, frame: Frame, slot: int) -> u64 {
        let addr = slot_address(frame, slot) as u64;
        if frame.addressable() && 0 <= slot < ENTRY_COUNT && self.memory@.contains_key(addr) {
            self.memory@[addr]
        } else {
            0
        }
    }

    /// A machine with empty memory whose root-table register names `root`.
    pub fn new(root: Frame) -> (machine: SimulatedMachine)
        ensures
            machine.state().root == root,
            machine.state().flushes.len() == 0,
            forall|frame: Frame, slot: int| machine.state().entry(frame, slot) == 0,
    {
        SimulatedMachine { root, memory: HashMap::new(), flushes: Vec::new() }
    }

    /// Reads slot `slot` of the frame `frame`. A frame beyond the physical
    /// address space reads as zero.
    pub fn read_physical(&self, frame: Frame, slot: usize) -> (raw: u64)
        requires
            slot < ENTRY_COUNT,
        ensures
            raw == self.state().entry(frame, slot as int),
    {
        if frame.index >= FRAME_COUNT {
            return 0;
        }
        let addr: u64 = frame.index * 4096 + 8 * (slot as u64);
        match self.memory.get(&addr) {
            Some(raw) => *raw,
            None => 0,
        }
    }

    /// Writes `raw` to slot `slot` of the frame `frame`.
    pub fn write_physical(&mut self, frame: Frame, slot: usize, raw: u64)
        requires
            frame.addressable(),
            slot < ENTRY_COUNT,
        ensures
            final(self).state() == old(self).state().write(frame, slot as int, raw),
    {
        let addr: u64 = frame.index * 4096 + 8 * (slot as u64);
        self.memory.insert(addr, raw);
        proof {
            assert forall|key: (Frame, int)|
                self.state().slots[key] == old(self).state().write(
                    frame,
                    slot as int,
                    raw,
                ).slots[key] by {
                if key.0.addressable() && 0 <= key.1 < ENTRY_COUNT {
                    let other = slot_address(key.0, key.1) as u64;
                    assert(other == addr <==> key == (frame, slot as int));
                }
            }
            assert(self.state().slots =~= old(self).state().write(frame, slot as int, raw).slots);
        }
    }

    /// The table that slot `slot` of the table in `table` leads to.
    fn step(&self, table: Frame, slot: usize) -> (next: Option<Frame>)
        requires
            slot < ENTRY_COUNT,
        ensures
            next == self.state().next(table, slot as int),
            next is Some ==> next.unwrap().addressable(),
    {
        let raw = self.read_physical(table, slot);
        if raw & PRESENT != 0 && raw & HUGE_PAGE == 0 {
            Some(Frame::get_frame_for_address(raw & ADDRESS_MASK))
        } else {
            None
        }
    }

    /// The frame of the page table that lies at the virtual address `addr`,
    /// found by walking the tables from the root.
    pub fn resolve(&self, addr: u64) -> (frame: Option<Frame>)
        ensures
            frame == self.state().table_at(addr),
            frame is Some ==> frame.unwrap().addressable(),
    {
        let page = addr / 4096;
        let p4_slot = ((page >> 27) & 0x1ff) as usize;
        let p3_slot = ((page >> 18) & 0x1ff) as usize;
        let p2_slot = ((page >> 9) & 0x1ff) as usize;
        let p1_slot = (page & 0x1ff) as usize;
        assert((page >> 27) & 0x1ff < 512 && (page >> 18) & 0x1ff < 512 && (page >> 9) & 0x1ff
            < 512 && page & 0x1ff < 512) by (bit_vector);
        let p3 = match self.step(self.root, p4_slot) {
            Some(table) => table,
            None => {
                return None;
            },
        };
        let p2 = match self.step(p3, p3_slot) {
            Some(table) => table,
            None => {
                return None;
            },
        };
        let p1 = match self.step(p2, p2_slot) {
            Some(table) => table,
            None => {
                return None;
            },
        };
        self.step(p1, p1_slot)
    }

    /// The flushes of the translation cache so far, oldest first.
    pub fn flushes(&self) -> (flushes: &Vec<Flush>)
        ensures
            flushes@ == self.state().flushes,
    {
        &self.flushes
    }
}

impl Machine for SimulatedMachine {
    closed spec fn state(&self) -> MachineState {
        MachineState {
            root: self.root,
            slots: Map::new(|key: (Frame, int)| true, |key: (Frame, int)| self.slot(key.0, key.1)),
            flushes: self.flushes@,
        }
    }

    fn read_entry(&self, table: u64, slot: usize) -> (raw: u64) {
        let frame = self.resolve(table).unwrap();
        self.read_physical(frame, slot)
    }

    fn write_entry(&mut self, table: u64, slot: usize, raw: u64) {
        let frame = self.resolve(table).unwrap();
        self.write_physical(frame, slot, raw);
    }

    fn root_frame(&self) -> (frame: Frame) {
        self.root
    }

    fn flush_page(&mut self, addr: u64) {
        self.flushes.push(Flush::Page(addr));
        assert(self.state().slots =~= old(self).state().slots);
    }

    fn flush_all(&mut self) {
        self.flushes.push(Flush::All);
        assert(self.state().slots =~= old(self).state().slots);
    }
}

} // verus!
