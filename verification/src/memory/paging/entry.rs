//! Page-table entries: a raw 64-bit value that holds flag bits and the
//! address of a frame.

use crate::memory::Frame;
use vstd::prelude::*;

verus! {

/// The bits of an entry that hold the address of its frame: bits 12 to 51.
pub const ADDRESS_MASK: u64 = 0x000f_ffff_ffff_f000;

/// The bits of an entry that are flags.
pub const FLAG_MASK: u64 = 0x8000_0000_0000_01ff;

/// The number of frames whose address fits in an entry.
pub const ENTRY_FRAME_COUNT: u64 = 0x100_0000_0000;

/// A set of flags of a page-table entry, each flag one of the bits `PRESENT`
/// to `NO_EXECUTE`.
#[derive(Clone, Copy, Debug, PartialEq, Eq, Structural)]
pub struct EntryFlags {
    bits: u64,
}

/// The page is in memory.
pub const PRESENT: u64 = 0x1;

/// The page may be written to.
pub const WRITABLE: u64 = 0x2;

/// The page may be used from user mode.
pub const USER_ACCESSIBLE: u64 = 0x4;

/// Writes go to memory at once.
pub const WRITE_THROUGH: u64 = 0x8;

/// The page is not cached.
pub const NO_CACHE: u64 = 0x10;

/// The processor has used the page.
pub const ACCESSED: u64 = 0x20;

/// The processor has written to the page.
pub const DIRTY: u64 = 0x40;

/// The entry maps a huge page, not a table.
pub const HUGE_PAGE: u64 = 0x80;

/// The page stays in the translation cache when the address space changes.
pub const GLOBAL: u64 = 0x100;

/// No code may run from the page.
pub const NO_EXECUTE: u64 = 0x8000_0000_0000_0000;

impl EntryFlags {
    /// The flags as bits.
    pub closed spec fn value(self) -> u64 {
        self.bits
    }

    #[verifier::type_invariant]
    spec fn only_flags(self) -> bool {
        self.bits & FLAG_MASK == self.bits
    }

    /// The flags as bits.
    pub fn bits(&self) -> (bits: u64)
        ensures
            bits == self.value(),
            bits & FLAG_MASK == bits,
    {
        proof {
            use_type_invariant(self);
        }
        self.bits
    }

    /// No flag.
    pub fn empty() -> (flags: EntryFlags)
        ensures
            flags.value() == 0,
    {
        assert(0u64 & FLAG_MASK == 0u64) by (bit_vector);
        EntryFlags { bits: 0 }
    }

    /// The flags among `bits`; bits that are no flag are dropped.
    pub fn from_bits_truncate(bits: u64) -> (flags: EntryFlags)
        ensures
            flags.value() == bits & FLAG_MASK,
    {
        assert((bits & FLAG_MASK) & FLAG_MASK == bits & FLAG_MASK) by (bit_vector);
        EntryFlags { bits: bits & FLAG_MASK }
    }

    /// Whether every flag of `other` is among these.
    pub open spec fn has(self, other: EntryFlags) -> bool {
        self.value() & other.value() == other.value()
    }

    /// Whether every flag of `other` is among these.
    pub fn contains(&self, other: EntryFlags) -> (r: bool)
        ensures
            r == self.has(other),
    {
        self.bits & other.bits == other.bits
    }

    /// These flags and those of `other`.
    pub fn union(self, other: EntryFlags) -> (flags: EntryFlags)
        ensures
            flags.value() == self.value() | other.value(),
    {
        proof {
            use_type_invariant(self);
            use_type_invariant(other);
        }
        let (a, b) = (self.bits, other.bits);
        assert((a | b) & FLAG_MASK == a | b) by (bit_vector)
            requires
                a & FLAG_MASK == a,
                b & FLAG_MASK == b,
        ;
        EntryFlags { bits: a | b }
    }
}

/// Whether an entry with the value `raw` is present.
pub open spec fn is_present(raw: u64) -> bool {
    raw & PRESENT != 0
}

/// Whether an entry with the value `raw` maps a huge page.
pub open spec fn is_huge(raw: u64) -> bool {
    raw & HUGE_PAGE != 0
}

/// The frame that an entry with the value `raw` names in its address bits.
pub open spec fn frame_of(raw: u64) -> Frame {
    Frame { index: (raw & ADDRESS_MASK) / 4096 }
}

/// The value of an entry that leads to the table in `frame`: the address of
/// the frame, present and writable.
pub open spec fn link_to(frame: Frame) -> u64 {
    (frame.start_address() as u64) | PRESENT | WRITABLE
}

/// An entry that leads to a table is present, maps no huge page and names
/// the frame of the table.
pub proof fn lemma_link(frame: Frame)
    requires
        fits_entry(frame),
    ensures
        is_present(link_to(frame)),
        !is_huge(link_to(frame)),
        frame_of(link_to(frame)) == frame,
{
    let start = frame.start_address() as u64;
    let raw = start | PRESENT | WRITABLE;
    assert(raw & PRESENT != 0 && raw & HUGE_PAGE == 0 && raw & ADDRESS_MASK == start) by
        (bit_vector)
        requires
            raw == start | PRESENT | WRITABLE,
            start & !ADDRESS_MASK == 0,
    ;
}

/// Whether an entry can hold the address of `frame`: the address fits in
/// 64 bits and has no bit outside the address bits of an entry.
pub open spec fn fits_entry(frame: Frame) -> bool {
    &&& frame.addressable()
    &&& (frame.start_address() as u64) & !ADDRESS_MASK == 0
}

/// An entry can hold the address of a frame exactly when the index of the
/// frame is below `ENTRY_FRAME_COUNT`.
pub proof fn lemma_fits_entry(frame: Frame)
    ensures
        fits_entry(frame) <==> frame.index < ENTRY_FRAME_COUNT,
{
    let index = frame.index;
    if frame.addressable() {
        let start = (index * 4096) as u64;
        assert(start & !ADDRESS_MASK == 0 <==> index < ENTRY_FRAME_COUNT) by (bit_vector)
            requires
                index < 0x10_0000_0000_0000u64,
                start == index * 4096,
        ;
    }
}

/// Whether an entry can hold the address of `frame`.
pub fn frame_fits(frame: Frame) -> (fits: bool)
    ensures
        fits == fits_entry(frame),
{
    proof {
        lemma_fits_entry(frame);
    }
    frame.index < ENTRY_FRAME_COUNT
}

/// The frame that an entry names is one whose address an entry can hold.
pub proof fn lemma_named_frame_fits(raw: u64)
    ensures
        fits_entry(frame_of(raw)),
{
    assert((raw & ADDRESS_MASK) / 4096 < ENTRY_FRAME_COUNT) by (bit_vector);
    lemma_fits_entry(frame_of(raw));
}

/// One slot of a page table.
#[derive(Clone, Copy, Debug, PartialEq, Eq, Structural)]
pub struct Entry(u64);

impl Entry {
    /// The raw value of the entry.
    pub closed spec fn value(self) -> u64 {
        self.0
    }

    /// The frame of the entry, if the entry is present.
    pub open spec fn target(self) -> Option<Frame> {
        if is_present(self.value()) {
            Some(frame_of(self.value()))
        } else {
            None
        }
    }

    /// The entry with the raw value `raw`.
    pub fn from_raw(raw: u64) -> (entry: Entry)
        ensures
            entry.value() == raw,
    {
        Entry(raw)
    }

    /// An entry that leads to the table in `frame`, present and writable.
    pub fn to_table(frame: Frame) -> (entry: Entry)
        requires
            fits_entry(frame),
        ensures
            entry.value() == link_to(frame),
    {
        let flags = EntryFlags::from_bits_truncate(PRESENT).union(
            EntryFlags::from_bits_truncate(WRITABLE),
        );
        let mut entry = Entry(0);
        entry.set_flags(frame, flags);
        proof {
            let raw = entry.value();
            let start = frame.start_address() as u64;
            let bits = flags.value();
            assert(raw == start | PRESENT | WRITABLE) by (bit_vector)
                requires
                    raw == start | bits,
                    bits == (PRESENT & FLAG_MASK) | (WRITABLE & FLAG_MASK),
            ;
        }
        entry
    }

    /// The raw value of the entry.
    pub fn raw(&self) -> (raw: u64)
        ensures
            raw == self.value(),
    {
        self.0
    }

    /// Whether the entry is unused: its raw value is zero.
    pub fn is_unused(&self) -> (unused: bool)
        ensures
            unused == (self.value() == 0),
    {
        self.0 == 0
    }

    /// Marks the entry as unused.
    pub fn mark_unused(&mut self)
        ensures
            final(self).value() == 0,
    {
        self.0 = 0;
    }

    /// The flags of the entry.
    pub fn flags(&self) -> (flags: EntryFlags)
        ensures
            flags.value() == self.value() & FLAG_MASK,
    {
        EntryFlags::from_bits_truncate(self.0)
    }

    /// The frame of the entry, if the entry is present.
    pub fn frame(&self) -> (frame: Option<Frame>)
        ensures
            frame == self.target(),
    {
        if self.flags().contains(EntryFlags::from_bits_truncate(PRESENT)) {
            let raw = self.0;
            assert(((raw & FLAG_MASK) & (PRESENT & FLAG_MASK) == PRESENT & FLAG_MASK) ==> raw
                & PRESENT != 0) by (bit_vector);
            Some(Frame::get_frame_for_address(self.0 & ADDRESS_MASK))
        } else {
            let raw = self.0;
            assert(!((raw & FLAG_MASK) & (PRESENT & FLAG_MASK) == PRESENT & FLAG_MASK) ==> raw
                & PRESENT == 0) by (bit_vector);
            None
        }
    }

    /// Makes the entry name `frame` with the flags `flags`.
    pub fn set_flags(&mut self, frame: Frame, flags: EntryFlags)
        requires
            fits_entry(frame),
        ensures
            final(self).value() == (frame.start_address() as u64) | flags.value(),
            final(self).value() & ADDRESS_MASK == frame.start_address(),
            final(self).value() & FLAG_MASK == flags.value(),
            frame_of(final(self).value()) == frame,
    {
        let start = frame.get_start_address();
        let bits = flags.bits();
        assert((start | bits) & ADDRESS_MASK == start && (start | bits) & FLAG_MASK == bits) by
            (bit_vector)
            requires
                start & !ADDRESS_MASK == 0,
                bits & FLAG_MASK == bits,
        ;
        self.0 = start | bits;
    }
}

} // verus!
