use vstd::prelude::*;

use crate::frame::Frame;
use crate::remap::KernelSection;

verus! {

/// Bits of an entry that hold the frame address.
pub const ADDRESS_MASK: u64 = 0x000f_ffff_ffff_f000;

/// Bits of an entry that carry a named flag.
pub const FLAGS_MASK: u64 = 0x8000_0000_0000_01ff;

pub const PRESENT: u64 = 0x1;
pub const WRITABLE: u64 = 0x2;
pub const USER_ACCESSIBLE: u64 = 0x4;
pub const WRITE_THROUGH: u64 = 0x8;
pub const NO_CACHE: u64 = 0x10;
pub const ACCESSED: u64 = 0x20;
pub const DIRTY: u64 = 0x40;
pub const HUGE_PAGE: u64 = 0x80;
pub const GLOBAL: u64 = 0x100;
pub const NO_EXECUTE: u64 = 0x8000_0000_0000_0000;

/// A set of page-table entry flags, held as the bits they occupy in an entry.
#[derive(Clone, Copy, Debug, PartialEq, Eq, Structural)]
pub struct EntryFlags {
    pub bits: u64,
}

/// The flags that a section of the kernel image is mapped with.
pub open spec fn elf_section_flags(s: KernelSection) -> EntryFlags {
    EntryFlags {
        bits: (if s.loaded { PRESENT } else { 0 }) | (if s.writable { WRITABLE } else { 0 }) | (
        if s.executable { 0 } else { NO_EXECUTE }),
    }
}

/// Largest frame number whose start address fits the entry's address bits.
pub open spec fn frame_fits(frame: Frame) -> bool {
    frame.number < 0x100_0000_0000
}

impl EntryFlags {
    pub open spec fn valid(self) -> bool {
        self.bits & FLAGS_MASK == self.bits
    }

    pub open spec fn has(self, flag: u64) -> bool {
        self.bits & flag == flag
    }

    pub fn empty() -> (r: EntryFlags)
        ensures
            r.bits == 0,
    {
        EntryFlags { bits: 0 }
    }

    /// Keeps only the bits that name a flag.
    pub fn from_bits_truncate(bits: u64) -> (r: EntryFlags)
        ensures
            r.bits == bits & FLAGS_MASK,
            r.valid(),
    {
        let rb: u64 = bits & FLAGS_MASK;
        assert(rb & 0x8000_0000_0000_01ffu64 == rb) by (bit_vector)
            requires
                rb == bits & 0x8000_0000_0000_01ffu64,
        ;
        EntryFlags { bits: rb }
    }

    pub fn contains(&self, flag: u64) -> (r: bool)
        ensures
            r == self.has(flag),
    {
        self.bits & flag == flag
    }

    pub fn union(self, other: EntryFlags) -> (r: EntryFlags)
        ensures
            r.bits == self.bits | other.bits,
    {
        EntryFlags { bits: self.bits | other.bits }
    }

    /// Flags for a section of the kernel image: present iff it is loaded,
    /// writable iff it is writable, and never executable unless marked
    /// executable.
    pub fn from_elf_section_flags(section: &KernelSection) -> (r: EntryFlags)
        ensures
            r == elf_section_flags(*section),
            r.bits == (if section.loaded { PRESENT } else { 0 }) | (if section.writable {
                WRITABLE
            } else {
                0
            }) | (if section.executable { 0 } else { NO_EXECUTE }),
            r.valid(),
            r.has(PRESENT) == section.loaded,
            r.has(WRITABLE) == section.writable,
            r.has(NO_EXECUTE) == !section.executable,
            !r.has(HUGE_PAGE),
    {
        let loaded = section.loaded;
        let writable = section.writable;
        let executable = section.executable;
        let p: u64 = if loaded { PRESENT } else { 0 };
        let w: u64 = if writable { WRITABLE } else { 0 };
        let x: u64 = if executable { 0 } else { NO_EXECUTE };
        let bits = p | w | x;
        assert(bits & 0x8000_0000_0000_01ffu64 == bits && (bits & 1 == 1) == (p == 1) && (bits & 2
            == 2) == (w == 2) && (bits & 0x8000_0000_0000_0000u64 == 0x8000_0000_0000_0000u64) == (x
            == 0x8000_0000_0000_0000u64) && bits & 0x80 != 0x80) by (bit_vector)
            requires
                p == 1 || p == 0,
                w == 2 || w == 0,
                x == 0 || x == 0x8000_0000_0000_0000u64,
                bits == p | w | x,
        ;
        EntryFlags { bits }
    }
}

/// One 64-bit slot of a page table.
#[derive(Clone, Copy, Debug, PartialEq, Eq, Structural)]
pub struct Entry(pub u64);

impl Entry {
    pub open spec fn spec_flags(self) -> EntryFlags {
        EntryFlags { bits: self.0 & FLAGS_MASK }
    }

    pub open spec fn spec_frame(self) -> Option<Frame> {
        if self.0 & PRESENT == PRESENT {
            Some(Frame { number: (self.0 & ADDRESS_MASK) / 4096 })
        } else {
            None
        }
    }

    pub fn is_unused(&self) -> (r: bool)
        ensures
            r == (self.0 == 0),
    {
        self.0 == 0
    }

    pub fn set_unused(&mut self)
        ensures
            final(self).0 == 0,
    {
        self.0 = 0;
    }

    pub fn flags(&self) -> (r: EntryFlags)
        ensures
            r == self.spec_flags(),
            r.valid(),
    {
        EntryFlags::from_bits_truncate(self.0)
    }

    /// The frame this entry points at, if it is present.
    pub fn pointed_frame(&self) -> (r: Option<Frame>)
        ensures
            r == self.spec_frame(),
            r matches Some(f) ==> frame_fits(f),
    {
        let v = self.0;
        assert((v & 0x8000_0000_0000_01ffu64) & 1u64 == v & 1u64) by (bit_vector);
        assert(v & 0x000f_ffff_ffff_f000u64 < 0x10_0000_0000_0000u64) by (bit_vector);
        if self.flags().contains(PRESENT) {
            Some(Frame::containing_address(self.0 & ADDRESS_MASK))
        } else {
            None
        }
    }

    pub open spec fn encodes(self, frame: Frame, flags: EntryFlags) -> bool {
        self.0 == (frame.number * 4096) as u64 | flags.bits
    }

    /// Points the entry at `frame` with `flags`.
    pub fn set(&mut self, frame: Frame, flags: EntryFlags)
        requires
            frame_fits(frame),
        ensures
            final(self).encodes(frame, flags),
    {
        self.0 = frame.number * 4096 | flags.bits;
    }
}

/// Decoding an entry that was set from an address-sized frame and a valid flag
/// set gives back that flag set, and the frame itself whenever the flags say
/// present.
pub proof fn lemma_entry_round_trip(e: Entry, frame: Frame, flags: EntryFlags)
    requires
        frame_fits(frame),
        flags.valid(),
        e.encodes(frame, flags),
    ensures
        e.spec_flags() == flags,
        flags.has(PRESENT) ==> e.spec_frame() == Some(frame),
        !flags.has(PRESENT) ==> e.spec_frame() is None,
{
    let n = frame.number;
    let b = flags.bits;
    let v = e.0;
    assert(n * 4096 < 0x10_0000_0000_0000) by (nonlinear_arith)
        requires
            n < 0x100_0000_0000,
    ;
    let a = (n * 4096) as u64;
    assert(a == n * 4096);
    assert(a % 4096 == 0) by (nonlinear_arith)
        requires
            a == n * 4096,
    ;
    assert(a & 0xfffu64 == 0) by (bit_vector)
        requires
            a % 4096 == 0,
    ;
    assert(v & 0x8000_0000_0000_01ffu64 == b && (v & 1u64 == 1u64) == (b & 1u64 == 1u64) && v
        & 0x000f_ffff_ffff_f000u64 == a) by (bit_vector)
        requires
            a & 0xfffu64 == 0,
            a < 0x10_0000_0000_0000u64,
            b & 0x8000_0000_0000_01ffu64 == b,
            v == a | b,
    ;
    assert(a / 4096 == n);
}

} // verus!
