//! One slot of a page table: a 64-bit word encoding a frame address and a
//! set of permission / attribute flags.

use vstd::prelude::*;

use crate::memory::Frame;

verus! {

/// The entry maps a page that is actually in use.
pub const PRESENT: u64 = 0x1;

/// The mapped page may be written.
pub const WRITABLE: u64 = 0x2;

/// The entry maps a huge page directly instead of pointing at a
/// next-level table.
pub const HUGE_PAGE: u64 = 0x80;

/// Instructions must not be fetched from the mapped page.
pub const NO_EXECUTE: u64 = 0x8000_0000_0000_0000;

/// All flag bits this subsystem interprets.
pub const KNOWN_FLAGS: u64 = 0x8000_0000_0000_0083;

/// Bits of an entry that hold the frame address.
pub const ADDRESS_MASK: u64 = 0x000f_ffff_ffff_f000;

/// Largest frame number an entry can point at (the address field is 40
/// bits wide).
pub const MAX_ENTRY_FRAME: u64 = 0xff_ffff_ffff;

/// A set of entry flag bits.
#[derive(Debug, Clone, Copy, PartialEq, Eq, Structural)]
pub struct EntryFlags {
    pub bits: u64,
}

/// Flag bits of an ELF section header: the section is writable.
pub const ELF_SECTION_WRITABLE: u64 = 0x1;

/// Flag bits of an ELF section header: the section occupies memory.
pub const ELF_SECTION_ALLOCATED: u64 = 0x2;

/// Flag bits of an ELF section header: the section holds code.
pub const ELF_SECTION_EXECUTABLE: u64 = 0x4;

impl EntryFlags {
    /// The empty flag set.
    pub fn empty() -> (r: EntryFlags)
        ensures
            r.bits == 0,
    {
        EntryFlags { bits: 0 }
    }

    /// The flag set holding exactly the given bits.
    pub fn new(bits: u64) -> (r: EntryFlags)
        ensures
            r.bits == bits,
    {
        EntryFlags { bits }
    }

    /// Whether every one of the given flag bits is set.
    pub fn contains(&self, flag_bits: u64) -> (r: bool)
        ensures
            r == (self.bits & flag_bits == flag_bits),
    {
        self.bits & flag_bits == flag_bits
    }

    /// Flag bits that may stand in an entry: they must not collide with
    /// the address field.
    pub open spec fn is_valid(self) -> bool {
        self.bits & ADDRESS_MASK == 0
    }

    /// The exact flag word `from_elf_section_flags` derives.
    pub open spec fn spec_elf_entry_flags(section_flags: u64) -> u64 {
        (if section_flags & ELF_SECTION_ALLOCATED != 0 {
            PRESENT
        } else {
            0
        }) | (if section_flags & ELF_SECTION_WRITABLE != 0 {
            WRITABLE
        } else {
            0
        }) | (if section_flags & ELF_SECTION_EXECUTABLE == 0 {
            NO_EXECUTE
        } else {
            0
        })
    }

    /// Translates the flags of an ELF section into entry flags: an
    /// allocated section is present, a writable one writable, and one
    /// without code is marked no-execute.
    pub fn from_elf_section_flags(section_flags: u64) -> (r: EntryFlags)
        ensures
            r.bits == EntryFlags::spec_elf_entry_flags(section_flags),
            r.bits & PRESENT != 0 <==> section_flags & ELF_SECTION_ALLOCATED != 0,
            r.bits & WRITABLE != 0 <==> section_flags & ELF_SECTION_WRITABLE != 0,
            r.bits & NO_EXECUTE != 0 <==> section_flags & ELF_SECTION_EXECUTABLE == 0,
            r.bits & KNOWN_FLAGS == r.bits,
            r.bits & HUGE_PAGE == 0,
            r.is_valid(),
    {
        let p: u64 = if section_flags & ELF_SECTION_ALLOCATED != 0 {
            PRESENT
        } else {
            0
        };
        let w: u64 = if section_flags & ELF_SECTION_WRITABLE != 0 {
            WRITABLE
        } else {
            0
        };
        let nx: u64 = if section_flags & ELF_SECTION_EXECUTABLE == 0 {
            NO_EXECUTE
        } else {
            0
        };
        let bits: u64 = p | w | nx;
        proof {
            assert({
                &&& ((p | w | nx) & 0x1u64 != 0 <==> p == 0x1u64)
                &&& ((p | w | nx) & 0x2u64 != 0 <==> w == 0x2u64)
                &&& ((p | w | nx) & 0x8000_0000_0000_0000u64 != 0 <==> nx
                    == 0x8000_0000_0000_0000u64)
                &&& (p | w | nx) & 0x8000_0000_0000_0083u64 == (p | w | nx)
                &&& (p | w | nx) & 0x80u64 == 0
                &&& (p | w | nx) & 0x000f_ffff_ffff_f000u64 == 0
            }) by (bit_vector)
                requires
                    p == 0x1u64 || p == 0u64,
                    w == 0x2u64 || w == 0u64,
                    nx == 0x8000_0000_0000_0000u64 || nx == 0u64,
            ;
        }
        EntryFlags { bits }
    }
}

/// Whether an entry value has the present bit set.
pub open spec fn spec_present(value: u64) -> bool {
    value & PRESENT != 0
}

/// Whether an entry value has the huge-page bit set.
pub open spec fn spec_huge(value: u64) -> bool {
    value & HUGE_PAGE != 0
}

/// The frame number held in an entry value's address field.
pub open spec fn spec_frame_of(value: u64) -> u64 {
    (value & ADDRESS_MASK) >> 12
}

/// The entry value that points at the given frame with the given flags.
pub open spec fn spec_encode(number: u64, bits: u64) -> u64 {
    (number << 12) | bits
}

/// Encoding a frame number and valid flag bits into an entry value and
/// reading the entry back recovers both exactly.
pub proof fn lemma_encode(number: u64, bits: u64)
    requires
        number <= MAX_ENTRY_FRAME,
        bits & ADDRESS_MASK == 0,
    ensures
        spec_frame_of(spec_encode(number, bits)) == number,
        spec_present(spec_encode(number, bits)) == (bits & PRESENT != 0),
        spec_huge(spec_encode(number, bits)) == (bits & HUGE_PAGE != 0),
        spec_encode(number, bits) & KNOWN_FLAGS == bits & KNOWN_FLAGS,
        bits & PRESENT != 0 ==> spec_encode(number, bits) != 0,
        spec_frame_of(spec_encode(number, bits)) <= MAX_ENTRY_FRAME,
{
    let n = number;
    let b = bits;
    assert(n <= 0xff_ffff_ffffu64 && b & 0x000f_ffff_ffff_f000u64 == 0 ==> {
        &&& (((n << 12) | b) & 0x000f_ffff_ffff_f000u64) >> 12 == n
        &&& ((((n << 12) | b) & 0x1u64 != 0) <==> (b & 0x1u64 != 0))
        &&& ((((n << 12) | b) & 0x80u64 != 0) <==> (b & 0x80u64 != 0))
        &&& ((n << 12) | b) & 0x8000_0000_0000_0083u64 == b & 0x8000_0000_0000_0083u64
        &&& (b & 0x1u64 != 0 ==> ((n << 12) | b) != 0)
    }) by (bit_vector);
    assert(forall|v: u64| #[trigger] ((v & 0x000f_ffff_ffff_f000u64) >> 12) <= 0xff_ffff_ffffu64)
        by (bit_vector);
}

/// The frame number read out of any entry value fits the address field.
pub proof fn lemma_frame_of_bound(value: u64)
    ensures
        spec_frame_of(value) <= MAX_ENTRY_FRAME,
{
    assert((value & 0x000f_ffff_ffff_f000u64) >> 12 <= 0xff_ffff_ffffu64) by (bit_vector);
}

/// One slot in a page table.
#[derive(Debug, Clone, Copy, PartialEq, Eq, Structural)]
pub struct Entry {
    pub value: u64,
}

impl Entry {
    /// Whether the slot holds nothing at all.
    pub fn is_unused(&self) -> (r: bool)
        ensures
            r == (self.value == 0),
    {
        self.value == 0
    }

    /// Clears the slot completely.
    pub fn set_unused(&mut self)
        ensures
            final(self).value == 0,
    {
        self.value = 0;
    }

    /// The flag bits of the slot that this subsystem interprets.
    pub fn flags(&self) -> (r: EntryFlags)
        ensures
            r.bits == self.value & KNOWN_FLAGS,
    {
        EntryFlags { bits: self.value & KNOWN_FLAGS }
    }

    /// The frame the slot points at, if it is present.
    pub fn pointed_frame(&self) -> (r: Option<Frame>)
        ensures
            spec_present(self.value) ==> r == Some(Frame { number: spec_frame_of(self.value) }),
            !spec_present(self.value) ==> r is None,
    {
        if self.value & PRESENT != 0 {
            Some(Frame { number: (self.value & ADDRESS_MASK) >> 12 })
        } else {
            None
        }
    }

    /// Overwrites the slot so that it points at the given frame with the
    /// given flags. A slot that is already present must be unmapped first;
    /// that discipline is enforced by the mapper, not here.
    pub fn set(&mut self, frame: Frame, flags: EntryFlags)
        requires
            frame.number <= MAX_ENTRY_FRAME,
            flags.is_valid(),
        ensures
            final(self).value == spec_encode(frame.number, flags.bits),
    {
        self.value = (frame.number << 12) | flags.bits;
    }
}

} // verus!
