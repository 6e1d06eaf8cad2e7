//! Page tables of 512 entries, and the model of physical memory that holds
//! them.
//!
//! Physical memory is an array of frames. The model records, for each frame,
//! whether it currently holds a page table and what that table's entries
//! are. A frame that holds no table reads as all zeroes, exactly like a
//! table frame that was never linked: `spec_entry` is total, so the table
//! walk needs no global well-formedness assumption about the hierarchy.

use vstd::pervasive::VecAdditionalExecFns;
use vstd::prelude::*;

use crate::memory::Frame;
use crate::paging::entry::ADDRESS_MASK;
use crate::paging::entry::Entry;
use crate::paging::entry::HUGE_PAGE;
use crate::paging::entry::PRESENT;
use crate::paging::entry::spec_frame_of;
use crate::paging::entry::spec_huge;
use crate::paging::entry::spec_present;

verus! {

/// Largest number of physical frames the model addresses.
pub const MAX_PHYS_FRAMES: u64 = 0x8000_0000;

/// The all-zero entry value is neither present nor huge and points at
/// frame zero.
pub proof fn lemma_zero_entry()
    ensures
        !spec_present(0),
        !spec_huge(0),
        spec_frame_of(0) == 0,
{
    assert(0u64 & 0x1u64 == 0 && 0u64 & 0x80u64 == 0 && (0u64 & 0x000f_ffff_ffff_f000u64) >> 12
        == 0) by (bit_vector);
}

/// An array of 512 entries.
pub struct Table {
    pub entries: Vec<Entry>,
}

impl Table {
    pub open spec fn wf(self) -> bool {
        self.entries.len() == 512
    }

    pub open spec fn spec_entry(self, i: int) -> u64 {
        self.entries[i].value
    }

    /// The frame of the child table below the given slot, at the spec
    /// level: present entries that are not huge lead to a next-level
    /// table; every other slot leads nowhere.
    pub open spec fn spec_next_table(self, i: int) -> Option<Frame> {
        if spec_present(self.spec_entry(i)) && !spec_huge(self.spec_entry(i)) {
            Some(Frame { number: spec_frame_of(self.spec_entry(i)) })
        } else {
            None
        }
    }

    /// A fresh, fully zeroed table.
    pub fn new() -> (r: Table)
        ensures
            r.wf(),
            forall|i: int| 0 <= i < 512 ==> r.spec_entry(i) == 0,
    {
        let mut entries: Vec<Entry> = Vec::new();
        let mut k: usize = 0;
        while k < 512
            invariant
                entries.len() == k,
                k <= 512,
                forall|i: int| 0 <= i < k ==> entries[i].value == 0,
            decreases 512 - k,
        {
            entries.push(Entry { value: 0 });
            k = k + 1;
        }
        Table { entries }
    }

    /// Overwrites every entry with the not-present value. Afterwards every
    /// entry reports not-present, and no slot leads to a next table.
    pub fn zero(&mut self)
        requires
            old(self).wf(),
        ensures
            final(self).wf(),
            forall|i: int| 0 <= i < 512 ==> final(self).spec_entry(i) == 0,
            forall|i: int| 0 <= i < 512 ==> !spec_present(final(self).spec_entry(i)),
            forall|i: int| 0 <= i < 512 ==> final(self).spec_next_table(i) is None,
    {
        let mut k: usize = 0;
        while k < 512
            invariant
                self.entries.len() == 512,
                k <= 512,
                forall|i: int| 0 <= i < k ==> self.entries[i].value == 0,
            decreases 512 - k,
        {
            self.entries.set(k, Entry { value: 0 });
            k = k + 1;
        }
        proof {
            lemma_zero_entry();
        }
    }

    /// Reads one entry.
    pub fn entry(&self, index: u64) -> (r: Entry)
        requires
            self.wf(),
            index < 512,
        ensures
            r.value == self.spec_entry(index as int),
    {
        self.entries[index as usize]
    }

    /// Overwrites one entry.
    pub fn set_entry(&mut self, index: u64, e: Entry)
        requires
            old(self).wf(),
            index < 512,
        ensures
            final(self).wf(),
            final(self).spec_entry(index as int) == e.value,
            forall|i: int|
                0 <= i < 512 && i != index ==> final(self).spec_entry(i) == old(self).spec_entry(
                    i,
                ),
    {
        self.entries.set(index as usize, e);
    }

    /// The frame of the child table below the given slot.
    pub fn next_table(&self, index: u64) -> (r: Option<Frame>)
        requires
            self.wf(),
            index < 512,
        ensures
            r == self.spec_next_table(index as int),
    {
        let e = self.entries[index as usize];
        if e.value & PRESENT != 0 && e.value & HUGE_PAGE == 0 {
            Some(Frame { number: (e.value & ADDRESS_MASK) >> 12 })
        } else {
            None
        }
    }
}

/// The model of physical memory: for each frame, the page table it holds,
/// if any.
pub struct PhysicalMemory {
    pub slots: Vec<Option<Table>>,
}

impl PhysicalMemory {
    pub open spec fn wf(self) -> bool {
        &&& self.slots.len() <= MAX_PHYS_FRAMES
        &&& forall|f: int|
            0 <= f < self.slots.len() && self.slots[f] is Some ==> self.slots[f]->0.wf()
    }

    pub open spec fn spec_len(self) -> int {
        self.slots.len() as int
    }

    /// Whether the given frame currently holds a page table.
    pub open spec fn spec_has_table(self, f: int) -> bool {
        0 <= f < self.slots.len() && self.slots[f] is Some
    }

    /// The entry value at slot `i` of the table in frame `f`. A frame
    /// without a table, or out of range, reads as all zeroes.
    pub open spec fn spec_entry(self, f: int, i: int) -> u64 {
        if self.spec_has_table(f) && 0 <= i < 512 {
            self.slots[f]->0.spec_entry(i)
        } else {
            0
        }
    }

    /// A machine with the given number of frames and no tables anywhere.
    pub fn new(num_frames: u64) -> (r: PhysicalMemory)
        requires
            num_frames <= MAX_PHYS_FRAMES,
        ensures
            r.wf(),
            r.spec_len() == num_frames,
            forall|f: int| !r.spec_has_table(f),
            forall|f: int, i: int| r.spec_entry(f, i) == 0,
    {
        let mut slots: Vec<Option<Table>> = Vec::new();
        let mut k: u64 = 0;
        while k < num_frames
            invariant
                num_frames <= MAX_PHYS_FRAMES,
                slots.len() == k,
                k <= num_frames,
                forall|f: int| 0 <= f < k ==> slots[f] is None,
            decreases num_frames - k,
        {
            slots.push(None);
            k = k + 1;
        }
        PhysicalMemory { slots }
    }

    /// Number of frames of the machine.
    pub fn num_frames(&self) -> (r: u64)
        requires
            self.wf(),
        ensures
            r == self.spec_len(),
    {
        self.slots.len() as u64
    }

    /// Whether the given frame currently holds a page table.
    pub fn has_table(&self, f: u64) -> (r: bool)
        requires
            self.wf(),
        ensures
            r == self.spec_has_table(f as int),
    {
        f < self.slots.len() as u64 && self.slots[f as usize].is_some()
    }

    /// Reads the entry at slot `i` of the table in frame `f`; a frame
    /// without a table reads as zero.
    pub fn read_entry(&self, f: u64, i: u64) -> (r: u64)
        requires
            self.wf(),
            i < 512,
        ensures
            r == self.spec_entry(f as int, i as int),
    {
        if f < self.slots.len() as u64 {
            match &self.slots[f as usize] {
                Some(t) => t.entry(i).value,
                None => 0,
            }
        } else {
            0
        }
    }

    /// Writes the entry at slot `i` of the table in frame `f`. Nothing
    /// else changes: no other entry, no frame's table-ness, not the size
    /// of memory.
    pub fn write_entry(&mut self, f: u64, i: u64, value: u64)
        requires
            old(self).wf(),
            old(self).spec_has_table(f as int),
            i < 512,
        ensures
            final(self).wf(),
            final(self).spec_len() == old(self).spec_len(),
            final(self).spec_entry(f as int, i as int) == value,
            forall|g: int, j: int|
                !(g == f && j == i) ==> final(self).spec_entry(g, j) == old(self).spec_entry(g, j),
            forall|g: int| final(self).spec_has_table(g) == old(self).spec_has_table(g),
    {
        match &mut self.slots[f as usize] {
            Some(t) => {
                t.set_entry(i, Entry { value });
            },
            None => {},
        }
    }

    /// Installs the given table in frame `f`, replacing whatever the frame
    /// held. Every other frame is untouched.
    pub fn place_table(&mut self, f: u64, t: Table)
        requires
            old(self).wf(),
            t.wf(),
            f < old(self).spec_len(),
        ensures
            final(self).wf(),
            final(self).spec_len() == old(self).spec_len(),
            final(self).spec_has_table(f as int),
            forall|i: int| 0 <= i < 512 ==> final(self).spec_entry(f as int, i) == t.spec_entry(i),
            forall|g: int, j: int| g != f ==> final(self).spec_entry(g, j) == old(self).spec_entry(g, j),
            forall|g: int| g != f ==> final(self).spec_has_table(g) == old(self).spec_has_table(g),
    {
        self.slots.set(f as usize, Some(t));
    }
}

} // verus!
