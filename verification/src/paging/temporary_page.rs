//! A single reserved virtual page used to transiently map an arbitrary
//! physical frame, so that a table frame outside the live hierarchy can be
//! initialized or edited; and the tiny allocator that carries just enough
//! scratch frames to build that one mapping path.

use vstd::prelude::*;

use crate::memory::Frame;
use crate::memory::FrameAllocator;
use crate::paging::ActivePageTable;
use crate::paging::Page;
use crate::paging::entry::EntryFlags;
use crate::paging::entry::MAX_ENTRY_FRAME;
use crate::paging::entry::PRESENT;
use crate::paging::entry::WRITABLE;
use crate::paging::entry::spec_encode;

verus! {

/// A pocket allocator holding the few scratch frames the temporary
/// mapping path can need. Handing a frame back just returns it to the
/// pocket.
pub struct TinyAllocator {
    pub frames: Vec<Frame>,
}

impl TinyAllocator {
    /// Draws three frames from the given allocator — enough for a P3, a
    /// P2 and a P1 table. When the allocator runs dry the frames already
    /// drawn are handed back and nothing is built.
    pub fn new<A: FrameAllocator>(allocator: &mut A) -> (r: Option<TinyAllocator>)
        ensures
            r matches Some(t) ==> t.frames.len() == 3,
    {
        let mut frames: Vec<Frame> = Vec::new();
        let mut k: usize = 0;
        while k < 3
            invariant
                frames.len() == k,
                k <= 3,
            decreases 3 - k,
        {
            match allocator.allocate_frame() {
                Some(f) => {
                    frames.push(f);
                },
                None => {
                    while frames.len() > 0
                        decreases frames.len(),
                    {
                        match frames.pop() {
                            Some(f) => allocator.deallocate_frame(f),
                            None => {},
                        }
                    }
                    return None;
                },
            }
            k = k + 1;
        }
        Some(TinyAllocator { frames })
    }
}

impl FrameAllocator for TinyAllocator {
    fn allocate_frame(&mut self) -> Option<Frame> {
        self.frames.pop()
    }

    fn deallocate_frame(&mut self, frame: Frame) {
        self.frames.push(frame);
    }
}

/// One reserved virtual page, plus the scratch frames needed to map it.
pub struct TemporaryPage {
    pub page: Page,
    pub allocator: TinyAllocator,
}

impl TemporaryPage {
    /// The reserved page must stay clear of the recursive-mapping region.
    pub open spec fn wf(self) -> bool {
        self.page.p4_index_spec() != 511
    }

    /// Reserves the given page, drawing the scratch frames from the
    /// allocator.
    pub fn new<A: FrameAllocator>(page: Page, allocator: &mut A) -> (r: Option<TemporaryPage>)
        requires
            page.p4_index_spec() != 511,
        ensures
            r matches Some(t) ==> t.wf() && t.page == page,
    {
        match TinyAllocator::new(allocator) {
            Some(tiny) => Some(TemporaryPage { page, allocator: tiny }),
            None => None,
        }
    }

    /// Maps the reserved page to the given frame, writable, through the
    /// currently active table, so the frame's contents can be reached as
    /// a table. In the model the mapping itself is what matters; the
    /// reinterpretation of the virtual page as a `Table` is the raw
    /// memory access the mapper's crate-internal operations stand for.
    pub fn map_table_frame(&mut self, frame: Frame, active_table: &mut ActivePageTable) -> (ok:
        bool)
        requires
            old(self).wf(),
            old(active_table).wf(),
            frame.number <= MAX_ENTRY_FRAME,
        ensures
            final(self).wf(),
            final(self).page == old(self).page,
            final(active_table).wf(),
            final(active_table).mapper.root == old(active_table).mapper.root,
            final(active_table).mapper.mem.spec_len() == old(active_table).mapper.mem.spec_len(),
            forall|g: int, j: int|
                old(active_table).mapper.mem.spec_entry(g, j) != 0 ==> final(active_table).mapper.mem.spec_entry(g, j) == old(active_table).mapper.mem.spec_entry(g, j),
            forall|g: int|
                old(active_table).mapper.mem.spec_has_table(g) ==> final(active_table).mapper.mem.spec_has_table(g),
            ok ==> final(active_table).mapper.spec_leaf_entry(old(self).page) == Some(
                spec_encode(frame.number, WRITABLE | PRESENT),
            ),
            ok ==> final(active_table).mapper.spec_translate_page(old(self).page) == Some(
                frame.number as int,
            ),
            old(active_table).mapper.spec_path_present(old(self).page) && old(
                active_table,
            ).mapper.spec_leaf_entry(old(self).page) == Some(0u64) ==> ok,
    {
        proof {
            assert(0x2u64 & 0x000f_ffff_ffff_f000u64 == 0 && (0x2u64 | 0x1u64) == (0x2u64
                | 0x1u64)) by (bit_vector);
        }
        active_table.mapper.map_to(
            self.page,
            frame,
            EntryFlags::new(WRITABLE),
            &mut self.allocator,
        )
    }

    /// Removes the temporary mapping again. The frame that was reachable
    /// through it is not handed back to any allocator: it lives on as a
    /// page table.
    pub fn unmap(&mut self, active_table: &mut ActivePageTable) -> (ok: bool)
        requires
            old(active_table).wf(),
            old(self).wf(),
        ensures
            final(self).wf(),
            final(self).page == old(self).page,
            final(active_table).wf(),
            final(active_table).mapper.root == old(active_table).mapper.root,
            final(active_table).mapper.mem.spec_len() == old(active_table).mapper.mem.spec_len(),
            forall|g: int|
                final(active_table).mapper.mem.spec_has_table(g) == old(active_table).mapper.mem.spec_has_table(g),
            ok <==> (old(active_table).mapper.spec_leaf_entry(old(self).page) matches Some(e)
                && crate::paging::entry::spec_present(e)),
            ok ==> final(active_table).mapper.spec_translate_page(old(self).page) is None,
            ok ==> (old(active_table).mapper.spec_leaf_slot(old(self).page) matches Some((t, i))
                && final(active_table).mapper.mem.spec_entry(t, i) == 0
                && forall|g: int, j: int|
                    !(g == t && j == i) ==> final(active_table).mapper.mem.spec_entry(g, j)
                        == old(active_table).mapper.mem.spec_entry(g, j)),
            !ok ==> *final(active_table) == *old(active_table),
    {
        match active_table.mapper.clear_leaf(self.page) {
            Some(_freed) => true,
            None => false,
        }
    }
}

} // verus!
