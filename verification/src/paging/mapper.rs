//! The mapper: translate / map / unmap over the four-level hierarchy.
//!
//! The mapper never holds a physical base address of the active P4 table.
//! It reaches the hierarchy exactly as the hardware does under the
//! recursive mapping: the table being edited is whatever frame the
//! recursive slot (entry 511 of the table the root register points at)
//! currently designates. Repointing that one slot therefore redirects
//! every operation to another hierarchy, which is what `with` exploits.

use vstd::prelude::*;

use crate::memory::Frame;
use crate::memory::FrameAllocator;
use crate::memory::PAGE_SIZE;
use crate::paging::Page;
use crate::paging::entry::ADDRESS_MASK;
use crate::paging::entry::EntryFlags;
use crate::paging::entry::HUGE_PAGE;
use crate::paging::entry::MAX_ENTRY_FRAME;
use crate::paging::entry::PRESENT;
use crate::paging::entry::WRITABLE;
use crate::paging::entry::lemma_encode;
use crate::paging::entry::spec_encode;
use crate::paging::entry::spec_frame_of;
use crate::paging::entry::spec_huge;
use crate::paging::entry::spec_present;
use crate::paging::spec_valid_address;
use crate::paging::table::PhysicalMemory;
use crate::paging::table::Table;

verus! {

/// A present entry value is never the all-zero word.
pub proof fn lemma_present_nonzero(v: u64)
    requires
        spec_present(v),
    ensures
        v != 0,
{
    assert(0u64 & 0x1u64 == 0) by (bit_vector);
}

/// Owns the model of physical memory together with the root-table
/// register, and edits whichever hierarchy the recursive slot designates.
pub struct Mapper {
    pub mem: PhysicalMemory,
    pub root: u64,
}

impl Mapper {
    pub open spec fn wf(self) -> bool {
        &&& self.mem.wf()
        &&& self.root < self.mem.spec_len()
    }

    /// The recursive slot: entry 511 of the table the root register
    /// points at.
    pub open spec fn spec_selfref(self) -> u64 {
        self.mem.spec_entry(self.root as int, 511)
    }

    /// The frame the mapper's operations currently edit: whatever the
    /// recursive slot designates. Under the recursive-mapping invariant
    /// this is the active P4 table itself; inside `with` it is the
    /// inactive table being built.
    pub open spec fn spec_p4_frame(self) -> int {
        spec_frame_of(self.spec_selfref()) as int
    }

    /// Whether the recursive slot currently leads to a table at all.
    pub open spec fn spec_selfref_usable(self) -> bool {
        spec_present(self.spec_selfref()) && !spec_huge(self.spec_selfref())
    }

    /// The four-level walk for `page`, starting from the P4 table in
    /// frame `p4`: the frame number the page maps to, with huge entries
    /// at P3 or P2 short-circuiting the descent.
    pub open spec fn spec_walk(mem: PhysicalMemory, p4: int, page: Page) -> Option<int> {
        let e4 = mem.spec_entry(p4, page.p4_index_spec() as int);
        if !spec_present(e4) || spec_huge(e4) {
            None
        } else {
            let e3 = mem.spec_entry(spec_frame_of(e4) as int, page.p3_index_spec() as int);
            if !spec_present(e3) {
                None
            } else if spec_huge(e3) {
                Some(
                    spec_frame_of(e3) + page.p2_index_spec() * 512 + page.p1_index_spec(),
                )
            } else {
                let e2 = mem.spec_entry(spec_frame_of(e3) as int, page.p2_index_spec() as int);
                if !spec_present(e2) {
                    None
                } else if spec_huge(e2) {
                    Some(spec_frame_of(e2) + page.p1_index_spec())
                } else {
                    let e1 = mem.spec_entry(
                        spec_frame_of(e2) as int,
                        page.p1_index_spec() as int,
                    );
                    if spec_present(e1) {
                        Some(spec_frame_of(e1) as int)
                    } else {
                        None
                    }
                }
            }
        }
    }

    /// The frame `page` maps to under the current recursive slot.
    pub open spec fn spec_translate_page(self, page: Page) -> Option<int> {
        if self.spec_selfref_usable() {
            Self::spec_walk(self.mem, self.spec_p4_frame(), page)
        } else {
            None
        }
    }

    /// The physical address `va` maps to.
    pub open spec fn spec_translate(self, va: u64) -> Option<int> {
        match self.spec_translate_page(Page { number: va / PAGE_SIZE }) {
            Some(f) => Some(f * PAGE_SIZE + (va % PAGE_SIZE)),
            None => None,
        }
    }

    /// The P1 slot for `page` — table frame and index — under the P4
    /// table in frame `p4`, when the full four-level, non-huge path to it
    /// is present.
    pub open spec fn spec_leaf_slot_at(mem: PhysicalMemory, p4: int, page: Page) -> Option<
        (int, int),
    > {
        let e4 = mem.spec_entry(p4, page.p4_index_spec() as int);
        if !spec_present(e4) || spec_huge(e4) {
            None
        } else {
            let e3 = mem.spec_entry(spec_frame_of(e4) as int, page.p3_index_spec() as int);
            if !spec_present(e3) || spec_huge(e3) {
                None
            } else {
                let e2 = mem.spec_entry(spec_frame_of(e3) as int, page.p2_index_spec() as int);
                if !spec_present(e2) || spec_huge(e2) {
                    None
                } else {
                    Some((spec_frame_of(e2) as int, page.p1_index_spec() as int))
                }
            }
        }
    }

    /// The value of the P1 entry for `page` under the P4 table in frame
    /// `p4`, when the path to it is present.
    pub open spec fn spec_leaf_entry_at(mem: PhysicalMemory, p4: int, page: Page) -> Option<u64> {
        match Self::spec_leaf_slot_at(mem, p4, page) {
            Some((t1, i)) => Some(mem.spec_entry(t1, i)),
            None => None,
        }
    }

    /// The P1 slot for `page` under the current recursive slot.
    pub open spec fn spec_leaf_slot(self, page: Page) -> Option<(int, int)> {
        if !self.spec_selfref_usable() {
            None
        } else {
            Self::spec_leaf_slot_at(self.mem, self.spec_p4_frame(), page)
        }
    }

    /// The value of the P1 entry for `page`, when the path to it is
    /// present.
    pub open spec fn spec_leaf_entry(self, page: Page) -> Option<u64> {
        match self.spec_leaf_slot(page) {
            Some((t1, i)) => Some(self.mem.spec_entry(t1, i)),
            None => None,
        }
    }

    /// Whether the whole non-huge path of tables down to `page`'s P1
    /// table exists, so that mapping the page needs no allocation.
    pub open spec fn spec_path_present(self, page: Page) -> bool {
        match self.spec_leaf_slot(page) {
            Some((t1, _i)) => self.mem.spec_has_table(t1),
            None => false,
        }
    }

    /// Walks the hierarchy for `page` and returns the frame it maps to,
    /// descending until an absent entry stops the walk or a huge entry
    /// short-circuits it.
    pub fn translate_page(&self, page: Page) -> (r: Option<Frame>)
        requires
            self.wf(),
        ensures
            r matches Some(f) ==> self.spec_translate_page(page) == Some(f.number as int),
            r is None ==> self.spec_translate_page(page) is None,
    {
        let sr = self.mem.read_entry(self.root, 511);
        if sr & PRESENT == 0 || sr & HUGE_PAGE != 0 {
            return None;
        }
        let p4f = (sr & ADDRESS_MASK) >> 12;
        let e4 = self.mem.read_entry(p4f, page.p4_index());
        if e4 & PRESENT == 0 || e4 & HUGE_PAGE != 0 {
            return None;
        }
        let t3 = (e4 & ADDRESS_MASK) >> 12;
        let e3 = self.mem.read_entry(t3, page.p3_index());
        if e3 & PRESENT == 0 {
            return None;
        }
        proof {
            crate::paging::entry::lemma_frame_of_bound(e3);
        }
        if e3 & HUGE_PAGE != 0 {
            return Some(
                Frame { number: ((e3 & ADDRESS_MASK) >> 12) + page.p2_index() * 512 + page.p1_index() },
            );
        }
        let t2 = (e3 & ADDRESS_MASK) >> 12;
        let e2 = self.mem.read_entry(t2, page.p2_index());
        if e2 & PRESENT == 0 {
            return None;
        }
        proof {
            crate::paging::entry::lemma_frame_of_bound(e2);
        }
        if e2 & HUGE_PAGE != 0 {
            return Some(Frame { number: ((e2 & ADDRESS_MASK) >> 12) + page.p1_index() });
        }
        let t1 = (e2 & ADDRESS_MASK) >> 12;
        let e1 = self.mem.read_entry(t1, page.p1_index());
        if e1 & PRESENT == 0 {
            return None;
        }
        Some(Frame { number: (e1 & ADDRESS_MASK) >> 12 })
    }

    /// Every frame number a walk can produce fits well below the entry
    /// address field's limit plus the largest huge-page offset.
    pub proof fn lemma_walk_bound(mem: PhysicalMemory, p4: int, page: Page)
        ensures
            Self::spec_walk(mem, p4, page) matches Some(f) ==> 0 <= f <= MAX_ENTRY_FRAME
                + 0x3_ffff,
    {
        crate::paging::entry::lemma_frame_of_bound(
            mem.spec_entry(
                spec_frame_of(mem.spec_entry(p4, page.p4_index_spec() as int)) as int,
                page.p3_index_spec() as int,
            ),
        );
        crate::paging::lemma_index_bounds(page.number);
        let e4 = mem.spec_entry(p4, page.p4_index_spec() as int);
        let e3 = mem.spec_entry(spec_frame_of(e4) as int, page.p3_index_spec() as int);
        let e2 = mem.spec_entry(spec_frame_of(e3) as int, page.p2_index_spec() as int);
        let e1 = mem.spec_entry(spec_frame_of(e2) as int, page.p1_index_spec() as int);
        crate::paging::entry::lemma_frame_of_bound(e2);
        crate::paging::entry::lemma_frame_of_bound(e1);
    }

    /// Translates a virtual address to the physical address it maps to.
    pub fn translate(&self, virtual_address: u64) -> (r: Option<u64>)
        requires
            self.wf(),
            spec_valid_address(virtual_address),
        ensures
            r matches Some(pa) ==> self.spec_translate(virtual_address) == Some(pa as int),
            r is None ==> self.spec_translate(virtual_address) is None,
    {
        let offset = virtual_address % PAGE_SIZE;
        let page = Page::containing_address(virtual_address);
        match self.translate_page(page) {
            Some(frame) => {
                proof {
                    if self.spec_selfref_usable() {
                        Self::lemma_walk_bound(self.mem, self.spec_p4_frame(), page);
                    }
                }
                Some(frame.number * PAGE_SIZE + offset)
            },
            None => None,
        }
    }

    /// Returns the frame of the child table below slot `index` of the
    /// table in frame `tf`, allocating, zeroing and linking a fresh one
    /// when the slot is empty. Fails when the slot is huge or garbage,
    /// when the slot points outside the model, or when the allocator
    /// hands out no frame or one that is not fresh. Never overwrites a
    /// nonzero entry anywhere.
    fn ensure_child_table<A: FrameAllocator>(
        &mut self,
        tf: u64,
        index: u64,
        allocator: &mut A,
    ) -> (r: Option<u64>)
        requires
            old(self).wf(),
            old(self).mem.spec_has_table(tf as int),
            index < 512,
        ensures
            final(self).wf(),
            final(self).root == old(self).root,
            final(self).mem.spec_len() == old(self).mem.spec_len(),
            forall|g: int, j: int|
                !(g == tf && j == index) ==> final(self).mem.spec_entry(g, j) == old(
                    self,
                ).mem.spec_entry(g, j),
            old(self).mem.spec_entry(tf as int, index as int) != 0 ==> final(self).mem.spec_entry(
                tf as int,
                index as int,
            ) == old(self).mem.spec_entry(tf as int, index as int),
            forall|g: int|
                old(self).mem.spec_has_table(g) ==> final(self).mem.spec_has_table(g),
            r matches Some(c) ==> {
                &&& spec_present(final(self).mem.spec_entry(tf as int, index as int))
                &&& !spec_huge(final(self).mem.spec_entry(tf as int, index as int))
                &&& spec_frame_of(final(self).mem.spec_entry(tf as int, index as int)) == c
                &&& final(self).mem.spec_has_table(c as int)
                &&& c < final(self).mem.spec_len()
            },
            ({
                let e = old(self).mem.spec_entry(tf as int, index as int);
                spec_present(e) && !spec_huge(e) && old(self).mem.spec_has_table(
                    spec_frame_of(e) as int,
                )
            }) ==> r == Some(spec_frame_of(old(self).mem.spec_entry(tf as int, index as int)))
                && *final(self) == *old(self),
            ({
                let e = old(self).mem.spec_entry(tf as int, index as int);
                spec_present(e) && (spec_huge(e) || !old(self).mem.spec_has_table(
                    spec_frame_of(e) as int,
                ))
            }) ==> r is None,
            r is None ==> *final(self) == *old(self),
    {
        let e = self.mem.read_entry(tf, index);
        if e & PRESENT != 0 {
            if e & HUGE_PAGE != 0 {
                return None;
            }
            let child = (e & ADDRESS_MASK) >> 12;
            if !self.mem.has_table(child) {
                return None;
            }
            proof {
                crate::paging::entry::lemma_frame_of_bound(e);
            }
            Some(child)
        } else {
            if e != 0 {
                // A nonzero entry that is not present is garbage from a
                // table that was never zeroed; refusing it keeps every
                // write of this mapper on empty slots.
                return None;
            }
            match allocator.allocate_frame() {
                None => None,
                Some(fresh) => {
                    if fresh.number >= self.mem.num_frames() {
                        return None;
                    }
                    if self.mem.has_table(fresh.number) {
                        return None;
                    }
                    let t = Table::new();
                    self.mem.place_table(fresh.number, t);
                    let ghost mid = self.mem;
                    let value = (fresh.number << 12) | (PRESENT | WRITABLE);
                    proof {
                        assert((0x1u64 | 0x2u64) & 0x000f_ffff_ffff_f000u64 == 0 && (0x1u64
                            | 0x2u64) & 0x1u64 != 0 && (0x1u64 | 0x2u64) & 0x80u64 == 0)
                            by (bit_vector);
                        lemma_encode(fresh.number, PRESENT | WRITABLE);
                    }
                    self.mem.write_entry(tf, index, value);
                    proof {
                        let fr = fresh.number as int;
                        assert(!old(self).mem.spec_has_table(fr));
                        assert(tf as int != fr);
                        assert forall|g: int, j: int| !(g == tf && j == index) implies self
                            .mem.spec_entry(g, j) == old(self).mem.spec_entry(g, j) by {
                            assert(self.mem.spec_entry(g, j) == mid.spec_entry(g, j));
                            if g == fr {
                                assert(old(self).mem.spec_entry(g, j) == 0);
                                if 0 <= j < 512 {
                                    assert(mid.spec_entry(g, j) == t.spec_entry(j));
                                } else {
                                    assert(mid.spec_entry(g, j) == 0);
                                }
                            }
                        }
                        assert(self.mem.spec_entry(tf as int, index as int) == spec_encode(
                            fresh.number,
                            PRESENT | WRITABLE,
                        ));
                    }
                    Some(fresh.number)
                },
            }
        }
    }

    /// Where the full non-huge path to a P1 slot is present, every entry
    /// on it is nonzero, so each table on the path exists.
    pub proof fn lemma_leaf_slot_tables(m: Mapper, page: Page)
        requires
            m.spec_leaf_slot(page) is Some,
        ensures
            ({
                let p4 = m.spec_p4_frame();
                let e4 = m.mem.spec_entry(p4, page.p4_index_spec() as int);
                let e3 = m.mem.spec_entry(spec_frame_of(e4) as int, page.p3_index_spec() as int);
                let e2 = m.mem.spec_entry(spec_frame_of(e3) as int, page.p2_index_spec() as int);
                &&& m.spec_selfref_usable()
                &&& spec_present(e4) && !spec_huge(e4)
                &&& m.mem.spec_has_table(p4)
                &&& spec_present(e3) && !spec_huge(e3)
                &&& m.mem.spec_has_table(spec_frame_of(e4) as int)
                &&& spec_present(e2) && !spec_huge(e2)
                &&& m.mem.spec_has_table(spec_frame_of(e3) as int)
                &&& m.spec_leaf_slot(page) == Some(
                    (spec_frame_of(e2) as int, page.p1_index_spec() as int),
                )
            }),
    {
        let p4 = m.spec_p4_frame();
        let e4 = m.mem.spec_entry(p4, page.p4_index_spec() as int);
        let e3 = m.mem.spec_entry(spec_frame_of(e4) as int, page.p3_index_spec() as int);
        let e2 = m.mem.spec_entry(spec_frame_of(e3) as int, page.p2_index_spec() as int);
        lemma_present_nonzero(e4);
        lemma_present_nonzero(e3);
        lemma_present_nonzero(e2);
    }

    /// Where a page translates at all, each entry its walk passes is
    /// nonzero, so each table the walk passes exists.
    pub proof fn lemma_translate_tables(m: Mapper, page: Page)
        requires
            m.spec_translate_page(page) is Some,
        ensures
            ({
                let p4 = m.spec_p4_frame();
                let e4 = m.mem.spec_entry(p4, page.p4_index_spec() as int);
                let e3 = m.mem.spec_entry(spec_frame_of(e4) as int, page.p3_index_spec() as int);
                let e2 = m.mem.spec_entry(spec_frame_of(e3) as int, page.p2_index_spec() as int);
                let e1 = m.mem.spec_entry(spec_frame_of(e2) as int, page.p1_index_spec() as int);
                &&& m.spec_selfref_usable()
                &&& spec_present(e4) && !spec_huge(e4)
                &&& m.mem.spec_has_table(p4)
                &&& spec_present(e3)
                &&& m.mem.spec_has_table(spec_frame_of(e4) as int)
                &&& !spec_huge(e3) ==> {
                    &&& spec_present(e2)
                    &&& m.mem.spec_has_table(spec_frame_of(e3) as int)
                    &&& !spec_huge(e2) ==> {
                        &&& spec_present(e1)
                        &&& m.mem.spec_has_table(spec_frame_of(e2) as int)
                    }
                }
            }),
    {
        let p4 = m.spec_p4_frame();
        let e4 = m.mem.spec_entry(p4, page.p4_index_spec() as int);
        let e3 = m.mem.spec_entry(spec_frame_of(e4) as int, page.p3_index_spec() as int);
        let e2 = m.mem.spec_entry(spec_frame_of(e3) as int, page.p2_index_spec() as int);
        let e1 = m.mem.spec_entry(spec_frame_of(e2) as int, page.p1_index_spec() as int);
        lemma_present_nonzero(e4);
        if spec_present(e3) {
            lemma_present_nonzero(e3);
        }
        if spec_present(e2) {
            lemma_present_nonzero(e2);
        }
        if spec_present(e1) {
            lemma_present_nonzero(e1);
        }
    }

    /// Maps `page` to `frame` with the given flags, walking and creating
    /// the P3, P2 and P1 tables beneath it as needed. A page that is
    /// already mapped is rejected and nothing is overwritten; a page
    /// whose whole table path exists with an empty P1 slot is always
    /// mapped; otherwise success depends on the frames the allocator
    /// hands out. No nonzero entry of any table is ever overwritten.
    #[verifier::rlimit(60)]
    pub fn map_to<A: FrameAllocator>(
        &mut self,
        page: Page,
        frame: Frame,
        flags: EntryFlags,
        allocator: &mut A,
    ) -> (ok: bool)
        requires
            old(self).wf(),
            page.p4_index_spec() != 511,
            frame.number <= MAX_ENTRY_FRAME,
            flags.is_valid(),
        ensures
            final(self).wf(),
            final(self).root == old(self).root,
            final(self).mem.spec_len() == old(self).mem.spec_len(),
            forall|g: int, j: int|
                old(self).mem.spec_entry(g, j) != 0 ==> final(self).mem.spec_entry(g, j) == old(
                    self,
                ).mem.spec_entry(g, j),
            forall|g: int| old(self).mem.spec_has_table(g) ==> final(self).mem.spec_has_table(g),
            ok ==> final(self).spec_leaf_entry(page) == Some(
                spec_encode(frame.number, flags.bits | PRESENT),
            ),
            ok ==> final(self).spec_translate_page(page) == Some(frame.number as int),
            old(self).spec_translate_page(page) is Some ==> !ok && *final(self) == *old(self),
            old(self).spec_path_present(page) && old(self).spec_leaf_entry(page) == Some(0u64)
                ==> ok,
    {
        let ghost s0 = *self;
        let sr = self.mem.read_entry(self.root, 511);
        if sr & PRESENT == 0 || sr & HUGE_PAGE != 0 {
            return false;
        }
        proof {
            lemma_present_nonzero(sr);
        }
        let p4f = (sr & ADDRESS_MASK) >> 12;
        if !self.mem.has_table(p4f) {
            proof {
                if s0.spec_leaf_slot(page) is Some {
                    Self::lemma_leaf_slot_tables(s0, page);
                }
                if s0.spec_translate_page(page) is Some {
                    Self::lemma_translate_tables(s0, page);
                }
            }
            return false;
        }
        let t3 = match self.ensure_child_table(p4f, page.p4_index(), allocator) {
            None => {
                proof {
                    if s0.spec_leaf_slot(page) is Some {
                        Self::lemma_leaf_slot_tables(s0, page);
                    }
                    if s0.spec_translate_page(page) is Some {
                        Self::lemma_translate_tables(s0, page);
                    }
                }
                return false;
            },
            Some(c) => c,
        };
        let ghost s1 = *self;
        let t2 = match self.ensure_child_table(t3, page.p3_index(), allocator) {
            None => {
                proof {
                    if s0.spec_leaf_slot(page) is Some {
                        Self::lemma_leaf_slot_tables(s0, page);
                    }
                    if s0.spec_translate_page(page) is Some {
                        Self::lemma_translate_tables(s0, page);
                    }
                }
                return false;
            },
            Some(c) => c,
        };
        let ghost s2 = *self;
        let t1 = match self.ensure_child_table(t2, page.p2_index(), allocator) {
            None => {
                proof {
                    if s0.spec_leaf_slot(page) is Some {
                        Self::lemma_leaf_slot_tables(s0, page);
                    }
                    if s0.spec_translate_page(page) is Some {
                        Self::lemma_translate_tables(s0, page);
                    }
                }
                return false;
            },
            Some(c) => c,
        };
        let ghost s3 = *self;
        let e1 = self.mem.read_entry(t1, page.p1_index());
        if e1 != 0 {
            proof {
                if s0.spec_leaf_slot(page) is Some {
                    Self::lemma_leaf_slot_tables(s0, page);
                }
                if s0.spec_translate_page(page) is Some {
                    Self::lemma_translate_tables(s0, page);
                }
            }
            return false;
        }
        let value = (frame.number << 12) | (flags.bits | PRESENT);
        proof {
            let b = flags.bits;
            assert((b | 0x1u64) & 0x000f_ffff_ffff_f000u64 == 0 && (b | 0x1u64) & 0x1u64 != 0)
                by (bit_vector)
                requires
                    b & 0x000f_ffff_ffff_f000u64 == 0,
            ;
            lemma_encode(frame.number, flags.bits | PRESENT);
        }
        self.mem.write_entry(t1, page.p1_index(), value);
        proof {
            let p4i = page.p4_index_spec() as int;
            let p3i = page.p3_index_spec() as int;
            let p2i = page.p2_index_spec() as int;
            let p1i = page.p1_index_spec() as int;
            // The values on the walk path, carried forward: every entry on
            // it is nonzero once established, and every write of this call
            // went to a slot that read zero, so the path reads back intact.
            lemma_present_nonzero(s1.mem.spec_entry(p4f as int, p4i));
            lemma_present_nonzero(s2.mem.spec_entry(t3 as int, p3i));
            lemma_present_nonzero(s3.mem.spec_entry(t2 as int, p2i));
            assert(self.mem.spec_entry(self.root as int, 511) == sr);
            assert(self.mem.spec_entry(p4f as int, p4i) == s1.mem.spec_entry(p4f as int, p4i));
            assert(self.mem.spec_entry(t3 as int, p3i) == s2.mem.spec_entry(t3 as int, p3i));
            assert(self.mem.spec_entry(t2 as int, p2i) == s3.mem.spec_entry(t2 as int, p2i));
            assert(self.mem.spec_entry(t1 as int, p1i) == value);
            assert(self.spec_leaf_slot(page) == Some((t1 as int, p1i)));
            assert(self.spec_translate_page(page) == Some(frame.number as int));
            // An already-mapped page never reaches the write: its walk
            // would have put a present entry where zero was read.
            if s0.spec_translate_page(page) is Some {
                Self::lemma_translate_tables(s0, page);
                let e4 = s0.mem.spec_entry(p4f as int, p4i);
                assert(t3 == spec_frame_of(e4));
                assert(s1 == s0);
                let e3 = s0.mem.spec_entry(t3 as int, p3i);
                assert(spec_present(e3));
                assert(!spec_huge(e3));
                assert(t2 == spec_frame_of(e3));
                assert(s2 == s0);
                let e2 = s0.mem.spec_entry(t2 as int, p2i);
                assert(!spec_huge(e2));
                assert(t1 == spec_frame_of(e2));
                assert(s3 == s0);
                assert(spec_present(s0.mem.spec_entry(t1 as int, p1i)));
                lemma_present_nonzero(s0.mem.spec_entry(t1 as int, p1i));
                assert(false);
            }
        }
        true
    }

    /// Allocates a fresh frame and maps `page` to it. Returns the mapped
    /// frame, or nothing when the allocator is exhausted, hands out an
    /// unusable frame, or the page is already mapped.
    pub fn map<A: FrameAllocator>(
        &mut self,
        page: Page,
        flags: EntryFlags,
        allocator: &mut A,
    ) -> (r: Option<Frame>)
        requires
            old(self).wf(),
            page.p4_index_spec() != 511,
            flags.is_valid(),
        ensures
            final(self).wf(),
            final(self).root == old(self).root,
            final(self).mem.spec_len() == old(self).mem.spec_len(),
            forall|g: int, j: int|
                old(self).mem.spec_entry(g, j) != 0 ==> final(self).mem.spec_entry(g, j) == old(
                    self,
                ).mem.spec_entry(g, j),
            forall|g: int| old(self).mem.spec_has_table(g) ==> final(self).mem.spec_has_table(g),
            r matches Some(f) ==> {
                &&& f.number <= MAX_ENTRY_FRAME
                &&& final(self).spec_leaf_entry(page) == Some(
                    spec_encode(f.number, flags.bits | PRESENT),
                )
                &&& final(self).spec_translate_page(page) == Some(f.number as int)
            },
            old(self).spec_translate_page(page) is Some ==> r is None && *final(self)
                == *old(self),
    {
        match allocator.allocate_frame() {
            None => None,
            Some(f) => {
                if f.number > MAX_ENTRY_FRAME {
                    return None;
                }
                if self.map_to(page, f, flags, allocator) {
                    Some(f)
                } else {
                    None
                }
            },
        }
    }

    /// Maps the page whose number equals the frame's number to that very
    /// frame, so that virtual and physical address coincide.
    pub fn identity_map<A: FrameAllocator>(
        &mut self,
        frame: Frame,
        flags: EntryFlags,
        allocator: &mut A,
    ) -> (ok: bool)
        requires
            old(self).wf(),
            frame.number <= MAX_ENTRY_FRAME,
            (Page { number: frame.number }).p4_index_spec() != 511,
            flags.is_valid(),
        ensures
            final(self).wf(),
            final(self).root == old(self).root,
            final(self).mem.spec_len() == old(self).mem.spec_len(),
            forall|g: int, j: int|
                old(self).mem.spec_entry(g, j) != 0 ==> final(self).mem.spec_entry(g, j) == old(
                    self,
                ).mem.spec_entry(g, j),
            forall|g: int| old(self).mem.spec_has_table(g) ==> final(self).mem.spec_has_table(g),
            ok ==> final(self).spec_leaf_entry(Page { number: frame.number }) == Some(
                spec_encode(frame.number, flags.bits | PRESENT),
            ),
            ok ==> final(self).spec_translate_page(Page { number: frame.number }) == Some(
                frame.number as int,
            ),
            old(self).spec_translate_page(Page { number: frame.number }) is Some ==> !ok
                && *final(self) == *old(self),
            old(self).spec_path_present(Page { number: frame.number }) && old(
                self,
            ).spec_leaf_entry(Page { number: frame.number }) == Some(0u64) ==> ok,
    {
        let page = Page { number: frame.number };
        self.map_to(page, frame, flags, allocator)
    }

    /// Removes the mapping of `page`: clears its P1 entry and returns the
    /// frame it pointed at to the allocator. Fails — changing nothing —
    /// when the page has no four-level mapping (a huge-page mapping is
    /// not supported by the unmapping walk). Afterwards no
    /// address of the page translates; the single-address
    /// translation-cache invalidation is an architecture primitive
    /// outside the model.
    pub fn unmap<A: FrameAllocator>(&mut self, page: Page, allocator: &mut A) -> (ok: bool)
        requires
            old(self).wf(),
        ensures
            final(self).wf(),
            final(self).root == old(self).root,
            final(self).mem.spec_len() == old(self).mem.spec_len(),
            forall|g: int| final(self).mem.spec_has_table(g) == old(self).mem.spec_has_table(g),
            ok <==> (old(self).spec_leaf_entry(page) matches Some(e) && spec_present(e)),
            ok ==> final(self).spec_translate_page(page) is None,
            ok ==> (old(self).spec_leaf_slot(page) matches Some((t, i))
                && final(self).mem.spec_entry(t, i) == 0
                && forall|g: int, j: int|
                    !(g == t && j == i) ==> final(self).mem.spec_entry(g, j)
                        == old(self).mem.spec_entry(g, j)),
            !ok ==> *final(self) == *old(self),
    {
        match self.clear_leaf(page) {
            Some(freed) => {
                allocator.deallocate_frame(freed);
                true
            },
            None => false,
        }
    }

    /// Clears the P1 entry of `page` without giving its frame back:
    /// returns the frame the entry pointed at. This is the bare removal
    /// of one mapping; `unmap` adds the hand-back to the allocator, and
    /// the temporary page uses it alone, since the frame it unmaps is
    /// about to live on as a page table.
    pub(crate) fn clear_leaf(&mut self, page: Page) -> (r: Option<Frame>)
        requires
            old(self).wf(),
        ensures
            final(self).wf(),
            final(self).root == old(self).root,
            final(self).mem.spec_len() == old(self).mem.spec_len(),
            forall|g: int| final(self).mem.spec_has_table(g) == old(self).mem.spec_has_table(g),
            r is Some <==> (old(self).spec_leaf_entry(page) matches Some(e) && spec_present(e)),
            r matches Some(f) ==> Some(f.number) == match old(self).spec_leaf_entry(page) {
                Some(e) => Some(spec_frame_of(e)),
                None => None,
            },
            r is Some ==> final(self).spec_translate_page(page) is None,
            r is Some ==> (old(self).spec_leaf_slot(page) matches Some((t, i))
                && final(self).mem.spec_entry(t, i) == 0
                && forall|g: int, j: int|
                    !(g == t && j == i) ==> final(self).mem.spec_entry(g, j)
                        == old(self).mem.spec_entry(g, j)),
            r is None ==> *final(self) == *old(self),
    {
        let sr = self.mem.read_entry(self.root, 511);
        if sr & PRESENT == 0 || sr & HUGE_PAGE != 0 {
            return None;
        }
        let p4f = (sr & ADDRESS_MASK) >> 12;
        let e4 = self.mem.read_entry(p4f, page.p4_index());
        if e4 & PRESENT == 0 || e4 & HUGE_PAGE != 0 {
            return None;
        }
        let t3 = (e4 & ADDRESS_MASK) >> 12;
        let e3 = self.mem.read_entry(t3, page.p3_index());
        if e3 & PRESENT == 0 || e3 & HUGE_PAGE != 0 {
            return None;
        }
        let t2 = (e3 & ADDRESS_MASK) >> 12;
        let e2 = self.mem.read_entry(t2, page.p2_index());
        if e2 & PRESENT == 0 || e2 & HUGE_PAGE != 0 {
            return None;
        }
        let t1 = (e2 & ADDRESS_MASK) >> 12;
        let e1 = self.mem.read_entry(t1, page.p1_index());
        if e1 & PRESENT == 0 {
            return None;
        }
        proof {
            lemma_present_nonzero(e1);
        }
        self.mem.write_entry(t1, page.p1_index(), 0);
        proof {
            crate::paging::table::lemma_zero_entry();
            assert(self.spec_translate_page(page) is None);
        }
        Some(Frame { number: (e1 & ADDRESS_MASK) >> 12 })
    }

    /// Installs a fully zeroed table in the given frame, replacing
    /// whatever the frame held; this is what zeroing a table frame
    /// through the temporary mapping comes to in the model.
    pub(crate) fn place_zeroed_table(&mut self, f: u64)
        requires
            old(self).wf(),
            f < old(self).mem.spec_len(),
        ensures
            final(self).wf(),
            final(self).root == old(self).root,
            final(self).mem.spec_len() == old(self).mem.spec_len(),
            final(self).mem.spec_has_table(f as int),
            forall|j: int| final(self).mem.spec_entry(f as int, j) == 0,
            forall|g: int, j: int|
                g != f ==> final(self).mem.spec_entry(g, j) == old(self).mem.spec_entry(g, j),
            forall|g: int|
                g != f ==> final(self).mem.spec_has_table(g) == old(self).mem.spec_has_table(g),
    {
        let t = Table::new();
        self.mem.place_table(f, t);
        proof {
            assert forall|j: int| self.mem.spec_entry(f as int, j) == 0 by {
                if 0 <= j < 512 {
                    assert(self.mem.spec_entry(f as int, j) == t.spec_entry(j));
                }
            }
        }
    }

    /// Writes the entry at slot `index` of the table in frame `f` so that
    /// it points at `frame` with the given flags plus the present bit.
    pub(crate) fn write_table_entry(&mut self, f: u64, index: u64, frame: Frame, flags: EntryFlags)
        requires
            old(self).wf(),
            old(self).mem.spec_has_table(f as int),
            index < 512,
            frame.number <= MAX_ENTRY_FRAME,
            flags.is_valid(),
        ensures
            final(self).wf(),
            final(self).root == old(self).root,
            final(self).mem.spec_len() == old(self).mem.spec_len(),
            final(self).mem.spec_entry(f as int, index as int) == spec_encode(
                frame.number,
                flags.bits | PRESENT,
            ),
            spec_present(final(self).mem.spec_entry(f as int, index as int)),
            !spec_huge(final(self).mem.spec_entry(f as int, index as int)) || flags.bits
                & HUGE_PAGE != 0,
            spec_frame_of(final(self).mem.spec_entry(f as int, index as int)) == frame.number,
            forall|g: int, j: int|
                !(g == f && j == index) ==> final(self).mem.spec_entry(g, j) == old(
                    self,
                ).mem.spec_entry(g, j),
            forall|g: int| final(self).mem.spec_has_table(g) == old(self).mem.spec_has_table(g),
    {
        let value = (frame.number << 12) | (flags.bits | PRESENT);
        proof {
            let b = flags.bits;
            assert((b | 0x1u64) & 0x000f_ffff_ffff_f000u64 == 0 && (b | 0x1u64) & 0x1u64 != 0 && (
            (b | 0x1u64) & 0x80u64 != 0 ==> b & 0x80u64 != 0)) by (bit_vector)
                requires
                    b & 0x000f_ffff_ffff_f000u64 == 0,
            ;
            lemma_encode(frame.number, flags.bits | PRESENT);
        }
        self.mem.write_entry(f, index, value);
    }

    /// Reads the P1 entry for `page` under the P4 table in frame `p4`,
    /// when the full non-huge path to it is present.
    pub fn leaf_entry_at(&self, p4: u64, page: Page) -> (r: Option<u64>)
        requires
            self.wf(),
        ensures
            r matches Some(v) ==> Self::spec_leaf_entry_at(self.mem, p4 as int, page) == Some(v),
            r is None ==> Self::spec_leaf_entry_at(self.mem, p4 as int, page) is None,
    {
        let e4 = self.mem.read_entry(p4, page.p4_index());
        if e4 & PRESENT == 0 || e4 & HUGE_PAGE != 0 {
            return None;
        }
        let t3 = (e4 & ADDRESS_MASK) >> 12;
        let e3 = self.mem.read_entry(t3, page.p3_index());
        if e3 & PRESENT == 0 || e3 & HUGE_PAGE != 0 {
            return None;
        }
        let t2 = (e3 & ADDRESS_MASK) >> 12;
        let e2 = self.mem.read_entry(t2, page.p2_index());
        if e2 & PRESENT == 0 || e2 & HUGE_PAGE != 0 {
            return None;
        }
        let t1 = (e2 & ADDRESS_MASK) >> 12;
        Some(self.mem.read_entry(t1, page.p1_index()))
    }

    /// Reads the P1 entry for `page`, when the full non-huge path to its
    /// P1 table is present.
    pub fn p1_entry(&self, page: Page) -> (r: Option<crate::paging::entry::Entry>)
        requires
            self.wf(),
        ensures
            r matches Some(e) ==> self.spec_leaf_entry(page) == Some(e.value),
            r is None ==> self.spec_leaf_entry(page) is None,
    {
        let sr = self.mem.read_entry(self.root, 511);
        if sr & PRESENT == 0 || sr & HUGE_PAGE != 0 {
            return None;
        }
        let p4f = (sr & ADDRESS_MASK) >> 12;
        let e4 = self.mem.read_entry(p4f, page.p4_index());
        if e4 & PRESENT == 0 || e4 & HUGE_PAGE != 0 {
            return None;
        }
        let t3 = (e4 & ADDRESS_MASK) >> 12;
        let e3 = self.mem.read_entry(t3, page.p3_index());
        if e3 & PRESENT == 0 || e3 & HUGE_PAGE != 0 {
            return None;
        }
        let t2 = (e3 & ADDRESS_MASK) >> 12;
        let e2 = self.mem.read_entry(t2, page.p2_index());
        if e2 & PRESENT == 0 || e2 & HUGE_PAGE != 0 {
            return None;
        }
        let t1 = (e2 & ADDRESS_MASK) >> 12;
        let e1 = self.mem.read_entry(t1, page.p1_index());
        Some(crate::paging::entry::Entry { value: e1 })
    }
}


/// A present P1 entry determines the page's translation: where the leaf
/// entry under `p4` is a present value `v`, the walk ends at the frame
/// `v` encodes.
pub proof fn lemma_leaf_entry_walk(mem: PhysicalMemory, p4: int, page: Page, v: u64)
    requires
        Mapper::spec_leaf_entry_at(mem, p4, page) == Some(v),
        spec_present(v),
    ensures
        Mapper::spec_walk(mem, p4, page) == Some(spec_frame_of(v) as int),
{
}

/// The same, read through the recursive slot of a mapper.
pub proof fn lemma_leaf_entry_translate(m: Mapper, page: Page, v: u64)
    requires
        m.spec_leaf_entry(page) == Some(v),
        spec_present(v),
    ensures
        m.spec_translate_page(page) == Some(spec_frame_of(v) as int),
{
}

/// Translation respects pages: any address whose page maps to frame `f`
/// translates to `f`'s start address plus the in-page offset — in
/// particular an address of a freshly mapped page translates to the
/// mapped frame.
pub proof fn lemma_translate_in_page(m: Mapper, page: Page, f: u64, va: u64)
    requires
        m.spec_translate_page(page) == Some(f as int),
        va / PAGE_SIZE == page.number,
    ensures
        m.spec_translate(va) == Some(f * PAGE_SIZE + (va % PAGE_SIZE)),
{
}

/// Any address of a page without a mapping translates to nothing — in
/// particular every address inside a freshly unmapped page.
pub proof fn lemma_untranslated_in_page(m: Mapper, page: Page, va: u64)
    requires
        m.spec_translate_page(page) is None,
        va / PAGE_SIZE == page.number,
    ensures
        m.spec_translate(va) is None,
{
}

} // verus!
