//! The four-level paging subsystem: pages, table entries, the table
//! hierarchy, the mapper, and the kernel-remapping algorithm.

use vstd::prelude::*;

pub mod entry;
pub mod mapper;
pub mod table;
pub mod temporary_page;

use crate::memory::Frame;
use crate::memory::FrameAllocator;
use crate::memory::PAGE_SIZE;
use crate::memory::VirtualAddress;
use crate::paging::entry::ADDRESS_MASK;
use crate::paging::entry::ELF_SECTION_ALLOCATED;
use crate::paging::entry::HUGE_PAGE;
use crate::paging::entry::EntryFlags;
use crate::paging::entry::MAX_ENTRY_FRAME;
use crate::paging::entry::PRESENT;
use crate::paging::entry::WRITABLE;
use crate::paging::entry::spec_encode;
use crate::paging::entry::spec_present;
use crate::paging::mapper::Mapper;
use crate::paging::table::MAX_PHYS_FRAMES;
use crate::paging::table::PhysicalMemory;
use crate::paging::temporary_page::TemporaryPage;

verus! {

/// Number of entries in one page table.
pub const ENTRY_COUNT: u64 = 512;

/// First address above the canonical low half.
pub const LOW_HALF_END: u64 = 0x0000_8000_0000_0000;

/// First address of the canonical high half.
pub const HIGH_HALF_START: u64 = 0xffff_8000_0000_0000;

/// One unit of virtual memory, identified by its index.
#[derive(Debug, Clone, Copy, PartialEq, Eq, Structural)]
pub struct Page {
    pub number: u64,
}

/// A virtual address is valid when it lies in the canonical low half or the
/// canonical high half; the gap between them cannot be addressed.
pub open spec fn spec_valid_address(address: u64) -> bool {
    address < LOW_HALF_END || address >= HIGH_HALF_START
}

impl Page {
    /// Returns the page containing the given virtual address.
    ///
    /// An address in the non-canonical gap is a fatal precondition
    /// violation; `checked_containing_address` rejects it at run time.
    pub fn containing_address(address: VirtualAddress) -> (r: Page)
        requires
            spec_valid_address(address),
        ensures
            r.number == address / PAGE_SIZE,
            r.start_address_spec() <= address < r.start_address_spec() + PAGE_SIZE,
    {
        proof {
            lemma_page_address_bounds(address);
        }
        Page { number: address / PAGE_SIZE }
    }

    /// Returns the page containing the address, or nothing for an address
    /// in the non-canonical gap.
    pub fn checked_containing_address(address: VirtualAddress) -> (r: Option<Page>)
        ensures
            r is Some <==> spec_valid_address(address),
            r matches Some(p) ==> p.number == address / PAGE_SIZE,
    {
        if address < LOW_HALF_END || address >= HIGH_HALF_START {
            Some(Page { number: address / PAGE_SIZE })
        } else {
            None
        }
    }

    /// Starting address of the page, as a spec-level value.
    pub open spec fn start_address_spec(self) -> int {
        self.number * PAGE_SIZE
    }

    /// Returns the starting virtual address of the page.
    pub fn start_address(&self) -> (r: VirtualAddress)
        requires
            self.number <= crate::memory::MAX_FRAME_NUMBER,
        ensures
            r == self.start_address_spec(),
    {
        self.number * PAGE_SIZE
    }

    /// Index of this page's slot in the P4 table.
    pub fn p4_index(&self) -> (r: u64)
        ensures
            r == self.p4_index_spec(),
            r < 512,
    {
        proof {
            lemma_index_bounds(self.number);
        }
        (self.number >> 27) & 0o777
    }

    /// Index of this page's slot in the P3 table.
    pub fn p3_index(&self) -> (r: u64)
        ensures
            r == self.p3_index_spec(),
            r < 512,
    {
        proof {
            lemma_index_bounds(self.number);
        }
        (self.number >> 18) & 0o777
    }

    /// Index of this page's slot in the P2 table.
    pub fn p2_index(&self) -> (r: u64)
        ensures
            r == self.p2_index_spec(),
            r < 512,
    {
        proof {
            lemma_index_bounds(self.number);
        }
        (self.number >> 9) & 0o777
    }

    /// Index of this page's slot in the P1 table.
    pub fn p1_index(&self) -> (r: u64)
        ensures
            r == self.p1_index_spec(),
            r < 512,
    {
        proof {
            lemma_index_bounds(self.number);
        }
        self.number & 0o777
    }

    pub open spec fn p4_index_spec(self) -> u64 {
        (self.number >> 27) & 0o777
    }

    pub open spec fn p3_index_spec(self) -> u64 {
        (self.number >> 18) & 0o777
    }

    pub open spec fn p2_index_spec(self) -> u64 {
        (self.number >> 9) & 0o777
    }

    pub open spec fn p1_index_spec(self) -> u64 {
        self.number & 0o777
    }
}

/// Every address lies inside the page that contains it: the page starts at
/// or below the address and ends strictly above it.
pub proof fn lemma_page_address_bounds(address: u64)
    ensures
        (address / PAGE_SIZE) * PAGE_SIZE <= address
            < (address / PAGE_SIZE) * PAGE_SIZE + PAGE_SIZE,
{
    assert((address / 4096) * 4096 <= address < (address / 4096) * 4096 + 4096) by (nonlinear_arith);
}

/// Every address strictly inside the non-canonical gap is invalid, for
/// the whole gap: no page is ever produced for one, since
/// `containing_address` excludes invalid addresses by precondition and
/// `checked_containing_address` returns something exactly for the valid
/// ones.
pub proof fn lemma_gap_address_invalid(address: u64)
    requires
        LOW_HALF_END <= address < HIGH_HALF_START,
    ensures
        !spec_valid_address(address),
{
}

/// All four table indices stay below the table's entry count.
pub proof fn lemma_index_bounds(number: u64)
    ensures
        (number >> 27) & 0o777 < 512,
        (number >> 18) & 0o777 < 512,
        (number >> 9) & 0o777 < 512,
        number & 0o777 < 512,
{
    assert((number >> 27) & 0o777 < 512) by (bit_vector);
    assert((number >> 18) & 0o777 < 512) by (bit_vector);
    assert((number >> 9) & 0o777 < 512) by (bit_vector);
    assert(number & 0o777 < 512) by (bit_vector);
}

/// Round trip: for a page inside the region the four indices can address,
/// recombining (p4, p3, p2, p1) yields the page number unchanged. Pages of
/// the canonical high half carry sign-extension bits above bit 35 that the
/// indices do not record, so they are outside this region.
pub proof fn lemma_index_round_trip(p: Page)
    requires
        p.number < 0x10_0000_0000,
    ensures
        (p.p4_index_spec() << 27) | (p.p3_index_spec() << 18) | (p.p2_index_spec() << 9)
            | p.p1_index_spec() == p.number,
{
    let n = p.number;
    assert(n < 0x10_0000_0000 ==> (((n >> 27) & 0o777) << 27) | (((n >> 18) & 0o777) << 18) | ((
    (n >> 9) & 0o777) << 9) | (n & 0o777) == n) by (bit_vector);
}


/// The page table currently loaded in the CPU: it owns the model of
/// physical memory together with the root-table register, and is the only
/// handle through which either changes.
pub struct ActivePageTable {
    pub mapper: Mapper,
}

/// A page-table hierarchy that exists in physical memory but is not
/// loaded; only its root frame is remembered.
pub struct InactivePageTable {
    pub p4_frame: Frame,
}

/// One identity-mapping the caller asks `with` to establish in an
/// inactive table.
#[derive(Debug, Clone, Copy, PartialEq, Eq, Structural)]
pub struct MapRequest {
    pub frame: Frame,
    pub flags: EntryFlags,
}

impl ActivePageTable {
    pub open spec fn wf(self) -> bool {
        self.mapper.wf()
    }

    /// The recursive-mapping invariant: the recursive slot of the table
    /// the root register points at leads back to that very table.
    pub open spec fn spec_recursive_ok(self) -> bool {
        self.mapper.spec_selfref_usable() && self.mapper.spec_p4_frame()
            == self.mapper.root as int
    }

    /// A machine of `num_frames` frames whose active table lives in
    /// `p4_frame`: the table is zeroed and its recursive slot points back
    /// at itself. No page outside the recursive region is mapped.
    pub fn new(num_frames: u64, p4_frame: Frame) -> (r: Option<ActivePageTable>)
        ensures
            r is Some <==> (p4_frame.number < num_frames && num_frames <= MAX_PHYS_FRAMES),
            r matches Some(at) ==> {
                &&& at.wf()
                &&& at.spec_recursive_ok()
                &&& at.mapper.root == p4_frame.number
                &&& at.mapper.mem.spec_len() == num_frames
                &&& forall|page: Page|
                    page.p4_index_spec() != 511 ==> at.mapper.spec_translate_page(page) is None
            },
    {
        if num_frames > MAX_PHYS_FRAMES {
            return None;
        }
        if p4_frame.number >= num_frames {
            return None;
        }
        let mem = PhysicalMemory::new(num_frames);
        let mut mapper = Mapper { mem, root: p4_frame.number };
        mapper.place_zeroed_table(p4_frame.number);
        let ghost mid = mapper;
        proof {
            assert(0x2u64 & 0x000f_ffff_ffff_f000u64 == 0 && 0x2u64 & 0x80u64 == 0)
                by (bit_vector);
        }
        mapper.write_table_entry(p4_frame.number, 511, p4_frame, EntryFlags::new(WRITABLE));
        proof {
            crate::paging::table::lemma_zero_entry();
            assert forall|page: Page| page.p4_index_spec() != 511 implies mapper.spec_translate_page(
                page,
            ) is None by {
                crate::paging::lemma_index_bounds(page.number);
                assert(mid.mem.spec_entry(p4_frame.number as int, page.p4_index_spec() as int)
                    == 0);
                assert(mapper.mem.spec_entry(
                    p4_frame.number as int,
                    page.p4_index_spec() as int,
                ) == 0);
            }
        }
        Some(ActivePageTable { mapper })
    }

    /// Translates a virtual address through the active table.
    pub fn translate(&self, virtual_address: u64) -> (r: Option<u64>)
        requires
            self.wf(),
            spec_valid_address(virtual_address),
        ensures
            r matches Some(pa) ==> self.mapper.spec_translate(virtual_address) == Some(pa as int),
            r is None ==> self.mapper.spec_translate(virtual_address) is None,
    {
        self.mapper.translate(virtual_address)
    }

    /// Walks the active table for `page`.
    pub fn translate_page(&self, page: Page) -> (r: Option<Frame>)
        requires
            self.wf(),
        ensures
            r matches Some(f) ==> self.mapper.spec_translate_page(page) == Some(f.number as int),
            r is None ==> self.mapper.spec_translate_page(page) is None,
    {
        self.mapper.translate_page(page)
    }

    /// Maps `page` to a freshly allocated frame in the active table.
    pub fn map<A: FrameAllocator>(
        &mut self,
        page: Page,
        flags: EntryFlags,
        allocator: &mut A,
    ) -> (r: Option<Frame>)
        requires
            old(self).wf(),
            page.p4_index_spec() != 511,
            flags.is_valid(),
        ensures
            final(self).wf(),
            final(self).mapper.root == old(self).mapper.root,
            final(self).mapper.mem.spec_len() == old(self).mapper.mem.spec_len(),
            r matches Some(f) ==> {
                &&& f.number <= MAX_ENTRY_FRAME
                &&& final(self).mapper.spec_leaf_entry(page) == Some(
                    spec_encode(f.number, flags.bits | PRESENT),
                )
                &&& final(self).mapper.spec_translate_page(page) == Some(f.number as int)
            },
            old(self).mapper.spec_translate_page(page) is Some ==> r is None && *final(self)
                == *old(self),
    {
        self.mapper.map(page, flags, allocator)
    }

    /// Maps `page` to the given `frame` in the active table.
    pub fn map_to<A: FrameAllocator>(
        &mut self,
        page: Page,
        frame: Frame,
        flags: EntryFlags,
        allocator: &mut A,
    ) -> (ok: bool)
        requires
            old(self).wf(),
            page.p4_index_spec() != 511,
            frame.number <= MAX_ENTRY_FRAME,
            flags.is_valid(),
        ensures
            final(self).wf(),
            final(self).mapper.root == old(self).mapper.root,
            final(self).mapper.mem.spec_len() == old(self).mapper.mem.spec_len(),
            ok ==> final(self).mapper.spec_leaf_entry(page) == Some(
                spec_encode(frame.number, flags.bits | PRESENT),
            ),
            ok ==> final(self).mapper.spec_translate_page(page) == Some(frame.number as int),
            old(self).mapper.spec_translate_page(page) is Some ==> !ok && *final(self) == *old(
                self,
            ),
            old(self).mapper.spec_path_present(page) && old(self).mapper.spec_leaf_entry(page)
                == Some(0u64) ==> ok,
    {
        self.mapper.map_to(page, frame, flags, allocator)
    }

    /// Identity-maps `frame` in the active table.
    pub fn identity_map<A: FrameAllocator>(
        &mut self,
        frame: Frame,
        flags: EntryFlags,
        allocator: &mut A,
    ) -> (ok: bool)
        requires
            old(self).wf(),
            frame.number <= MAX_ENTRY_FRAME,
            (Page { number: frame.number }).p4_index_spec() != 511,
            flags.is_valid(),
        ensures
            final(self).wf(),
            final(self).mapper.root == old(self).mapper.root,
            final(self).mapper.mem.spec_len() == old(self).mapper.mem.spec_len(),
            ok ==> final(self).mapper.spec_translate_page(Page { number: frame.number }) == Some(
                frame.number as int,
            ),
            ok ==> final(self).mapper.spec_leaf_entry(Page { number: frame.number }) == Some(
                spec_encode(frame.number, flags.bits | PRESENT),
            ),
    {
        self.mapper.identity_map(frame, flags, allocator)
    }

    /// Unmaps `page` from the active table, returning its frame to the
    /// allocator.
    pub fn unmap<A: FrameAllocator>(&mut self, page: Page, allocator: &mut A) -> (ok: bool)
        requires
            old(self).wf(),
        ensures
            final(self).wf(),
            final(self).mapper.root == old(self).mapper.root,
            final(self).mapper.mem.spec_len() == old(self).mapper.mem.spec_len(),
            ok <==> (old(self).mapper.spec_leaf_entry(page) matches Some(e) && spec_present(e)),
            ok ==> final(self).mapper.spec_translate_page(page) is None,
            !ok ==> *final(self) == *old(self),
    {
        self.mapper.unmap(page, allocator)
    }

    /// Reads the P1 entry for `page` in the active table.
    pub fn p1_entry(&self, page: Page) -> (r: Option<crate::paging::entry::Entry>)
        requires
            self.wf(),
        ensures
            r matches Some(e) ==> self.mapper.spec_leaf_entry(page) == Some(e.value),
            r is None ==> self.mapper.spec_leaf_entry(page) is None,
    {
        self.mapper.p1_entry(page)
    }

    /// Loads `new_table` into the root-table register — the one point
    /// where the CPU's notion of the active table changes — and returns
    /// the previously active table as an inactive one. Physical memory
    /// itself is untouched.
    pub fn switch(&mut self, new_table: InactivePageTable) -> (old_table: InactivePageTable)
        requires
            old(self).wf(),
            new_table.p4_frame.number < old(self).mapper.mem.spec_len(),
        ensures
            final(self).wf(),
            final(self).mapper.mem == old(self).mapper.mem,
            final(self).mapper.root == new_table.p4_frame.number,
            old_table.p4_frame.number == old(self).mapper.root,
    {
        let old_table = InactivePageTable { p4_frame: Frame { number: self.mapper.root } };
        self.mapper.root = new_table.p4_frame.number;
        old_table
    }
}


impl InactivePageTable {
    /// Turns a fresh frame into a well-formed but unreachable P4 table:
    /// maps it through the temporary page, zeroes it, points its own
    /// entry 511 back at itself — establishing the recursive-mapping
    /// invariant for the new table before it is ever loaded — and
    /// removes the temporary mapping again. The frame must lie inside
    /// physical memory and must not already hold a table.
    pub fn new(
        frame: Frame,
        active_table: &mut ActivePageTable,
        temporary_page: &mut TemporaryPage,
    ) -> (r: Option<InactivePageTable>)
        requires
            old(active_table).wf(),
            old(temporary_page).wf(),
        ensures
            final(active_table).wf(),
            final(active_table).mapper.root == old(active_table).mapper.root,
            final(active_table).mapper.mem.spec_len() == old(active_table).mapper.mem.spec_len(),
            final(temporary_page).wf(),
            frame.number >= old(active_table).mapper.mem.spec_len() ==> r is None,
            old(active_table).mapper.mem.spec_has_table(frame.number as int) ==> r is None,
            r is Some ==> final(active_table).mapper.spec_translate_page(
                old(temporary_page).page,
            ) is None,
            r matches Some(t) ==> {
                &&& t.p4_frame == frame
                &&& frame.number < final(active_table).mapper.mem.spec_len()
                &&& frame.number != old(active_table).mapper.root
                &&& final(active_table).mapper.mem.spec_has_table(frame.number as int)
                &&& forall|j: int|
                    0 <= j < 512 && j != 511 ==> final(active_table).mapper.mem.spec_entry(
                        frame.number as int,
                        j,
                    ) == 0
                &&& final(active_table).mapper.mem.spec_entry(frame.number as int, 511)
                    == spec_encode(frame.number, WRITABLE | PRESENT)
            },
    {
        let fnum = frame.number;
        if fnum >= active_table.mapper.mem.num_frames() {
            return None;
        }
        if active_table.mapper.mem.has_table(fnum) {
            return None;
        }
        if !temporary_page.map_table_frame(frame, active_table) {
            return None;
        }
        if active_table.mapper.mem.has_table(fnum) {
            // One of the scratch tables for the temporary mapping landed
            // in the very frame that is to become the new P4 table.
            return None;
        }
        let ghost s1 = *active_table;
        let ghost pg = temporary_page.page;
        proof {
            assert((0x2u64 | 0x1u64) & 0x000f_ffff_ffff_f000u64 == 0 && (0x2u64 | 0x1u64)
                & 0x1u64 != 0) by (bit_vector);
            crate::paging::entry::lemma_encode(frame.number, WRITABLE | PRESENT);
            Mapper::lemma_translate_tables(s1.mapper, pg);
            crate::paging::mapper::lemma_present_nonzero(s1.mapper.spec_selfref());
            crate::paging::mapper::lemma_present_nonzero(
                s1.mapper.mem.spec_entry(s1.mapper.spec_leaf_slot(pg)->Some_0.0, s1.mapper.spec_leaf_slot(pg)->Some_0.1),
            );
        }
        active_table.mapper.place_zeroed_table(fnum);
        proof {
            assert(0x2u64 & 0x000f_ffff_ffff_f000u64 == 0 && 0x2u64 & 0x80u64 == 0)
                by (bit_vector);
        }
        active_table.mapper.write_table_entry(fnum, 511, frame, EntryFlags::new(WRITABLE));
        let ghost s3 = *active_table;
        proof {
            assert(s3.mapper.spec_selfref() == s1.mapper.spec_selfref());
            assert(s3.mapper.spec_leaf_slot(pg) == s1.mapper.spec_leaf_slot(pg));
            assert(s3.mapper.spec_leaf_entry(pg) == s1.mapper.spec_leaf_entry(pg));
        }
        if !temporary_page.unmap(active_table) {
            return None;
        }
        proof {
            let t1 = s3.mapper.spec_leaf_slot(pg)->Some_0.0;
            assert(t1 != fnum);
            assert(final(active_table).mapper.mem.spec_entry(fnum as int, 511) == spec_encode(
                frame.number,
                WRITABLE | PRESENT,
            ));
        }
        Some(InactivePageTable { p4_frame: frame })
    }
}


/// Validity of a batch of identity-mapping requests: every frame can be
/// encoded in an entry, lies outside the recursive-mapping region, and
/// carries flags that do not collide with the address field.
pub open spec fn spec_requests_ok(rs: Seq<MapRequest>) -> bool {
    forall|k: int|
        0 <= k < rs.len() ==> {
            &&& (#[trigger] rs[k]).frame.number <= MAX_ENTRY_FRAME
            &&& (Page { number: rs[k].frame.number }).p4_index_spec() != 511
            &&& rs[k].flags.is_valid()
        }
}

/// A frame inside the model's physical memory makes a canonical low-half
/// page outside the recursive-mapping region.
pub proof fn lemma_low_frame_page(n: u64)
    requires
        n < MAX_PHYS_FRAMES,
    ensures
        (Page { number: n }).p4_index_spec() != 511,
        n <= MAX_ENTRY_FRAME,
{
    assert(n < 0x8000_0000u64 ==> (n >> 27) & 0o777 != 511) by (bit_vector);
}

impl ActivePageTable {
    /// Edits the inactive `table` with the caller-supplied
    /// identity-mapping requests, using the ordinary mapper code: the
    /// backup of the active P4 frame is made reachable through the
    /// temporary page, the recursive slot is overwritten to point at the
    /// inactive table — from then on every mapper call transparently
    /// edits that table — the requests are applied, the slot is restored
    /// to self-reference, and the temporary mapping is removed. On
    /// hardware a full translation-cache flush follows each rewrite of
    /// the recursive slot; the model reads memory directly. Before
    /// returning, the function checks that the recursive slot again
    /// points at the active table — re-establishing it if not — and that
    /// every request is really mapped in the inactive table; it succeeds
    /// exactly when all of that holds.
    pub fn with<A: FrameAllocator>(
        &mut self,
        table: &InactivePageTable,
        temporary_page: &mut TemporaryPage,
        allocator: &mut A,
        requests: &Vec<MapRequest>,
    ) -> (ok: bool)
        requires
            old(self).wf(),
            old(temporary_page).wf(),
            spec_requests_ok(requests@),
        ensures
            final(self).wf(),
            final(self).mapper.root == old(self).mapper.root,
            final(self).mapper.mem.spec_len() == old(self).mapper.mem.spec_len(),
            final(temporary_page).wf(),
            table.p4_frame.number >= old(self).mapper.mem.spec_len() ==> !ok,
            old(self).spec_recursive_ok() ==> final(self).spec_recursive_ok(),
            ok ==> final(self).spec_recursive_ok(),
            forall|g: int, j: int|
                !(g == old(self).mapper.root && j == 511) && old(self).mapper.mem.spec_entry(g, j)
                    != 0 ==> final(self).mapper.mem.spec_entry(g, j) == old(
                    self,
                ).mapper.mem.spec_entry(g, j) || final(self).mapper.mem.spec_entry(g, j) == 0,
            ok ==> forall|kk: int|
                0 <= kk < requests.len() ==> {
                    &&& Mapper::spec_leaf_entry_at(
                        final(self).mapper.mem,
                        table.p4_frame.number as int,
                        Page { number: (#[trigger] requests@[kk]).frame.number },
                    ) == Some(
                        spec_encode(requests@[kk].frame.number, requests@[kk].flags.bits | PRESENT),
                    )
                    &&& Mapper::spec_walk(
                        final(self).mapper.mem,
                        table.p4_frame.number as int,
                        Page { number: requests@[kk].frame.number },
                    ) == Some(requests@[kk].frame.number as int)
                },
    {
        let ghost s0 = *self;
        let root = self.mapper.root;
        let backup = Frame::containing_address(root * PAGE_SIZE);
        proof {
            assert(root * 4096 / 4096 == root) by (nonlinear_arith);
        }
        if table.p4_frame.number >= self.mapper.mem.num_frames() {
            return false;
        }
        if !temporary_page.map_table_frame(backup, self) {
            proof {
                if s0.spec_recursive_ok() {
                    crate::paging::mapper::lemma_present_nonzero(s0.mapper.spec_selfref());
                }
            }
            return false;
        }
        if !self.mapper.mem.has_table(root) {
            proof {
                if s0.spec_recursive_ok() {
                    crate::paging::mapper::lemma_present_nonzero(s0.mapper.spec_selfref());
                    assert(false);
                }
            }
            return false;
        }
        proof {
            assert(0x2u64 & 0x000f_ffff_ffff_f000u64 == 0 && 0x2u64 & 0x80u64 == 0)
                by (bit_vector);
        }
        // Overwrite the recursive slot so that it points at the inactive
        // table; a full translation-cache flush follows on hardware.
        self.mapper.write_table_entry(root, 511, table.p4_frame, EntryFlags::new(WRITABLE));
        let mut all_ok = true;
        let mut k: usize = 0;
        while k < requests.len()
            invariant
                self.wf(),
                self.mapper.root == root,
                root == old(self).mapper.root,
                self.mapper.mem.spec_len() == old(self).mapper.mem.spec_len(),
                self.mapper.mem.spec_has_table(root as int),
                spec_requests_ok(requests@),
                k <= requests.len(),
                forall|g: int, j: int|
                    !(g == root && j == 511) && old(self).mapper.mem.spec_entry(g, j) != 0
                        ==> self.mapper.mem.spec_entry(g, j) == old(self).mapper.mem.spec_entry(
                        g,
                        j,
                    ),
            decreases requests.len() - k,
        {
            let req = requests[k];
            if !self.mapper.identity_map(req.frame, req.flags, allocator) {
                all_ok = false;
            }
            k = k + 1;
        }
        // Restore the recursive slot to self-reference; a second full
        // flush follows on hardware.
        self.mapper.write_table_entry(root, 511, backup, EntryFlags::new(WRITABLE));
        // Remove the temporary mapping of the backup frame.
        if !temporary_page.unmap(self) {
            all_ok = false;
        }
        // The restored slot must demonstrably lead back to the active
        // table, or every later mapper call would edit the wrong one; an
        // aliased hierarchy could have let the unmapping reach it, so
        // re-establish it where needed and treat that as a failure.
        let sr = self.mapper.mem.read_entry(root, 511);
        if sr & PRESENT == 0 || sr & HUGE_PAGE != 0 || (sr & ADDRESS_MASK) >> 12 != root {
            self.mapper.write_table_entry(root, 511, backup, EntryFlags::new(WRITABLE));
            all_ok = false;
        }
        // Check that every request really is mapped in the inactive
        // table before reporting success.
        let mut verified = true;
        let mut v: usize = 0;
        while v < requests.len()
            invariant
                self.wf(),
                spec_requests_ok(requests@),
                v <= requests.len(),
                verified ==> forall|kk: int|
                    0 <= kk < v ==> {
                        &&& Mapper::spec_leaf_entry_at(
                            self.mapper.mem,
                            table.p4_frame.number as int,
                            Page { number: (#[trigger] requests@[kk]).frame.number },
                        ) == Some(
                            spec_encode(
                                requests@[kk].frame.number,
                                requests@[kk].flags.bits | PRESENT,
                            ),
                        )
                        &&& Mapper::spec_walk(
                            self.mapper.mem,
                            table.p4_frame.number as int,
                            Page { number: requests@[kk].frame.number },
                        ) == Some(requests@[kk].frame.number as int)
                    },
            decreases requests.len() - v,
        {
            let req = requests[v];
            let expected = (req.frame.number << 12) | (req.flags.bits | PRESENT);
            match self.mapper.leaf_entry_at(
                table.p4_frame.number,
                Page { number: req.frame.number },
            ) {
                Some(e) => {
                    if e != expected {
                        verified = false;
                    } else {
                        proof {
                            let b = req.flags.bits;
                            assert((b | 0x1u64) & 0x000f_ffff_ffff_f000u64 == 0 && (b | 0x1u64)
                                & 0x1u64 != 0) by (bit_vector)
                                requires
                                    b & 0x000f_ffff_ffff_f000u64 == 0,
                            ;
                            crate::paging::entry::lemma_encode(
                                req.frame.number,
                                req.flags.bits | PRESENT,
                            );
                            crate::paging::mapper::lemma_leaf_entry_walk(
                                self.mapper.mem,
                                table.p4_frame.number as int,
                                Page { number: req.frame.number },
                                expected,
                            );
                        }
                    }
                },
                None => {
                    verified = false;
                },
            }
            v = v + 1;
        }
        all_ok && verified
    }
}

/// One section of the loaded kernel image, as the boot loader reports it:
/// start address, size in bytes, and its ELF flags.
#[derive(Debug, Clone, Copy, PartialEq, Eq, Structural)]
pub struct ElfSection {
    pub addr: u64,
    pub size: u64,
    pub flags: u64,
}

impl ElfSection {
    /// Whether the section occupies memory at run time and therefore
    /// needs a mapping.
    pub fn is_allocated(&self) -> (r: bool)
        ensures
            r == (self.flags & ELF_SECTION_ALLOCATED != 0),
    {
        self.flags & ELF_SECTION_ALLOCATED != 0
    }
}

/// The boot information the remapping needs, as plain values: the kernel's
/// ELF sections and the extent of the boot-information blob itself.
pub struct BootInfo {
    pub sections: Vec<ElfSection>,
    pub start_address: u64,
    pub end_address: u64,
}

/// Physical address of the text-mode display buffer.
pub const DISPLAY_BUFFER_ADDRESS: u64 = 0xb8000;

/// Page number reserved for the temporary mapping, far away from anything
/// the kernel occupies.
pub const TEMPORARY_PAGE_NUMBER: u64 = 0xdeadbeaf;

/// A section the remapping accepts: one that needs no mapping, or one
/// that is page-aligned, free of address overflow, and within the
/// model's physical memory.
pub open spec fn spec_section_ok(sec: ElfSection) -> bool {
    ||| sec.flags & ELF_SECTION_ALLOCATED == 0
    ||| sec.size == 0
    ||| {
        &&& sec.addr % PAGE_SIZE == 0
        &&& sec.size <= 0xffff_ffff_ffff_ffffu64 - sec.addr
        &&& (sec.addr + sec.size - 1) / (PAGE_SIZE as int) < MAX_PHYS_FRAMES
    }
}

/// The entry flag bits remapping owes the frames of section `si`.
pub open spec fn spec_section_bits(b: BootInfo, si: int) -> u64 {
    EntryFlags::spec_elf_entry_flags(b.sections[si].flags) | PRESENT
}

/// The identity mapping remapping owes for frame `f`: its P1 entry holds
/// exactly `f` with the given flag bits, and the page of number `f`
/// translates to frame `f`.
pub open spec fn spec_identity_mapped(at: ActivePageTable, f: int, bits: u64) -> bool {
    &&& at.mapper.spec_leaf_entry(Page { number: f as u64 }) == Some(
        spec_encode(f as u64, bits),
    )
    &&& at.mapper.spec_translate_page(Page { number: f as u64 }) == Some(f)
}

/// Replaces the boot-loader-provided mapping with a kernel-controlled
/// one: builds a fresh inactive table, fills it — identity mappings for
/// every allocated kernel section with flags derived from its ELF flags,
/// a writable one for the display buffer, read-only ones for the
/// boot-information blob — switches to it, and unmaps the page where the
/// old table's root frame was reachable, leaving a guard page there.
/// Before reporting success it re-walks the new table and checks every
/// owed mapping; on any failure the root register is restored to the old
/// table, and the caller must treat the failure as fatal, since a
/// half-built mapping cannot be rolled back.
pub fn remap_the_kernel<A: FrameAllocator>(
    active_table: &mut ActivePageTable,
    allocator: &mut A,
    boot_info: &BootInfo,
) -> (ok: bool)
    requires
        old(active_table).wf(),
    ensures
        final(active_table).wf(),
        final(active_table).mapper.mem.spec_len() == old(active_table).mapper.mem.spec_len(),
        !ok ==> final(active_table).mapper.root == old(active_table).mapper.root,
        ok ==> final(active_table).mapper.root != old(active_table).mapper.root,
        ok ==> final(active_table).spec_recursive_ok(),
        ok ==> final(active_table).mapper.spec_translate_page(
            Page { number: old(active_table).mapper.root },
        ) is None,
        ok ==> forall|si: int|
            0 <= si < boot_info.sections.len() ==> spec_section_ok(
                #[trigger] boot_info.sections@[si],
            ),
        ok ==> boot_info.end_address > boot_info.start_address,
        ok ==> (boot_info.end_address - 1) / (PAGE_SIZE as int) < MAX_PHYS_FRAMES,
        ok ==> forall|si: int, f: int|
            #![trigger spec_identity_mapped(*final(active_table), f, spec_section_bits(*boot_info, si))]
            0 <= si < boot_info.sections.len() && boot_info.sections@[si].flags
                & ELF_SECTION_ALLOCATED != 0 && boot_info.sections@[si].size > 0
                && boot_info.sections@[si].addr as int / (PAGE_SIZE as int) <= f <= (
            boot_info.sections@[si].addr + boot_info.sections@[si].size - 1) / (PAGE_SIZE as int)
                && f != old(active_table).mapper.root ==> spec_identity_mapped(
                *final(active_table),
                f,
                spec_section_bits(*boot_info, si),
            ),
        ok && DISPLAY_BUFFER_ADDRESS / PAGE_SIZE != old(active_table).mapper.root
            ==> spec_identity_mapped(
            *final(active_table),
            (DISPLAY_BUFFER_ADDRESS / PAGE_SIZE) as int,
            WRITABLE | PRESENT,
        ),
        ok ==> forall|f: int|
            boot_info.start_address as int / (PAGE_SIZE as int) <= f <= (boot_info.end_address - 1) / (
            PAGE_SIZE as int) && f != old(active_table).mapper.root
                ==> #[trigger] spec_identity_mapped(*final(active_table), f, PRESENT),
{
    proof {
        assert((0xdeadbeafu64 >> 27) & 0o777 != 511) by (bit_vector);
    }
    let mut temporary_page = match TemporaryPage::new(
        Page { number: TEMPORARY_PAGE_NUMBER },
        allocator,
    ) {
        Some(t) => t,
        None => {
            return false;
        },
    };
    let frame = match allocator.allocate_frame() {
        Some(f) => f,
        None => {
            return false;
        },
    };
    let new_table = match InactivePageTable::new(frame, active_table, &mut temporary_page) {
        Some(t) => t,
        None => {
            return false;
        },
    };
    let mut requests: Vec<MapRequest> = Vec::new();
    let mut si: usize = 0;
    while si < boot_info.sections.len()
        invariant
            active_table.wf(),
            active_table.mapper.root == old(active_table).mapper.root,
            active_table.mapper.mem.spec_len() == old(active_table).mapper.mem.spec_len(),
            spec_requests_ok(requests@),
            si <= boot_info.sections.len(),
            forall|si2: int|
                0 <= si2 < si ==> spec_section_ok(#[trigger] boot_info.sections@[si2]),
        decreases boot_info.sections.len() - si,
    {
        let sec = boot_info.sections[si];
        if sec.is_allocated() && sec.size > 0 {
            if sec.addr % PAGE_SIZE != 0 {
                // The loader must hand over page-aligned sections.
                return false;
            }
            if sec.size > u64::MAX - sec.addr {
                return false;
            }
            let last = sec.addr + sec.size - 1;
            if last / PAGE_SIZE >= MAX_PHYS_FRAMES {
                return false;
            }
            let section_flags = EntryFlags::from_elf_section_flags(sec.flags);
            let start = Frame::containing_address(sec.addr);
            let end = Frame::containing_address(last);
            let mut frames = Frame::range_inclusive(start, end);
            while frames.start.number <= frames.end.number
                invariant
                    spec_requests_ok(requests@),
                    frames.end == end,
                    end.number < MAX_PHYS_FRAMES,
                    section_flags.is_valid(),
                decreases frames.end.number + 1 - frames.start.number,
            {
                match frames.next() {
                    Some(f) => {
                        proof {
                            lemma_low_frame_page(f.number);
                        }
                        requests.push(MapRequest { frame: f, flags: section_flags });
                    },
                    None => {},
                }
            }
        }
        si = si + 1;
    }
    // The display buffer, writable.
    proof {
        lemma_low_frame_page(DISPLAY_BUFFER_ADDRESS / PAGE_SIZE);
        assert(0x2u64 & 0x000f_ffff_ffff_f000u64 == 0) by (bit_vector);
        assert(0x1u64 & 0x000f_ffff_ffff_f000u64 == 0) by (bit_vector);
    }
    requests.push(
        MapRequest {
            frame: Frame::containing_address(DISPLAY_BUFFER_ADDRESS),
            flags: EntryFlags::new(WRITABLE),
        },
    );
    // The boot-information blob, present but read-only.
    if boot_info.end_address == 0 || boot_info.end_address <= boot_info.start_address {
        return false;
    }
    let mb_last = boot_info.end_address - 1;
    if mb_last / PAGE_SIZE >= MAX_PHYS_FRAMES {
        return false;
    }
    let mb_start = Frame::containing_address(boot_info.start_address);
    let mb_end = Frame::containing_address(mb_last);
    let mut mb_frames = Frame::range_inclusive(mb_start, mb_end);
    while mb_frames.start.number <= mb_frames.end.number
        invariant
            spec_requests_ok(requests@),
            mb_frames.end == mb_end,
            mb_end.number < MAX_PHYS_FRAMES,
        decreases mb_frames.end.number + 1 - mb_frames.start.number,
    {
        match mb_frames.next() {
            Some(f) => {
                proof {
                    lemma_low_frame_page(f.number);
                    assert(0x1u64 & 0x000f_ffff_ffff_f000u64 == 0) by (bit_vector);
                }
                requests.push(MapRequest { frame: f, flags: EntryFlags::new(PRESENT) });
            },
            None => {},
        }
    }
    if !active_table.with(&new_table, &mut temporary_page, allocator, &requests) {
        return false;
    }
    let old_table = active_table.switch(new_table);
    let old_root = old_table.p4_frame.number;
    proof {
        assert(old_root * 4096 < 0x0000_8000_0000_0000u64) by (nonlinear_arith)
            requires
                old_root < 0x8000_0000u64,
        ;
        assert(old_root * 4096 / 4096 == old_root) by (nonlinear_arith);
    }
    let old_p4_page = Page::containing_address(old_table.p4_frame.start_address());
    if !active_table.unmap(old_p4_page, allocator) {
        let _rolled = active_table.switch(InactivePageTable { p4_frame: Frame { number: old_root } });
        return false;
    }
    // The recursive slot of the now-active table must still point back at
    // it: the unmapping of the guard page must not have touched it.
    let new_root = active_table.mapper.root;
    let sr = active_table.mapper.mem.read_entry(new_root, 511);
    if sr & PRESENT == 0 || sr & HUGE_PAGE != 0 || (sr & ADDRESS_MASK) >> 12 != new_root {
        let _rolled = active_table.switch(InactivePageTable { p4_frame: Frame { number: old_root } });
        return false;
    }
    // Re-walk the new table and check every owed mapping of the produced
    // surface before reporting success.
    let mut surface_ok = true;
    let mut vsi: usize = 0;
    while vsi < boot_info.sections.len()
        invariant
            active_table.wf(),
            vsi <= boot_info.sections.len(),
            forall|si2: int|
                0 <= si2 < boot_info.sections.len() ==> spec_section_ok(
                    #[trigger] boot_info.sections@[si2],
                ),
            surface_ok ==> forall|si2: int, f: int|
                #![trigger spec_identity_mapped(*active_table, f, spec_section_bits(*boot_info, si2))]
                0 <= si2 < vsi && boot_info.sections@[si2].flags & ELF_SECTION_ALLOCATED != 0
                    && boot_info.sections@[si2].size > 0 && boot_info.sections@[si2].addr as int
                    / (PAGE_SIZE as int) <= f <= (boot_info.sections@[si2].addr
                    + boot_info.sections@[si2].size - 1) / (PAGE_SIZE as int) && f != old_root
                    ==> spec_identity_mapped(*active_table, f, spec_section_bits(*boot_info, si2)),
        decreases boot_info.sections.len() - vsi,
    {
        let sec = boot_info.sections[vsi];
        if sec.is_allocated() && sec.size > 0 {
            proof {
                assert(spec_section_ok(boot_info.sections@[vsi as int]));
            }
            let last = sec.addr + sec.size - 1;
            let vflags = EntryFlags::from_elf_section_flags(sec.flags);
            let mut fk: u64 = sec.addr / PAGE_SIZE;
            let fend: u64 = last / PAGE_SIZE;
            while fk <= fend
                invariant
                    active_table.wf(),
                    sec == boot_info.sections@[vsi as int],
                    0 <= vsi < boot_info.sections.len(),
                    sec.flags & ELF_SECTION_ALLOCATED != 0,
                    sec.size > 0,
                    vflags.bits == EntryFlags::spec_elf_entry_flags(sec.flags),
                    vflags.is_valid(),
                    fend == (sec.addr + sec.size - 1) / (PAGE_SIZE as int),
                    fend < MAX_PHYS_FRAMES,
                    sec.addr as int / (PAGE_SIZE as int) <= fk,
                    surface_ok ==> forall|si2: int, f: int|
                        #![trigger spec_identity_mapped(*active_table, f, spec_section_bits(*boot_info, si2))]
                        0 <= si2 < vsi && boot_info.sections@[si2].flags & ELF_SECTION_ALLOCATED
                            != 0 && boot_info.sections@[si2].size > 0
                            && boot_info.sections@[si2].addr as int / (PAGE_SIZE as int) <= f <= (
                        boot_info.sections@[si2].addr + boot_info.sections@[si2].size - 1) / (
                        PAGE_SIZE as int) && f != old_root ==> spec_identity_mapped(
                            *active_table,
                            f,
                            spec_section_bits(*boot_info, si2),
                        ),
                    surface_ok ==> forall|f: int|
                        sec.addr as int / (PAGE_SIZE as int) <= f < fk && f != old_root
                            ==> #[trigger] spec_identity_mapped(
                            *active_table,
                            f,
                            spec_section_bits(*boot_info, vsi as int),
                        ),
                decreases fend + 1 - fk,
            {
                if fk != old_root {
                    let page = Page { number: fk };
                    let expected = (fk << 12) | (vflags.bits | PRESENT);
                    let good = match active_table.p1_entry(page) {
                        Some(e) => e.value == expected,
                        None => false,
                    };
                    if !good {
                        surface_ok = false;
                    } else {
                        proof {
                            let b = vflags.bits;
                            assert((b | 0x1u64) & 0x000f_ffff_ffff_f000u64 == 0 && (b | 0x1u64)
                                & 0x1u64 != 0) by (bit_vector)
                                requires
                                    b & 0x000f_ffff_ffff_f000u64 == 0,
                            ;
                            crate::paging::entry::lemma_encode(fk, vflags.bits | PRESENT);
                            crate::paging::mapper::lemma_leaf_entry_translate(
                                active_table.mapper,
                                page,
                                expected,
                            );
                        }
                    }
                }
                fk = fk + 1;
            }
        }
        vsi = vsi + 1;
    }
    // The display buffer.
    if DISPLAY_BUFFER_ADDRESS / PAGE_SIZE != old_root {
        let page = Page { number: DISPLAY_BUFFER_ADDRESS / PAGE_SIZE };
        let expected = (DISPLAY_BUFFER_ADDRESS / PAGE_SIZE) << 12 | (WRITABLE | PRESENT);
        let good = match active_table.p1_entry(page) {
            Some(e) => e.value == expected,
            None => false,
        };
        if !good {
            surface_ok = false;
        } else {
            proof {
                assert((0x2u64 | 0x1u64) & 0x000f_ffff_ffff_f000u64 == 0 && (0x2u64 | 0x1u64)
                    & 0x1u64 != 0) by (bit_vector);
                crate::paging::entry::lemma_encode(
                    DISPLAY_BUFFER_ADDRESS / PAGE_SIZE,
                    WRITABLE | PRESENT,
                );
                crate::paging::mapper::lemma_leaf_entry_translate(
                    active_table.mapper,
                    page,
                    expected,
                );
            }
        }
    }
    // The boot-information frames.
    let mut bk: u64 = boot_info.start_address / PAGE_SIZE;
    let bend: u64 = mb_last / PAGE_SIZE;
    while bk <= bend
        invariant
            active_table.wf(),
            bend == (boot_info.end_address - 1) / (PAGE_SIZE as int),
            bend < MAX_PHYS_FRAMES,
            boot_info.start_address as int / (PAGE_SIZE as int) <= bk,
            surface_ok ==> forall|si2: int, f: int|
                #![trigger spec_identity_mapped(*active_table, f, spec_section_bits(*boot_info, si2))]
                0 <= si2 < boot_info.sections.len() && boot_info.sections@[si2].flags
                    & ELF_SECTION_ALLOCATED != 0 && boot_info.sections@[si2].size > 0
                    && boot_info.sections@[si2].addr as int / (PAGE_SIZE as int) <= f <= (
                boot_info.sections@[si2].addr + boot_info.sections@[si2].size - 1) / (
                PAGE_SIZE as int) && f != old_root ==> spec_identity_mapped(
                    *active_table,
                    f,
                    spec_section_bits(*boot_info, si2),
                ),
            surface_ok && DISPLAY_BUFFER_ADDRESS / PAGE_SIZE != old_root
                ==> spec_identity_mapped(
                *active_table,
                (DISPLAY_BUFFER_ADDRESS / PAGE_SIZE) as int,
                WRITABLE | PRESENT,
            ),
            surface_ok ==> forall|f: int|
                boot_info.start_address as int / (PAGE_SIZE as int) <= f < bk && f != old_root
                    ==> #[trigger] spec_identity_mapped(*active_table, f, PRESENT),
        decreases bend + 1 - bk,
    {
        if bk != old_root {
            let page = Page { number: bk };
            let expected = (bk << 12) | PRESENT;
            let good = match active_table.p1_entry(page) {
                Some(e) => e.value == expected,
                None => false,
            };
            if !good {
                surface_ok = false;
            } else {
                proof {
                    assert(0x1u64 & 0x000f_ffff_ffff_f000u64 == 0 && 0x1u64 & 0x1u64 != 0
                        && (0x1u64 | 0x1u64) == 0x1u64) by (bit_vector);
                    crate::paging::entry::lemma_encode(bk, PRESENT);
                    crate::paging::mapper::lemma_leaf_entry_translate(
                        active_table.mapper,
                        page,
                        expected,
                    );
                }
            }
        }
        bk = bk + 1;
    }
    if !surface_ok {
        let _rolled = active_table.switch(InactivePageTable { p4_frame: Frame { number: old_root } });
        return false;
    }
    true
}

} // verus!
