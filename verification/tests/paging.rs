use kernel_paging::memory::Frame;
use kernel_paging::memory::FrameAllocator;
use kernel_paging::memory::PAGE_SIZE;
use kernel_paging::paging::ActivePageTable;
use kernel_paging::paging::Page;
use kernel_paging::paging::entry::ADDRESS_MASK;
use kernel_paging::paging::entry::ELF_SECTION_ALLOCATED;
use kernel_paging::paging::entry::ELF_SECTION_EXECUTABLE;
use kernel_paging::paging::entry::ELF_SECTION_WRITABLE;
use kernel_paging::paging::entry::Entry;
use kernel_paging::paging::entry::EntryFlags;
use kernel_paging::paging::entry::NO_EXECUTE;
use kernel_paging::paging::entry::PRESENT;
use kernel_paging::paging::entry::WRITABLE;
use kernel_paging::paging::table::Table;

/// Hands out consecutive frame numbers and records every frame given back.
struct SeqAllocator {
    next: u64,
    limit: u64,
    freed: Vec<u64>,
}

impl SeqAllocator {
    fn new(first: u64, limit: u64) -> SeqAllocator {
        SeqAllocator { next: first, limit, freed: Vec::new() }
    }
}

impl FrameAllocator for SeqAllocator {
    fn allocate_frame(&mut self) -> Option<Frame> {
        if self.next < self.limit {
            let number = self.next;
            self.next += 1;
            Some(Frame { number })
        } else {
            None
        }
    }

    fn deallocate_frame(&mut self, frame: Frame) {
        self.freed.push(frame.number);
    }
}

fn machine(num_frames: u64) -> ActivePageTable {
    ActivePageTable::new(num_frames, Frame { number: 0 }).unwrap()
}

#[test]
fn page_contains_its_addresses() {
    for &address in &[0u64, 1, 4095, 4096, 0x1234_5678, 0x7fff_ffff_ffff, 0xffff_ffff_ffff_ffff] {
        let page = Page::containing_address(address);
        let start = page.number * PAGE_SIZE;
        assert!(start <= address);
        assert!(address - start < PAGE_SIZE);
    }
}

#[test]
fn noncanonical_addresses_rejected() {
    assert!(Page::checked_containing_address(0x0000_8000_0000_0000).is_none());
    assert!(Page::checked_containing_address(0x1234_5678_9abc_def0).is_none());
    assert!(Page::checked_containing_address(0xffff_7fff_ffff_ffff).is_none());
    assert!(Page::checked_containing_address(0x0000_7fff_ffff_ffff).is_some());
    assert!(Page::checked_containing_address(0xffff_8000_0000_0000).is_some());
    assert!(Page::checked_containing_address(0).is_some());
}

#[test]
fn index_round_trip() {
    for &number in &[0u64, 1, 511, 512, 0xb8, 0x100, 0xdeadbeaf, 0xf_ffff_ffff] {
        let page = Page { number };
        let rebuilt =
            (page.p4_index() << 27) | (page.p3_index() << 18) | (page.p2_index() << 9)
                | page.p1_index();
        assert_eq!(rebuilt, number);
    }
}

#[test]
fn zeroed_table_has_no_entries() {
    let mut table = Table::new();
    table.set_entry(7, Entry { value: 0x1234_5003 });
    table.zero();
    for index in 0..512u64 {
        assert!(table.entry(index).is_unused());
        assert!(table.entry(index).pointed_frame().is_none());
        assert!(table.next_table(index).is_none());
    }
}

#[test]
fn map_then_translate() {
    let mut active = machine(4096);
    let mut allocator = SeqAllocator::new(100, 4096);
    let page = Page::containing_address(0x40_0000);
    let frame = active
        .map(page, EntryFlags::new(WRITABLE), &mut allocator)
        .expect("mapping must succeed");
    let physical = active.translate(0x40_0000).expect("the page must translate");
    assert_eq!(physical, frame.number * PAGE_SIZE);
    let inside = active.translate(0x40_0123).expect("every address of the page translates");
    assert_eq!(inside, frame.number * PAGE_SIZE + 0x123);
}

#[test]
fn map_then_unmap_frees_the_frame_once() {
    let mut active = machine(4096);
    let mut allocator = SeqAllocator::new(100, 4096);
    let page = Page::containing_address(0x40_0000);
    let frame = active
        .map(page, EntryFlags::new(WRITABLE), &mut allocator)
        .expect("mapping must succeed");
    assert!(active.unmap(page, &mut allocator));
    assert!(active.translate(0x40_0000).is_none());
    assert!(active.translate(0x40_0fff).is_none());
    assert_eq!(allocator.freed, vec![frame.number]);
}

#[test]
fn mapping_a_mapped_page_is_rejected() {
    let mut active = machine(4096);
    let mut allocator = SeqAllocator::new(100, 4096);
    let page = Page::containing_address(0x40_0000);
    let frame = active
        .map(page, EntryFlags::new(WRITABLE), &mut allocator)
        .expect("mapping must succeed");
    assert!(!active.map_to(page, Frame { number: 77 }, EntryFlags::new(0), &mut allocator));
    assert!(active.map(page, EntryFlags::new(0), &mut allocator).is_none());
    // The existing mapping was not silently overwritten.
    assert_eq!(active.translate(0x40_0000), Some(frame.number * PAGE_SIZE));
}

#[test]
fn unmap_of_unmapped_page_is_rejected() {
    let mut active = machine(4096);
    let mut allocator = SeqAllocator::new(100, 4096);
    assert!(!active.unmap(Page::containing_address(0x40_0000), &mut allocator));
    assert!(allocator.freed.is_empty());
}

#[test]
fn map_fails_when_allocator_is_exhausted() {
    let mut active = machine(4096);
    let mut empty = SeqAllocator::new(0, 0);
    let page = Page::containing_address(0x40_0000);
    assert!(active.map(page, EntryFlags::new(0), &mut empty).is_none());
    assert!(active.translate(0x40_0000).is_none());
}

#[test]
fn single_frame_range() {
    let mut range = Frame::range_inclusive(Frame { number: 5 }, Frame { number: 5 });
    assert_eq!(range.next(), Some(Frame { number: 5 }));
    assert_eq!(range.next(), None);
}

#[test]
fn frame_range_is_inclusive_and_ordered() {
    let mut range = Frame::range_inclusive(Frame { number: 3 }, Frame { number: 6 });
    let mut seen = Vec::new();
    while let Some(f) = range.next() {
        seen.push(f.number);
    }
    assert_eq!(seen, vec![3, 4, 5, 6]);
    let mut empty = Frame::range_inclusive(Frame { number: 6 }, Frame { number: 3 });
    assert_eq!(empty.next(), None);
}

#[test]
fn frame_address_arithmetic() {
    assert_eq!(Frame::containing_address(0).number, 0);
    assert_eq!(Frame::containing_address(4095).number, 0);
    assert_eq!(Frame::containing_address(4096).number, 1);
    assert_eq!(Frame::containing_address(0xb8000).number, 0xb8);
    assert_eq!(Frame { number: 0xb8 }.start_address(), 0xb8000);
}

#[test]
fn entry_encodes_frame_and_flags() {
    let mut entry = Entry { value: 0 };
    assert!(entry.is_unused());
    entry.set(Frame { number: 0x1234 }, EntryFlags::new(PRESENT | WRITABLE));
    assert!(!entry.is_unused());
    assert_eq!(entry.value & ADDRESS_MASK, 0x1234 * PAGE_SIZE);
    assert_eq!(entry.pointed_frame(), Some(Frame { number: 0x1234 }));
    assert!(entry.flags().contains(PRESENT));
    assert!(entry.flags().contains(WRITABLE));
    assert!(!entry.flags().contains(NO_EXECUTE));
    entry.set_unused();
    assert!(entry.is_unused());
    assert_eq!(entry.pointed_frame(), None);
}

#[test]
fn elf_flags_translate_to_entry_flags() {
    let data = EntryFlags::from_elf_section_flags(ELF_SECTION_ALLOCATED | ELF_SECTION_WRITABLE);
    assert_eq!(data.bits, PRESENT | WRITABLE | NO_EXECUTE);
    let text = EntryFlags::from_elf_section_flags(ELF_SECTION_ALLOCATED | ELF_SECTION_EXECUTABLE);
    assert_eq!(text.bits, PRESENT);
    let rodata = EntryFlags::from_elf_section_flags(ELF_SECTION_ALLOCATED);
    assert_eq!(rodata.bits, PRESENT | NO_EXECUTE);
    let unallocated = EntryFlags::from_elf_section_flags(0);
    assert_eq!(unallocated.bits, NO_EXECUTE);
}

#[test]
fn bootstrap_rejects_bad_machines() {
    assert!(ActivePageTable::new(16, Frame { number: 16 }).is_none());
    assert!(ActivePageTable::new(0, Frame { number: 0 }).is_none());
    assert!(ActivePageTable::new(0x8000_0001, Frame { number: 0 }).is_none());
    assert!(ActivePageTable::new(16, Frame { number: 15 }).is_some());
}

#[test]
fn index_round_trip_stops_at_sign_extension() {
    // A high-half page carries sign-extension bits above bit 35 that the
    // four indices cannot record: the rebuilt number keeps only the low
    // 36 bits.
    let page = Page { number: 0xffff_8000_0000_0000u64 / PAGE_SIZE };
    let rebuilt =
        (page.p4_index() << 27) | (page.p3_index() << 18) | (page.p2_index() << 9)
            | page.p1_index();
    assert_ne!(rebuilt, page.number);
    assert_eq!(rebuilt, page.number & 0xf_ffff_ffff);
}
