use kernel_paging::memory::Frame;
use kernel_paging::memory::FrameAllocator;
use kernel_paging::memory::PAGE_SIZE;
use kernel_paging::paging::ActivePageTable;
use kernel_paging::paging::BootInfo;
use kernel_paging::paging::ElfSection;
use kernel_paging::paging::InactivePageTable;
use kernel_paging::paging::Page;
use kernel_paging::paging::entry::ELF_SECTION_ALLOCATED;
use kernel_paging::paging::entry::ELF_SECTION_WRITABLE;
use kernel_paging::paging::entry::PRESENT;
use kernel_paging::paging::entry::WRITABLE;
use kernel_paging::paging::remap_the_kernel;
use kernel_paging::paging::temporary_page::TemporaryPage;

/// Hands out consecutive frame numbers and records every frame given back.
struct SeqAllocator {
    next: u64,
    limit: u64,
    freed: Vec<u64>,
}

impl SeqAllocator {
    fn new(first: u64, limit: u64) -> SeqAllocator {
        SeqAllocator { next: first, limit, freed: Vec::new() }
    }
}

impl FrameAllocator for SeqAllocator {
    fn allocate_frame(&mut self) -> Option<Frame> {
        if self.next < self.limit {
            let number = self.next;
            self.next += 1;
            Some(Frame { number })
        } else {
            None
        }
    }

    fn deallocate_frame(&mut self, frame: Frame) {
        self.freed.push(frame.number);
    }
}

/// A machine whose boot-loader table sits in frame 0x101 — inside the
/// kernel image, as it does after a real boot — with frames for the
/// allocator from 0x1000 up.
fn boot_machine() -> (ActivePageTable, SeqAllocator) {
    let active = ActivePageTable::new(0x2000, Frame { number: 0x101 }).unwrap();
    let allocator = SeqAllocator::new(0x1000, 0x2000);
    (active, allocator)
}

fn sample_boot_info() -> BootInfo {
    BootInfo {
        sections: vec![
            ElfSection {
                addr: 0x100000,
                size: 0x2000,
                flags: ELF_SECTION_ALLOCATED | ELF_SECTION_WRITABLE,
            },
        ],
        start_address: 0x200000,
        end_address: 0x201000,
    }
}

#[test]
fn remap_maps_kernel_section_writable() {
    let (mut active, mut allocator) = boot_machine();
    assert!(remap_the_kernel(&mut active, &mut allocator, &sample_boot_info()));
    assert_eq!(active.translate(0x100000), Some(0x100000));
    let entry = active
        .p1_entry(Page::containing_address(0x100000))
        .expect("the section's P1 entry exists");
    assert!(entry.flags().contains(PRESENT));
    assert!(entry.flags().contains(WRITABLE));
}

#[test]
fn remap_maps_display_buffer_writable() {
    let (mut active, mut allocator) = boot_machine();
    assert!(remap_the_kernel(&mut active, &mut allocator, &sample_boot_info()));
    assert_eq!(active.translate(0xb8000), Some(0xb8000));
    let entry = active
        .p1_entry(Page::containing_address(0xb8000))
        .expect("the display buffer's P1 entry exists");
    assert!(entry.flags().contains(PRESENT));
    assert!(entry.flags().contains(WRITABLE));
}

#[test]
fn remap_maps_boot_info_read_only() {
    let (mut active, mut allocator) = boot_machine();
    assert!(remap_the_kernel(&mut active, &mut allocator, &sample_boot_info()));
    assert_eq!(active.translate(0x200000), Some(0x200000));
    let entry = active
        .p1_entry(Page::containing_address(0x200000))
        .expect("the boot-information P1 entry exists");
    assert!(entry.flags().contains(PRESENT));
    assert!(!entry.flags().contains(WRITABLE));
}

#[test]
fn remap_leaves_guard_page_over_old_table() {
    let (mut active, mut allocator) = boot_machine();
    let old_root_address = 0x101u64 * PAGE_SIZE;
    assert!(remap_the_kernel(&mut active, &mut allocator, &sample_boot_info()));
    assert!(active.translate(old_root_address).is_none());
    assert!(active.translate(old_root_address + 0x123).is_none());
    assert!(active.translate(old_root_address + PAGE_SIZE - 1).is_none());
}

#[test]
fn remap_rejects_unaligned_section() {
    let (mut active, mut allocator) = boot_machine();
    let boot_info = BootInfo {
        sections: vec![
            ElfSection { addr: 0x100010, size: 0x100, flags: ELF_SECTION_ALLOCATED },
        ],
        start_address: 0x200000,
        end_address: 0x201000,
    };
    assert!(!remap_the_kernel(&mut active, &mut allocator, &boot_info));
}

#[test]
fn remap_skips_unallocated_and_empty_sections() {
    let (mut active, mut allocator) = boot_machine();
    let boot_info = BootInfo {
        sections: vec![
            // Not allocated: the unaligned address must not matter.
            ElfSection { addr: 0x100010, size: 0x100, flags: 0 },
            // Allocated but empty: nothing to map.
            ElfSection { addr: 0x300000, size: 0, flags: ELF_SECTION_ALLOCATED },
            // The image part holding the boot-loader's tables.
            ElfSection { addr: 0x101000, size: 0x1000, flags: ELF_SECTION_ALLOCATED },
        ],
        start_address: 0x200000,
        end_address: 0x201000,
    };
    assert!(remap_the_kernel(&mut active, &mut allocator, &boot_info));
    assert!(active.translate(0x100000).is_none());
    assert!(active.translate(0x300000).is_none());
}

#[test]
fn remap_fails_on_exhausted_allocator() {
    let mut active = ActivePageTable::new(0x2000, Frame { number: 0x101 }).unwrap();
    let mut allocator = SeqAllocator::new(0x1000, 0x1002);
    assert!(!remap_the_kernel(&mut active, &mut allocator, &sample_boot_info()));
}

#[test]
fn switch_swaps_active_and_inactive() {
    let (mut active, mut allocator) = boot_machine();
    let mut temporary_page =
        TemporaryPage::new(Page { number: 0xcafe }, &mut allocator).unwrap();
    let frame = allocator.allocate_frame().unwrap();
    let new_table =
        InactivePageTable::new(frame, &mut active, &mut temporary_page).unwrap();
    let old_table = active.switch(new_table);
    assert_eq!(old_table.p4_frame.number, 0x101);
}

#[test]
fn inactive_table_rejects_frame_already_holding_a_table() {
    let (mut active, mut allocator) = boot_machine();
    let mut temporary_page =
        TemporaryPage::new(Page { number: 0xcafe }, &mut allocator).unwrap();
    // Frame 0x101 holds the active table itself.
    assert!(InactivePageTable::new(Frame { number: 0x101 }, &mut active, &mut temporary_page)
        .is_none());
}

#[test]
fn temporary_page_needs_scratch_frames() {
    let mut empty = SeqAllocator::new(0, 0);
    assert!(TemporaryPage::new(Page { number: 0xcafe }, &mut empty).is_none());
}

#[test]
fn temporary_page_maps_and_unmaps() {
    let (mut active, mut allocator) = boot_machine();
    let mut temporary_page =
        TemporaryPage::new(Page { number: 0xcafe }, &mut allocator).unwrap();
    let frame = allocator.allocate_frame().unwrap();
    assert!(temporary_page.map_table_frame(frame, &mut active));
    assert_eq!(
        active.translate(0xcafe * PAGE_SIZE),
        Some(frame.number * PAGE_SIZE),
    );
    assert!(temporary_page.unmap(&mut active));
    assert!(active.translate(0xcafe * PAGE_SIZE).is_none());
}

#[test]
fn remap_rejects_empty_boot_range() {
    let (mut active, mut allocator) = boot_machine();
    let boot_info = BootInfo {
        sections: vec![
            ElfSection {
                addr: 0x100000,
                size: 0x2000,
                flags: ELF_SECTION_ALLOCATED | ELF_SECTION_WRITABLE,
            },
        ],
        start_address: 0x200000,
        end_address: 0x200000,
    };
    assert!(!remap_the_kernel(&mut active, &mut allocator, &boot_info));
}
