use yos_kernel::allocator::{init_heap, HEAP_PAGE_COUNT, HEAP_SIZE, HEAP_START};
use yos_kernel::memory::{
    init_bootloader_frame_allocator, BootloaderFrameAllocator, MapError, MemoryRegion, PageMapper,
    FRAME_SIZE,
};

fn usable(start: u64, end: u64) -> MemoryRegion {
    MemoryRegion { start, end, usable: true }
}

fn reserved(start: u64, end: u64) -> MemoryRegion {
    MemoryRegion { start, end, usable: false }
}

fn frames_region(start: u64, frames: u64) -> MemoryRegion {
    usable(start, start + frames * FRAME_SIZE)
}

#[test]
fn frames_come_from_usable_regions_in_ascending_order() {
    let regions = vec![
        usable(0x1000, 0x3000),
        reserved(0x3000, 0x5000),
        usable(0x5000, 0x6000),
    ];
    let mut fa = init_bootloader_frame_allocator(regions);
    assert_eq!(fa.allocate_frame(), Some(0x1000));
    assert_eq!(fa.allocate_frame(), Some(0x2000));
    assert_eq!(fa.allocate_frame(), Some(0x5000));
    assert_eq!(fa.allocate_frame(), None);
    assert_eq!(fa.allocate_frame(), None);
}

#[test]
fn unaligned_region_steps_map_to_containing_frames() {
    // Steps 0x1800 and 0x2800 fall into the frames at 0x1000 and 0x2000.
    let regions = vec![usable(0x1800, 0x3800)];
    let mut fa = init_bootloader_frame_allocator(regions);
    assert_eq!(fa.allocate_frame(), Some(0x1000));
    assert_eq!(fa.allocate_frame(), Some(0x2000));
    assert_eq!(fa.allocate_frame(), None);
}

#[test]
fn empty_and_reserved_maps_yield_no_frames() {
    let mut fa = init_bootloader_frame_allocator(Vec::new());
    assert_eq!(fa.allocate_frame(), None);
    let mut fa = init_bootloader_frame_allocator(vec![reserved(0, 0x10_0000)]);
    assert_eq!(fa.allocate_frame(), None);
    let mut fa = init_bootloader_frame_allocator(vec![usable(0x2000, 0x2000)]);
    assert_eq!(fa.allocate_frame(), None);
}

#[test]
fn map_to_rejects_a_second_translation_for_the_same_page() {
    let mut mapper = PageMapper::new();
    assert!(mapper.map_to(0x1000, 0x7000, true).is_ok());
    assert_eq!(mapper.map_to(0x1000, 0x8000, true), Err(MapError::PageAlreadyMapped));
    assert_eq!(mapper.translation(0x1000), Some(0x7000));
    assert_eq!(mapper.translation(0x2000), None);
}

#[test]
fn heap_init_succeeds_with_exactly_enough_frames() {
    assert_eq!(HEAP_PAGE_COUNT, (HEAP_SIZE - 1) / FRAME_SIZE + 1);
    let regions = vec![frames_region(0x10_0000, HEAP_PAGE_COUNT)];
    let mut fa = init_bootloader_frame_allocator(regions);
    let mut mapper = PageMapper::new();
    assert_eq!(init_heap(&mut mapper, &mut fa), Ok(()));
    // Every heap page is mapped, in ascending page order, to the frames in
    // allocation order.
    for i in 0..HEAP_PAGE_COUNT {
        let page = HEAP_START + i * FRAME_SIZE;
        assert_eq!(mapper.translation(page), Some(0x10_0000 + i * FRAME_SIZE));
    }
    assert_eq!(mapper.translation(HEAP_START + HEAP_PAGE_COUNT * FRAME_SIZE), None);
    // The frame source was drained by exactly the heap's page count.
    assert_eq!(fa.allocate_frame(), None);
}

#[test]
fn heap_init_fails_with_one_frame_short() {
    let regions = vec![frames_region(0x10_0000, HEAP_PAGE_COUNT - 1)];
    let mut fa = init_bootloader_frame_allocator(regions);
    let mut mapper = PageMapper::new();
    assert_eq!(init_heap(&mut mapper, &mut fa), Err(MapError::FrameAllocationFailed));
}

#[test]
fn failed_heap_init_leaves_no_page_beyond_the_last_mapped_one() {
    let regions = vec![frames_region(0x40_0000, 10)];
    let mut fa = init_bootloader_frame_allocator(regions);
    let mut mapper = PageMapper::new();
    assert_eq!(init_heap(&mut mapper, &mut fa), Err(MapError::FrameAllocationFailed));
    // The ten frames that existed were mapped to the first ten pages ...
    for i in 0..10 {
        let page = HEAP_START + i * FRAME_SIZE;
        assert_eq!(mapper.translation(page), Some(0x40_0000 + i * FRAME_SIZE));
    }
    // ... and no page beyond the last successfully mapped one was touched.
    for i in 10..HEAP_PAGE_COUNT {
        assert_eq!(mapper.translation(HEAP_START + i * FRAME_SIZE), None);
    }
    assert_eq!(fa.allocate_frame(), None);
}
