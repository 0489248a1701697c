use radius_os::memory::physaddr::{PhysAddr, PHYS_ADDR_LIMIT};
use radius_os::memory::virtaddr::{PageOffset, PageTableIndex, PageTableLevel, VirtAddr};
use radius_os::memory::{
    memory_map_is_valid, offers_frames, BootInfoFrameAllocator, EmptyFrameAllocator, FrameRange,
    MemoryRegion, MemoryRegionType, Page, PhysFrame, FRAME_SIZE,
};

fn region(start: u64, end: u64, region_type: MemoryRegionType) -> MemoryRegion {
    MemoryRegion {
        range: FrameRange { start_frame_number: start, end_frame_number: end },
        region_type,
    }
}

fn sample_map() -> Vec<MemoryRegion> {
    vec![
        region(0, 1, MemoryRegionType::FrameZero),
        region(1, 3, MemoryRegionType::Usable),
        region(3, 16, MemoryRegionType::Reserved),
        region(16, 16, MemoryRegionType::Usable),
        region(16, 19, MemoryRegionType::Usable),
        region(19, 40, MemoryRegionType::Kernel),
    ]
}

#[test]
fn phys_addr_new_keeps_valid_address() {
    assert_eq!(PhysAddr::new(0).as_u64(), 0);
    assert_eq!(PhysAddr::new(0xb8000).as_u64(), 0xb8000);
    assert_eq!(PhysAddr::new(PHYS_ADDR_LIMIT - 1).as_u64(), 0x000f_ffff_ffff_ffff);
    assert_eq!(PhysAddr::unsafe_new(0x1234).as_u64(), 0x1234);
}

#[test]
fn phys_addr_try_new_refuses_upper_bits() {
    assert_eq!(PhysAddr::try_new(0x1000).map(|p| p.as_u64()), Ok(0x1000));
    assert_eq!(PhysAddr::try_new(PHYS_ADDR_LIMIT - 1).map(|p| p.as_u64()), Ok(PHYS_ADDR_LIMIT - 1));
    assert!(PhysAddr::try_new(PHYS_ADDR_LIMIT).is_err());
    assert!(PhysAddr::try_new(u64::MAX).is_err());
}

#[test]
fn phys_addr_new_truncate_clears_upper_bits() {
    assert_eq!(PhysAddr::new_truncate(0x1000).as_u64(), 0x1000);
    assert_eq!(PhysAddr::new_truncate(PHYS_ADDR_LIMIT).as_u64(), 0);
    assert_eq!(PhysAddr::new_truncate(u64::MAX).as_u64(), 0x000f_ffff_ffff_ffff);
    assert_eq!(PhysAddr::new_truncate(0xfff0_0000_0000_0042).as_u64(), 0x42);
}

#[test]
fn virt_addr_new_truncate_extends_bit_47() {
    assert_eq!(VirtAddr::new_truncate(0).as_u64(), 0);
    assert_eq!(VirtAddr::new_truncate(123).as_u64(), 123);
    assert_eq!(VirtAddr::new_truncate(1 << 47).as_u64(), 0xfffff << 47);
    assert_eq!(VirtAddr::new_truncate(123 << 47).as_u64(), 0xfffff << 47);
    assert_eq!(VirtAddr::new_truncate(0xabcd_0000_0000_1234).as_u64(), 0x1234);
}

#[test]
fn virt_addr_try_new_cases() {
    assert_eq!(VirtAddr::try_new(0x4444_4444_0000).map(|v| v.as_u64()), Ok(0x4444_4444_0000));
    assert_eq!(
        VirtAddr::try_new(0xffff_8000_0000_0000).map(|v| v.as_u64()),
        Ok(0xffff_8000_0000_0000)
    );
    assert_eq!(
        VirtAddr::try_new(0x0000_8000_0000_1000).map(|v| v.as_u64()),
        Ok(0xffff_8000_0000_1000)
    );
    assert!(VirtAddr::try_new(0x0001_0000_0000_0000).is_err());
    assert!(VirtAddr::try_new(0xfffe_8000_0000_0000).is_err());
    assert!(VirtAddr::try_new(0xffff_7fff_ffff_ffff).is_err());
}

#[test]
fn virt_addr_new_and_unsafe_new() {
    assert_eq!(VirtAddr::new(0x7fff_ffff_ffff).as_u64(), 0x7fff_ffff_ffff);
    assert_eq!(VirtAddr::new(0x8000_0000_0000).as_u64(), 0xffff_8000_0000_0000);
    assert_eq!(VirtAddr::unsafe_new(0xffff_ffff_ffff_f000).as_u64(), 0xffff_ffff_ffff_f000);
}

#[test]
fn virt_addr_splits_into_indices() {
    let addr = VirtAddr::new((1 << 39) | (2 << 30) | (3 << 21) | (4 << 12) | 5);
    assert_eq!(addr.page_offset().as_u16(), 5);
    assert_eq!(addr.p1_index().as_u16(), 4);
    assert_eq!(addr.p2_index().as_u16(), 3);
    assert_eq!(addr.p3_index().as_u16(), 2);
    assert_eq!(addr.p4_index().as_u16(), 1);
    assert_eq!(addr.page_table_index(PageTableLevel::One).as_u16(), 4);
    assert_eq!(addr.page_table_index(PageTableLevel::Two).as_u16(), 3);
    assert_eq!(addr.page_table_index(PageTableLevel::Three).as_u16(), 2);
    assert_eq!(addr.page_table_index(PageTableLevel::Four).as_u16(), 1);
}

#[test]
fn virt_addr_indices_of_heap_start_and_top() {
    let heap = VirtAddr::new(0x4444_4444_0000);
    assert_eq!(heap.p4_index().as_u16(), 136);
    assert_eq!(heap.p3_index().as_u16(), 273);
    assert_eq!(heap.p2_index().as_u16(), 34);
    assert_eq!(heap.p1_index().as_u16(), 64);
    assert_eq!(heap.page_offset().as_u16(), 0);
    let top = VirtAddr::new(u64::MAX);
    assert_eq!(top.p4_index().as_u16(), 511);
    assert_eq!(top.p1_index().as_u16(), 511);
    assert_eq!(top.page_offset().as_u16(), 4095);
}

#[test]
fn indices_rebuild_the_address() {
    for raw in [0x4444_4444_0123u64, 0xffff_8000_dead_beef, 0x7fff_ffff_ffff, 0] {
        let addr = VirtAddr::new(raw);
        let rebuilt = ((addr.p4_index().as_u16() as u64) << 39)
            | ((addr.p3_index().as_u16() as u64) << 30)
            | ((addr.p2_index().as_u16() as u64) << 21)
            | ((addr.p1_index().as_u16() as u64) << 12)
            | addr.page_offset().as_u16() as u64;
        assert_eq!(VirtAddr::new_truncate(rebuilt).as_u64(), raw);
    }
}

#[test]
fn offset_and_index_truncate() {
    assert_eq!(PageOffset::new_truncate(4096).as_u16(), 0);
    assert_eq!(PageOffset::new_truncate(0xffff).as_u16(), 0xfff);
    assert_eq!(PageTableIndex::new_truncate(512).as_u16(), 0);
    assert_eq!(PageTableIndex::new_truncate(1023).as_u16(), 511);
}

#[test]
fn frame_and_page_contain_their_addresses() {
    let frame = PhysFrame::containing_address(PhysAddr::new(0x1234_5678));
    assert_eq!(frame.start_address().as_u64(), 0x1234_5000);
    let aligned = PhysFrame::containing_address(PhysAddr::new(0x8000));
    assert_eq!(aligned.start_address().as_u64(), 0x8000);
    let page = Page::containing_address(VirtAddr::new(0xffff_8000_0000_1fff));
    assert_eq!(page.start_address().as_u64(), 0xffff_8000_0000_1000);
    let low = Page::containing_address(VirtAddr::new(0x4444_4445_8fff));
    assert_eq!(low.start_address().as_u64(), 0x4444_4445_8000);
    assert_eq!(FRAME_SIZE, 4096);
}

#[test]
fn offers_frames_only_for_usable_non_empty_regions() {
    assert!(offers_frames(&region(1, 3, MemoryRegionType::Usable)));
    assert!(!offers_frames(&region(3, 3, MemoryRegionType::Usable)));
    assert!(!offers_frames(&region(4, 3, MemoryRegionType::Usable)));
    assert!(!offers_frames(&region(1, 3, MemoryRegionType::Reserved)));
}

#[test]
fn memory_map_validity() {
    assert!(memory_map_is_valid(&sample_map()));
    assert!(memory_map_is_valid(&[]));
    let overlapping = vec![
        region(1, 5, MemoryRegionType::Usable),
        region(7, 9, MemoryRegionType::Reserved),
        region(4, 8, MemoryRegionType::Usable),
    ];
    assert!(!memory_map_is_valid(&overlapping));
    let reserved_overlap = vec![
        region(1, 5, MemoryRegionType::Usable),
        region(4, 8, MemoryRegionType::Reserved),
    ];
    assert!(memory_map_is_valid(&reserved_overlap));
    let too_high = vec![region(1, (1 << 40) + 1, MemoryRegionType::Usable)];
    assert!(!memory_map_is_valid(&too_high));
    let at_limit = vec![region((1 << 40) - 1, 1 << 40, MemoryRegionType::Usable)];
    assert!(memory_map_is_valid(&at_limit));
}

#[test]
fn frame_allocator_walks_usable_regions_in_order() {
    let map = sample_map();
    let mut allocator = BootInfoFrameAllocator::init(&map);
    let mut frames = Vec::new();
    for _ in 0..5 {
        frames.push(allocator.allocate_frame().unwrap().start_address().as_u64());
    }
    assert_eq!(frames, vec![0x1000, 0x2000, 0x10000, 0x11000, 0x12000]);
    assert!(allocator.allocate_frame().is_none());
    assert!(allocator.allocate_frame().is_none());
}

#[test]
fn frames_are_usable_and_never_repeat() {
    let map = sample_map();
    let mut allocator = BootInfoFrameAllocator::init(&map);
    let mut seen = Vec::new();
    while let Some(frame) = allocator.allocate_frame() {
        let start = frame.start_address().as_u64();
        assert_eq!(start % 4096, 0);
        assert!(map.iter().any(|r| r.region_type == MemoryRegionType::Usable
            && r.range.start_frame_number * 4096 <= start
            && start < r.range.end_frame_number * 4096));
        assert!(!seen.contains(&start));
        seen.push(start);
    }
    assert_eq!(seen.len(), 5);
}

#[test]
fn frame_allocator_at_the_address_limit() {
    let map = vec![region((1 << 40) - 2, 1 << 40, MemoryRegionType::Usable)];
    let mut allocator = BootInfoFrameAllocator::init(&map);
    assert_eq!(
        allocator.allocate_frame().map(|f| f.start_address().as_u64()),
        Some(PHYS_ADDR_LIMIT - 8192)
    );
    assert_eq!(
        allocator.allocate_frame().map(|f| f.start_address().as_u64()),
        Some(PHYS_ADDR_LIMIT - 4096)
    );
    assert!(allocator.allocate_frame().is_none());
}

#[test]
fn frame_allocator_without_usable_memory() {
    let map = vec![region(0, 100, MemoryRegionType::Reserved)];
    let mut allocator = BootInfoFrameAllocator::init(&map);
    assert!(allocator.allocate_frame().is_none());
    let mut empty = EmptyFrameAllocator;
    assert!(empty.allocate_frame().is_none());
}
