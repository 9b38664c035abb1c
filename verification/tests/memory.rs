use bootloader::bootinfo::FrameRange;
use bootloader::bootinfo::MemoryMap;
use bootloader::bootinfo::MemoryRegion;
use bootloader::bootinfo::MemoryRegionType;
use korat_os::memory::create_example_mapping;
use korat_os::memory::init;
use korat_os::memory::physical_to_virtual;
use korat_os::memory::BootInfoFrameAllocator;
use korat_os::memory::EmptyFrameAllocator;
use korat_os::memory::FrameAllocator;
use korat_os::memory::MapToError;
use korat_os::memory::PhysFrame;
use korat_os::memory::FLAG_PRESENT;
use korat_os::memory::FLAG_WRITABLE;

fn leak_map(regions: &[(u64, u64, MemoryRegionType)]) -> &'static MemoryMap {
    let mut map = MemoryMap::new();
    for &(start_addr, end_addr, region_type) in regions {
        map.add_region(MemoryRegion { range: FrameRange::new(start_addr, end_addr), region_type });
    }
    Box::leak(Box::new(map))
}

#[test]
fn allocator_yields_increasing_aligned_usable_frames() {
    let map = leak_map(&[
        (0x1000, 0x4000, MemoryRegionType::Usable),
        (0x4000, 0x8000, MemoryRegionType::Reserved),
        (0x8000, 0xa000, MemoryRegionType::Usable),
    ]);
    let mut allocator = BootInfoFrameAllocator::init(map).unwrap();
    let mut got: Vec<u64> = Vec::new();
    while let Some(frame) = allocator.allocate_frame() {
        got.push(frame.start_address);
    }
    assert_eq!(got, vec![0x1000, 0x2000, 0x3000, 0x8000, 0x9000]);
    for pair in got.windows(2) {
        assert!(pair[0] < pair[1]);
    }
    for &addr in &got {
        assert_eq!(addr % 4096, 0);
        let usable = (0x1000 <= addr && addr + 4096 <= 0x4000) || (0x8000 <= addr && addr + 4096
            <= 0xa000);
        assert!(usable);
    }
    // The cursor only advances: once exhausted, it stays exhausted.
    assert!(allocator.allocate_frame().is_none());
    assert!(allocator.allocate_frame().is_none());
}

#[test]
fn allocator_with_no_usable_region_is_empty() {
    let map = leak_map(&[(0x1000, 0x4000, MemoryRegionType::Reserved)]);
    let mut allocator = BootInfoFrameAllocator::init(map).unwrap();
    assert!(allocator.allocate_frame().is_none());
}

#[test]
fn empty_allocator_always_reports_exhaustion() {
    let mut allocator = EmptyFrameAllocator;
    assert!(allocator.allocate_frame().is_none());
    assert!(allocator.allocate_frame().is_none());
}

#[test]
fn map_on_unmapped_page_succeeds_and_translates() {
    let map = leak_map(&[(0x1000, 0x8000, MemoryRegionType::Usable)]);
    let mut allocator = BootInfoFrameAllocator::init(map).unwrap();
    let mut mapper = init(0);
    let page: u64 = 0xdead_beaf_000;
    let frame = PhysFrame { start_address: 0xb8000 };
    let flush = mapper.map(page, frame, FLAG_PRESENT | FLAG_WRITABLE, &mut allocator).unwrap();
    assert_eq!(flush.page(), page);
    // An access through the fresh virtual page reaches the intended
    // physical frame.
    assert_eq!(mapper.translate_addr(page), Some(0xb8000));
    assert_eq!(mapper.translate_addr(page + 0x123), Some(0xb8000 + 0x123));
}

#[test]
fn map_on_mapped_page_reports_conflict() {
    let map = leak_map(&[(0x1000, 0x8000, MemoryRegionType::Usable)]);
    let mut allocator = BootInfoFrameAllocator::init(map).unwrap();
    let mut mapper = init(0);
    let page: u64 = 0x4000_0000_0000;
    let frame = PhysFrame { start_address: 0x1000 };
    mapper.map(page, frame, FLAG_PRESENT | FLAG_WRITABLE, &mut allocator).unwrap();
    let second = mapper.map(page, frame, FLAG_PRESENT | FLAG_WRITABLE, &mut allocator);
    assert!(matches!(second, Err(MapToError::PageAlreadyMapped)));
    // The mapping survives the refused second attempt.
    assert_eq!(mapper.translate_addr(page), Some(0x1000));
}

#[test]
fn map_without_frames_reports_exhaustion() {
    let mut empty = EmptyFrameAllocator;
    let mut mapper = init(0);
    let frame = PhysFrame { start_address: 0x1000 };
    let r = mapper.map(0x7000, frame, FLAG_PRESENT, &mut empty);
    assert!(matches!(r, Err(MapToError::FrameAllocationFailed)));
    assert_eq!(mapper.translate_addr(0x7000), None);
}

#[test]
fn create_example_mapping_targets_the_character_grid() {
    let map = leak_map(&[(0x10000, 0x20000, MemoryRegionType::Usable)]);
    let mut allocator = BootInfoFrameAllocator::init(map).unwrap();
    let mut mapper = init(0);
    let page: u64 = 0xdead_beaf_000;
    let flush = create_example_mapping(page, &mut mapper, &mut allocator);
    assert_eq!(flush.page(), page);
    assert_eq!(mapper.translate_addr(page), Some(0xb8000));
}

#[test]
fn translating_an_unmapped_address_yields_nothing() {
    let mapper = init(0x1000_0000_0000);
    assert_eq!(mapper.translate_addr(0x2000), None);
    assert_eq!(mapper.physical_memory_offset(), 0x1000_0000_0000);
}

#[test]
fn physical_to_virtual_applies_the_mirror_offset() {
    assert_eq!(physical_to_virtual(0x1000_0000_0000, 0xb8000), 0x1000_000b_8000);
    assert_eq!(physical_to_virtual(0, 0x1234), 0x1234);
}
