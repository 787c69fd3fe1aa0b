use ruin::frame::{MemoryMapFrameAllocator, MemoryRegion, RegionKind, MAX_REGIONS};
use ruin::paging::{page_range, plan_identity_mapping, plan_range_mapping, MapError, PageRange};

fn region(start: u64, end: u64, kind: RegionKind) -> MemoryRegion {
    MemoryRegion { start, end, kind }
}

fn allocator(regions: Vec<MemoryRegion>) -> MemoryMapFrameAllocator {
    let mut map = [region(0, 0, RegionKind::Reserved); MAX_REGIONS];
    for (i, r) in regions.iter().enumerate() {
        map[i] = *r;
    }
    MemoryMapFrameAllocator::new(map, regions.len())
}

fn sample_map() -> Vec<MemoryRegion> {
    vec![
        region(0x0, 0x1000, RegionKind::Reserved),
        region(0x1000, 0x4000, RegionKind::Usable),
        region(0x4000, 0x10000, RegionKind::Reserved),
        region(0x10000, 0x12000, RegionKind::Usable),
    ]
}

#[test]
fn usable_frames_in_map_order() {
    let frames = allocator(sample_map());
    assert_eq!(frames.get_usable_frames(), vec![0x1000, 0x2000, 0x3000, 0x10000, 0x11000]);
}

#[test]
fn frames_are_distinct_aligned_then_exhausted() {
    let mut frames = allocator(sample_map());
    let mut seen = Vec::new();
    for _ in 0..5 {
        let f = frames.allocate_frame().expect("a usable frame is left");
        assert_eq!(f % 4096, 0);
        assert!(!seen.contains(&f));
        seen.push(f);
    }
    assert_eq!(frames.allocate_frame(), None);
    assert_eq!(frames.allocate_frame(), None);
}

#[test]
fn partial_frame_at_region_end_counts() {
    let mut frames = allocator(vec![region(0x2000, 0x3001, RegionKind::Usable)]);
    assert_eq!(frames.allocate_frame(), Some(0x2000));
    assert_eq!(frames.allocate_frame(), Some(0x3000));
    assert_eq!(frames.allocate_frame(), None);
}

#[test]
fn unaligned_region_start_rounds_down() {
    let mut frames = allocator(vec![region(0x2010, 0x4000, RegionKind::Usable)]);
    assert_eq!(frames.allocate_frame(), Some(0x2000));
    assert_eq!(frames.allocate_frame(), Some(0x3000));
    assert_eq!(frames.allocate_frame(), None);
}

#[test]
fn empty_map_has_no_frames() {
    let mut frames = allocator(Vec::new());
    assert_eq!(frames.allocate_frame(), None);
}

#[test]
fn page_range_rounds_out_to_whole_pages() {
    assert_eq!(page_range(0x1234, 0x10), PageRange { first: 0x1000, last: 0x1000 });
    assert_eq!(page_range(0x1ff0, 0x20), PageRange { first: 0x1000, last: 0x2000 });
    assert_eq!(page_range(0x4444_4444_0000, 1024 * 1024), PageRange { first: 0x4444_4444_0000, last: 0x4444_4453_f000 });
}

#[test]
fn range_mapping_pairs_pages_with_fresh_frames() {
    let mut frames = allocator(sample_map());
    let range = page_range(0x8000_0000, 0x2001);
    let plan = plan_range_mapping(&range, &mut frames).unwrap();
    assert_eq!(plan, vec![(0x8000_0000, 0x1000), (0x8000_1000, 0x2000), (0x8000_2000, 0x3000)]);
    assert_eq!(frames.allocate_frame(), Some(0x10000));
}

#[test]
fn range_mapping_fails_without_frames() {
    let mut frames = allocator(sample_map());
    let range = page_range(0x8000_0000, 6 * 4096);
    assert_eq!(plan_range_mapping(&range, &mut frames), Err(MapError::FrameAllocationFailed));
    assert_eq!(frames.allocate_frame(), None);
}

#[test]
fn identity_mapping_covers_firmware_area() {
    let plan = plan_identity_mapping(0xE0000, 0x1FFFF);
    assert_eq!(plan.len(), 32);
    assert_eq!(plan[0], (0xE0000, 0xE0000));
    assert_eq!(plan[31], (0xFF000, 0xFF000));
}

#[test]
fn unordered_disjoint_regions_give_distinct_frames() {
    let mut frames = allocator(vec![
        region(0x10000, 0x12000, RegionKind::Usable),
        region(0x1000, 0x3000, RegionKind::Usable),
    ]);
    let mut seen = Vec::new();
    while let Some(f) = frames.allocate_frame() {
        assert!(!seen.contains(&f));
        seen.push(f);
    }
    assert_eq!(seen, vec![0x10000, 0x11000, 0x1000, 0x2000]);
}
