use ruin::heap::{FreeRegion, LinkedListAllocator};

type Heap = LinkedListAllocator<4096>;

const H: usize = 64 * 1024;
const START: usize = 0x4444_4444_0000;

fn heap() -> Heap {
    let mut heap = Heap::new();
    heap.init(START, H);
    heap
}

#[test]
fn empty_allocator_fails() {
    let mut heap = Heap::new();
    assert_eq!(heap.allocate(8, 8), None);
    assert_eq!(heap.arena_bounds(), (0, 0));
}

#[test]
fn size_align_rounds_up_to_node() {
    assert_eq!(Heap::size_align(1, 1), (16, 8));
    assert_eq!(Heap::size_align(17, 8), (24, 8));
    assert_eq!(Heap::size_align(1, 64), (64, 64));
    assert_eq!(Heap::size_align(0, 32), (16, 32));
}

#[test]
fn allocations_are_aligned_and_apart() {
    let mut heap = heap();
    assert_eq!(heap.arena_bounds(), (START, H));
    let mut blocks: Vec<(usize, usize)> = Vec::new();
    for (size, align) in [(3, 1), (100, 2), (7, 4), (40, 16), (5, 4096), (64, 64), (1, 8)] {
        let a = heap.allocate(size, align).expect("fits");
        assert_eq!(a % align, 0);
        let (s, _) = Heap::size_align(size, align);
        for &(b, t) in &blocks {
            assert!(a + s <= b || b + t <= a);
        }
        assert!(a >= START && a + s <= START + H);
        blocks.push((a, s));
    }
}

#[test]
fn first_block_starts_at_heap_start() {
    let mut heap = heap();
    assert_eq!(heap.allocate(10, 1), Some(START));
    assert_eq!(heap.allocate(10, 1), Some(START + 16));
}

#[test]
fn freed_block_is_reused_first() {
    let mut heap = heap();
    let _keep = heap.allocate(100, 8).unwrap();
    let a = heap.allocate(48, 16).unwrap();
    let _other = heap.allocate(32, 8).unwrap();
    heap.deallocate(a, 48, 16);
    let b = heap.allocate(48, 16).unwrap();
    assert_eq!(a, b);
}

#[test]
fn too_small_tail_is_not_split() {
    let mut heap = Heap::new();
    heap.init(0x1000, 40);
    // 32 bytes would leave an 8-byte tail, smaller than a node
    assert_eq!(heap.allocate(32, 8), None);
    assert_eq!(heap.allocate(24, 8), Some(0x1000));
    assert_eq!(heap.allocate(16, 8), Some(0x1000 + 24));
    assert_eq!(heap.allocate(1, 1), None);
}

#[test]
fn exhausting_the_heap_fails_without_overlap() {
    let mut heap = Heap::new();
    heap.init(0x10000, 4096);
    let mut blocks = Vec::new();
    loop {
        match heap.allocate(100, 8) {
            Some(a) => {
                for &b in &blocks {
                    assert!(a + 104 <= b || b + 104 <= a);
                }
                blocks.push(a);
            }
            None => break,
        }
    }
    assert_eq!(blocks.len(), 4096 / 104);
    assert_eq!(heap.allocate(4096, 1), None);
}

#[test]
fn request_over_arena_fails() {
    let mut heap = heap();
    assert_eq!(heap.allocate(H + 1, 1), None);
    assert_eq!(heap.allocate(H, 1), Some(START));
    assert_eq!(heap.allocate(1, 1), None);
}

#[test]
fn fragmentation_without_coalescing() {
    let mut heap = heap();
    let mut blocks = Vec::new();
    for _ in 0..120 {
        let a = heap.allocate(H / 128, H / 128).unwrap();
        assert_eq!(a % (H / 128), 0);
        blocks.push(a);
    }
    for &a in &blocks {
        heap.deallocate(a, H / 128, H / 128);
    }
    // freed neighbours are never merged, so the largest free block is the
    // untouched tail of 8 blocks
    assert_eq!(heap.allocate(H * 18 / 20, 1), None);
    assert_eq!(heap.allocate(8 * (H / 128), 1), Some(START + 120 * (H / 128)));
    // the freed blocks come back in reverse order of freeing
    assert_eq!(heap.allocate(H / 128, 1), Some(blocks[119]));
    assert_eq!(heap.allocate(H / 128, 1), Some(blocks[118]));
}

#[test]
fn tail_goes_to_front_of_list() {
    let mut heap = Heap::new();
    heap.init(0x1000, 128);
    let a = heap.allocate(16, 8).unwrap();
    assert_eq!(a, 0x1000);
    assert_eq!(heap.allocate(16, 8), Some(0x1010));
    heap.deallocate(a, 16, 8);
    // the freed block is first but too small; the tail serves the request
    assert_eq!(heap.allocate(32, 8), Some(0x1020));
    // the new tail went in front of the freed block
    assert_eq!(heap.allocate(16, 8), Some(0x1040));
    assert_eq!(heap.allocate(16, 8), Some(0x1050));
}

#[test]
fn every_freed_block_is_tracked() {
    let mut heap = LinkedListAllocator::<64>::new();
    heap.init(0x2000, 64 * 16);
    let mut blocks = Vec::new();
    while let Some(a) = heap.allocate(16, 8) {
        blocks.push(a);
    }
    assert_eq!(blocks.len(), 64);
    for &a in &blocks {
        heap.deallocate(a, 16, 8);
    }
    for &a in blocks.iter().rev() {
        assert_eq!(heap.allocate(16, 8), Some(a));
    }
    assert_eq!(heap.allocate(16, 8), None);
}

#[test]
fn free_region_fields() {
    let r = FreeRegion { start: 8, size: 16 };
    assert_eq!(r, FreeRegion { start: 8, size: 16 });
}
