use kernel::memory::allocator::{
    heap_pages, pages_between, pages_for, pages_spanning, BlockAllocator, Layout, PageAllocator, HEAP_SIZE,
    HEAP_START, PAGE_SIZE,
};

fn layout(size: usize, align: usize) -> Layout {
    Layout { size, align }
}

#[test]
fn list_index_picks_smallest_fitting_class() {
    assert_eq!(BlockAllocator::list_index(&layout(1, 1)), Some(0));
    assert_eq!(BlockAllocator::list_index(&layout(8, 8)), Some(0));
    assert_eq!(BlockAllocator::list_index(&layout(9, 1)), Some(1));
    assert_eq!(BlockAllocator::list_index(&layout(24, 8)), Some(2));
    assert_eq!(BlockAllocator::list_index(&layout(4, 64)), Some(3));
    assert_eq!(BlockAllocator::list_index(&layout(2048, 8)), Some(8));
    assert_eq!(BlockAllocator::list_index(&layout(0, 1)), Some(0));
}

#[test]
fn list_index_none_when_too_big() {
    assert_eq!(BlockAllocator::list_index(&layout(2049, 8)), None);
    assert_eq!(BlockAllocator::list_index(&layout(8, 4096)), None);
    assert_eq!(BlockAllocator::list_index(&layout(10000, 8)), None);
}

#[test]
fn pages_for_rounds_up() {
    assert_eq!(pages_for(0), 0);
    assert_eq!(pages_for(1), 1);
    assert_eq!(pages_for(4096), 1);
    assert_eq!(pages_for(4097), 2);
    assert_eq!(pages_for(3 * 4096), 3);
}

#[test]
fn page_allocator_bumps_watermark() {
    let mut p = PageAllocator::new();
    p.init(0x1000_0000, HEAP_SIZE);
    assert_eq!(p.allocate(layout(100, 8)), 0x1000_0000);
    assert_eq!(p.allocate(layout(5000, 8)), 0x1000_1000);
    assert_eq!(p.allocate(layout(1, 1)), 0x1000_3000);
}

#[test]
fn page_allocator_reuses_single_pages_lifo() {
    let mut p = PageAllocator::new();
    p.init(0x2000_0000, HEAP_SIZE);
    let a = p.allocate(layout(4096, 4096));
    let b = p.allocate(layout(4096, 4096));
    assert_eq!(b, a + PAGE_SIZE);
    p.deallocate(a, layout(4096, 4096));
    p.deallocate(b, layout(4096, 4096));
    assert_eq!(p.allocate(layout(4096, 4096)), b);
    // Taking a freed page drops the pages freed before it.
    assert_eq!(p.allocate(layout(10, 1)), 0x2000_2000);
    assert_eq!(p.allocate(layout(10, 1)), 0x2000_3000);
    p.deallocate(a, layout(4096, 4096));
    assert_eq!(p.allocate(layout(10, 1)), a);
}

#[test]
fn page_allocator_frees_every_page_of_a_range() {
    let mut p = PageAllocator::new();
    p.init(0x3000_0000, HEAP_SIZE);
    let big = p.allocate(layout(3 * 4096, 8));
    assert_eq!(big, 0x3000_0000);
    p.deallocate(big, layout(3 * 4096, 8));
    // The last page of the range is on top of the free list; taking it
    // drops the others.
    assert_eq!(p.allocate(layout(4096, 8)), big + 2 * PAGE_SIZE);
    assert_eq!(p.allocate(layout(4096, 8)), 0x3000_3000);
    p.deallocate(big, layout(4096, 8));
    // A multi-page request never takes freed pages.
    assert_eq!(p.allocate(layout(2 * 4096, 8)), 0x3000_4000);
    assert_eq!(p.allocate(layout(4096, 8)), big);
}

#[test]
fn block_allocator_serves_small_blocks_from_pages() {
    let mut b = BlockAllocator::new();
    b.init(0x4000_0000, HEAP_SIZE);
    let x = b.allocate(layout(8, 8));
    let y = b.allocate(layout(8, 8));
    assert_eq!(x, 0x4000_0000);
    assert_eq!(y, 0x4000_1000);
}

#[test]
fn block_allocator_free_then_allocate_returns_same_block() {
    let mut b = BlockAllocator::new();
    b.init(0x5000_0000, HEAP_SIZE);
    let x = b.allocate(layout(24, 8));
    b.deallocate(x, layout(24, 8));
    assert_eq!(b.allocate(layout(32, 32)), x);
    // A block freed into class 32 does not serve class 16.
    b.deallocate(x, layout(32, 8));
    assert_eq!(b.allocate(layout(16, 8)), 0x5000_1000);
    assert_eq!(b.allocate(layout(30, 2)), x);
}

#[test]
fn block_allocator_large_requests_use_pages() {
    let mut b = BlockAllocator::new();
    b.init(0x6000_0000, HEAP_SIZE);
    let big = b.allocate(layout(3000, 8));
    assert_eq!(big, 0x6000_0000);
    b.deallocate(big, layout(3000, 8));
    assert_eq!(b.allocate(layout(4000, 8)), big);
    let huge = b.allocate(layout(9000, 8));
    assert_eq!(huge, 0x6000_1000);
}

#[test]
fn block_classes_refill_from_freed_pages() {
    let mut b = BlockAllocator::new();
    b.init(0x7000_0000, HEAP_SIZE);
    let page = b.allocate(layout(4096, 8));
    b.deallocate(page, layout(4096, 8));
    // An empty class takes a freed page before bumping.
    assert_eq!(b.allocate(layout(64, 64)), page);
    assert_eq!(b.allocate(layout(64, 64)), 0x7000_1000);
}

#[test]
fn heap_pages_cover_heap() {
    let pages = heap_pages();
    assert_eq!(pages.len(), HEAP_SIZE / PAGE_SIZE);
    assert_eq!(pages.len(), 32);
    assert_eq!(pages[0], HEAP_START);
    assert_eq!(pages[0], 0x4242_0000_0000);
    assert_eq!(pages[31], 0x4242_0001_F000);
    for (i, p) in pages.iter().enumerate() {
        assert_eq!(*p, HEAP_START + (i as u64) * 4096);
    }
}

#[test]
fn pages_between_is_inclusive() {
    assert_eq!(pages_between(0x1000, 0x1000), vec![0x1000]);
    assert_eq!(pages_between(0x1000, 0x3000), vec![0x1000, 0x2000, 0x3000]);
}

#[test]
fn pages_spanning_rounds_to_pages() {
    assert_eq!(pages_spanning(0x1800, 0x1000), vec![0x1000, 0x2000]);
    assert_eq!(pages_spanning(0x1000, 0x1000), vec![0x1000]);
    assert_eq!(pages_spanning(0x1FFF, 2), vec![0x1000, 0x2000]);
    assert_eq!(pages_spanning(0xFFFF_8000_0000_0010, 0x10), vec![0xFFFF_8000_0000_0000]);
}

#[test]
fn fresh_pages_stay_page_aligned() {
    let mut b = BlockAllocator::new();
    b.init(0x8000_0000, HEAP_SIZE);
    for size in [1usize, 8, 100, 2048, 3000, 5000, 9000, 16] {
        let a = b.allocate(layout(size, 8));
        assert_eq!(a % PAGE_SIZE, 0, "size {size}");
    }
}

#[test]
fn can_allocate_reports_overflow() {
    let mut p = PageAllocator::new();
    p.init(usize::MAX - 4096, HEAP_SIZE);
    assert!(p.can_allocate(layout(4096, 8)));
    assert!(!p.can_allocate(layout(4097, 8)));
    assert!(!p.can_allocate(layout(usize::MAX, 8)));
    assert!(PageAllocator::can_deallocate(usize::MAX - 4095, layout(4096, 8)));
    assert!(!PageAllocator::can_deallocate(usize::MAX - 4095, layout(4097, 8)));
    let mut b = BlockAllocator::new();
    b.init(usize::MAX - 100, HEAP_SIZE);
    assert!(!b.can_allocate(layout(8, 8)));
    assert!(BlockAllocator::can_deallocate(usize::MAX, layout(8, 8)));
}

#[test]
fn live_blocks_never_overlap_and_are_aligned() {
    let mut b = BlockAllocator::new();
    b.init(0x9000_0000, HEAP_SIZE);
    let requests = [
        (8usize, 8usize),
        (24, 8),
        (3000, 4096),
        (64, 64),
        (9000, 16),
        (8, 1),
        (2048, 2048),
        (4096, 4096),
    ];
    let mut live: Vec<(usize, usize)> = Vec::new();
    for (i, (size, align)) in requests.iter().enumerate() {
        let a = b.allocate(layout(*size, *align));
        assert_eq!(a % align, 0, "request {i}");
        for (q, qsize) in &live {
            assert!(a + size <= *q || q + qsize <= a, "request {i} overlaps {q:#x}");
        }
        live.push((a, *size));
        // Free every other block and take it again: it is never one in use.
        if i % 2 == 1 {
            let (q, qsize) = live.pop().unwrap();
            b.deallocate(q, layout(qsize, *align));
            let again = b.allocate(layout(qsize, *align));
            for (r, rsize) in &live {
                assert!(again + qsize <= *r || r + rsize <= again);
            }
            live.push((again, qsize));
        }
    }
}
