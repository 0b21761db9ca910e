use jura_os::allocator::bump::BumpAllocator;
use jura_os::allocator::{align_up, HEAP_SIZE, HEAP_START};

#[test]
fn heap_is_100_kib_at_its_fixed_address() {
    assert_eq!(HEAP_START, 0x4444_4444_0000);
    assert_eq!(HEAP_SIZE, 102400);
}

#[test]
fn align_up_keeps_a_multiple() {
    assert_eq!(align_up(0, 8), 0);
    assert_eq!(align_up(16, 8), 16);
    assert_eq!(align_up(4096, 4096), 4096);
    assert_eq!(align_up(7, 1), 7);
}

#[test]
fn align_up_rounds_to_the_next_multiple() {
    assert_eq!(align_up(1, 8), 8);
    assert_eq!(align_up(9, 8), 16);
    assert_eq!(align_up(15, 8), 16);
    assert_eq!(align_up(4097, 4096), 8192);
    assert_eq!(align_up(10, 3), 12);
    assert_eq!(align_up(usize::MAX - 1, usize::MAX), usize::MAX);
}

#[test]
fn new_allocator_has_no_heap() {
    let mut bump = BumpAllocator::new();
    assert_eq!(bump.next(), 0);
    assert_eq!(bump.heap_end(), 0);
    assert_eq!(bump.allocations(), 0);
    assert_eq!(bump.allocate(1, 1), None);
    assert_eq!(bump.allocate(0, 1), Some(0));
}

#[test]
fn allocations_follow_each_other_at_aligned_addresses() {
    let mut bump = BumpAllocator::new();
    bump.init(0x1000, 0x100);
    assert_eq!(bump.next(), 0x1000);
    assert_eq!(bump.heap_end(), 0x1100);
    assert_eq!(bump.allocate(3, 1), Some(0x1000));
    assert_eq!(bump.allocate(8, 8), Some(0x1008));
    assert_eq!(bump.allocate(1, 16), Some(0x1010));
    assert_eq!(bump.next(), 0x1011);
    assert_eq!(bump.allocations(), 3);
}

#[test]
fn allocation_past_the_end_fails_and_changes_nothing() {
    let mut bump = BumpAllocator::new();
    bump.init(0x1000, 0x100);
    assert_eq!(bump.allocate(0x101, 1), None);
    assert_eq!(bump.allocate(0x100, 1), Some(0x1000));
    assert_eq!(bump.allocate(1, 1), None);
    assert_eq!(bump.next(), 0x1100);
    assert_eq!(bump.allocations(), 1);
    assert_eq!(bump.allocate(usize::MAX, 1), None);
    assert_eq!(bump.allocations(), 1);
}

#[test]
fn heap_is_free_again_when_the_last_allocation_returns() {
    let mut bump = BumpAllocator::new();
    bump.init(0x1000, 0x100);
    assert_eq!(bump.allocate(0x80, 1), Some(0x1000));
    assert_eq!(bump.allocate(0x80, 1), Some(0x1080));
    bump.deallocate();
    assert_eq!(bump.next(), 0x1100);
    assert_eq!(bump.allocate(1, 1), None);
    bump.deallocate();
    assert_eq!(bump.allocations(), 0);
    assert_eq!(bump.next(), 0x1000);
    assert_eq!(bump.allocate(0x100, 1), Some(0x1000));
}

#[test]
fn start_fits_unless_rounding_up_leaves_the_address_space() {
    let mut bump = BumpAllocator::new();
    bump.init(usize::MAX - 10, 10);
    assert!(bump.start_fits(1));
    assert!(bump.start_fits(5));
    assert!(bump.start_fits(usize::MAX - 1));
    assert!(!bump.start_fits(16));
    assert!(!bump.start_fits(4096));
    bump.init(usize::MAX - 15, 10);
    assert!(bump.start_fits(16));
    assert_eq!(bump.allocate(8, 16), Some(usize::MAX - 15));
}

#[test]
fn has_room_tells_whether_an_allocation_would_succeed() {
    let mut bump = BumpAllocator::new();
    bump.init(0x1000, 0x100);
    assert!(bump.has_room(0x100, 1));
    assert!(!bump.has_room(0x101, 1));
    assert!(!bump.has_room(usize::MAX, 1));
    assert_eq!(bump.allocate(1, 1), Some(0x1000));
    assert!(bump.has_room(0xf0, 16));
    assert!(!bump.has_room(0xf1, 16));
    assert_eq!(bump.allocate(0xf0, 16), Some(0x1010));
    assert!(!bump.has_room(1, 1));
    assert!(bump.has_room(0, 1));
}

#[test]
fn blocks_lie_within_the_heap() {
    let mut bump = BumpAllocator::new();
    bump.init(0x2000, 0x40);
    let mut last_end = 0x2000;
    for (size, align) in [(3usize, 1usize), (5, 4), (16, 16), (1, 8)] {
        let start = bump.allocate(size, align).unwrap();
        assert!(start >= last_end);
        assert!(start + size <= 0x2040);
        assert_eq!(start % align, 0);
        last_end = start + size;
    }
    assert_eq!(bump.next(), last_end);
}
