use jura_os::memory::{BootInfoFrameAllocator, EmptyFrameAllocator, MemoryRegion, FRAME_SIZE};

fn region(start: u64, end: u64, usable: bool) -> MemoryRegion {
    MemoryRegion { start, end, usable }
}

#[test]
fn empty_allocator_never_gives_a_frame() {
    let mut allocator = EmptyFrameAllocator;
    assert_eq!(allocator.allocate_frame(), None);
    assert_eq!(allocator.allocate_frame(), None);
}

#[test]
fn frames_come_region_after_region_in_address_order() {
    assert_eq!(FRAME_SIZE, 4096);
    let map = vec![
        region(0x0000, 0x1000, false),
        region(0x1000, 0x3000, true),
        region(0x3000, 0x8000, false),
        region(0x8000, 0x8000, true),
        region(0x10000, 0x13000, true),
    ];
    let mut allocator = BootInfoFrameAllocator::init(&map);
    let mut frames = Vec::new();
    for _ in 0..7 {
        frames.push(allocator.allocate_frame());
    }
    assert_eq!(
        frames,
        vec![Some(0x1000), Some(0x2000), Some(0x10000), Some(0x11000), Some(0x12000), None, None]
    );
}

#[test]
fn nth_frame_does_not_depend_on_what_was_handed_out() {
    let map = vec![region(0x1000, 0x3000, true), region(0x5000, 0x6000, true)];
    let mut allocator = BootInfoFrameAllocator::init(&map);
    assert_eq!(allocator.usable_frame(2), Some(0x5000));
    assert_eq!(allocator.allocate_frame(), Some(0x1000));
    assert_eq!(allocator.usable_frame(2), Some(0x5000));
    assert_eq!(allocator.usable_frame(0), Some(0x1000));
    assert_eq!(allocator.usable_frame(3), None);
}

#[test]
fn region_off_the_frame_grid_gives_the_frames_that_hold_its_steps() {
    // Steps of one frame size from 0x1800: 0x1800 and 0x2800, both below
    // 0x2900; they lie in the frames at 0x1000 and 0x2000.
    let map = [region(0x1800, 0x2900, true)];
    let mut allocator = BootInfoFrameAllocator::init(&map);
    assert_eq!(allocator.allocate_frame(), Some(0x1000));
    assert_eq!(allocator.allocate_frame(), Some(0x2000));
    assert_eq!(allocator.allocate_frame(), None);
}

#[test]
fn backwards_and_empty_regions_give_no_frame() {
    let map = [
        region(0x5000, 0x1000, true),
        region(0x7000, 0x7000, true),
        region(0x9000, 0x9001, true),
    ];
    let mut allocator = BootInfoFrameAllocator::init(&map);
    assert_eq!(allocator.allocate_frame(), Some(0x9000));
    assert_eq!(allocator.allocate_frame(), None);
}

#[test]
fn map_without_usable_regions_gives_no_frame() {
    let mut allocator = BootInfoFrameAllocator::init(&[]);
    assert_eq!(allocator.allocate_frame(), None);
    let map = [region(0, u64::MAX, false)];
    let mut allocator = BootInfoFrameAllocator::init(&map);
    assert_eq!(allocator.allocate_frame(), None);
}

#[test]
fn region_up_to_the_last_address_is_counted_without_overflow() {
    let map = [region(0, u64::MAX, true)];
    let allocator = BootInfoFrameAllocator::init(&map);
    assert_eq!(allocator.usable_frame(0), Some(0));
    assert_eq!(allocator.usable_frame(5), Some(5 * 4096));
}
