use jura_os::task::event_queue::{EventQueue, MAX_CAPACITY};

#[test]
fn new_queue_is_empty() {
    let mut queue = EventQueue::new(100);
    assert_eq!(queue.pop(), None);
}

#[test]
fn codes_leave_in_the_order_in_which_they_came() {
    let mut queue = EventQueue::new(100);
    for code in [7u8, 3, 3, 250, 0] {
        assert!(queue.push(code));
    }
    assert_eq!(queue.pop(), Some(7));
    assert_eq!(queue.pop(), Some(3));
    assert_eq!(queue.pop(), Some(3));
    assert_eq!(queue.pop(), Some(250));
    assert_eq!(queue.pop(), Some(0));
    assert_eq!(queue.pop(), None);
    assert_eq!(queue.pop(), None);
}

#[test]
fn full_queue_refuses_the_newest_code() {
    let mut queue = EventQueue::new(2);
    assert!(queue.push(1));
    assert!(queue.push(2));
    assert!(!queue.push(3));
    assert!(!queue.push(4));
    assert_eq!(queue.pop(), Some(1));
    assert!(queue.push(5));
    assert!(!queue.push(6));
    assert_eq!(queue.pop(), Some(2));
    assert_eq!(queue.pop(), Some(5));
    assert_eq!(queue.pop(), None);
}

#[test]
fn queue_of_one_wraps_around() {
    let mut queue = EventQueue::new(1);
    for round in 0..10u8 {
        assert!(queue.push(round));
        assert!(!queue.push(99));
        assert_eq!(queue.pop(), Some(round));
        assert_eq!(queue.pop(), None);
    }
}

#[test]
fn largest_capacity_can_be_made() {
    assert_eq!(MAX_CAPACITY, 65536);
    let mut queue = EventQueue::new(MAX_CAPACITY);
    assert!(queue.push(1));
    assert_eq!(queue.pop(), Some(1));
}
