use jura_os::task::wake_cell::WakeCell;

#[test]
fn new_cell_holds_nothing() {
    let cell: WakeCell<u32> = WakeCell::new();
    assert!(!cell.is_registered());
}

#[test]
fn signal_without_a_handle_changes_nothing_however_often() {
    let mut cell: WakeCell<u32> = WakeCell::new();
    for _ in 0..1000 {
        assert_eq!(cell.signal(), None);
        assert!(!cell.is_registered());
    }
    cell.register(5);
    assert_eq!(cell.signal(), Some(5));
}

#[test]
fn signal_hands_the_handle_out_once() {
    let mut cell: WakeCell<u32> = WakeCell::new();
    cell.register(9);
    assert!(cell.is_registered());
    assert_eq!(cell.signal(), Some(9));
    assert!(!cell.is_registered());
    assert_eq!(cell.signal(), None);
    assert_eq!(cell.signal(), None);
}

#[test]
fn last_registration_wins() {
    let mut cell: WakeCell<&str> = WakeCell::new();
    cell.register("first");
    cell.register("second");
    assert_eq!(cell.signal(), Some("second"));
    assert_eq!(cell.signal(), None);
}

#[test]
fn take_withdraws_the_handle() {
    let mut cell: WakeCell<u32> = WakeCell::new();
    assert_eq!(cell.take(), None);
    cell.register(3);
    assert_eq!(cell.take(), Some(3));
    assert!(!cell.is_registered());
    assert_eq!(cell.signal(), None);
}
