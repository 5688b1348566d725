//! Unit tests of the request board's bookkeeping.

use elevator::states::ElevatorData;

#[test]
fn new_board_is_empty_at_bottom() {
    let data = ElevatorData::new();
    assert_eq!(data.floor, 1);
    assert!(!data.have_requests());
    for f in 1..=5usize {
        assert!(!data.get_destination(f));
        assert!(!data.get_up_request(f));
        assert!(!data.get_down_request(f));
    }
}

#[test]
fn set_and_get_each_kind() {
    let mut data = ElevatorData::new();
    data.set_destination(2, true);
    data.set_up_request(3, true);
    data.set_down_request(5, true);
    assert!(data.get_destination(2));
    assert!(data.get_up_request(3));
    assert!(data.get_down_request(5));
    assert!(!data.get_destination(3));
    assert!(!data.get_up_request(2));
    assert!(!data.get_down_request(2));
    data.set_destination(2, false);
    assert!(!data.get_destination(2));
}

#[test]
fn setting_twice_is_a_no_op() {
    let mut data = ElevatorData::new();
    data.set_up_request(4, true);
    data.set_up_request(4, true);
    assert!(data.get_up_request(4));
    assert!(data.have_requests());
    data.set_up_request(4, false);
    assert!(!data.have_requests());
}

#[test]
fn have_requests_sees_every_kind() {
    let mut data = ElevatorData::new();
    assert!(!data.have_requests());
    data.set_destination(1, true);
    assert!(data.have_requests());
    data.set_destination(1, false);
    data.set_up_request(1, true);
    assert!(data.have_requests());
    data.set_up_request(1, false);
    data.set_down_request(5, true);
    assert!(data.have_requests());
}

#[test]
fn extremes_scan_all_kinds() {
    let mut data = ElevatorData::new();
    data.set_up_request(2, true);
    data.set_destination(3, true);
    data.set_down_request(4, true);
    assert_eq!(data.highest_request(), 4);
    assert_eq!(data.lowest_request(), 2);
}

#[test]
fn extremes_fall_back_to_current_floor() {
    let data = ElevatorData::new();
    assert_eq!(data.highest_request(), 1);
    assert_eq!(data.lowest_request(), 1);
}
