use batch_convert::progress::{lane_labels, ProgressState};

#[test]
fn a_new_lane_is_open_and_empty() {
    let lane = ProgressState::new(3);
    assert_eq!(lane.completed_count(), 0);
    assert_eq!(lane.failed_count(), 0);
    assert_eq!(lane.total_count(), 3);
    assert_eq!(lane.last_message(), "");
    assert!(!lane.is_finished());
    assert_eq!(lane.label(), "0/3 ");
}

#[test]
fn each_entry_is_counted_once_with_its_name() {
    let mut lane = ProgressState::new(3);
    assert!(lane.record("a.jpg".to_string(), true));
    assert_eq!(lane.completed_count(), 1);
    assert_eq!(lane.last_message(), "a.jpg");
    assert_eq!(lane.label(), "1/3 a.jpg");
    assert!(lane.record("b.jpg".to_string(), true));
    assert_eq!(lane.completed_count(), 2);
    assert_eq!(lane.last_message(), "b.jpg");
    assert_eq!(lane.failed_count(), 0);
    assert_eq!(lane.total_count(), 3);
}

#[test]
fn a_failed_entry_is_counted_as_done_and_as_failed() {
    let mut lane = ProgressState::new(2);
    assert!(lane.record("bad.jpg".to_string(), false));
    assert_eq!(lane.completed_count(), 1);
    assert_eq!(lane.failed_count(), 1);
    assert!(lane.record("good.jpg".to_string(), true));
    assert_eq!(lane.completed_count(), 2);
    assert_eq!(lane.failed_count(), 1);
}

#[test]
fn a_lane_shows_its_failures() {
    let mut lane = ProgressState::new(12);
    lane.record("a.jpg".to_string(), true);
    assert_eq!(lane.label(), "1/12 a.jpg");
    lane.record("bad.jpg".to_string(), false);
    assert_eq!(lane.label(), "2/12 (1 failed) bad.jpg");
    lane.record("c.jpg".to_string(), true);
    lane.record("worse.jpg".to_string(), false);
    assert_eq!(lane.label(), "4/12 (2 failed) worse.jpg");
    lane.finish();
    assert_eq!(lane.label(), "4/12 (2 failed) Done!");
}

#[test]
fn the_count_never_passes_the_total() {
    let mut lane = ProgressState::new(2);
    assert!(lane.record("a".to_string(), true));
    assert!(lane.record("b".to_string(), true));
    assert!(!lane.record("c".to_string(), true));
    assert!(!lane.record("d".to_string(), false));
    assert_eq!(lane.completed_count(), 2);
    assert_eq!(lane.failed_count(), 0);
    assert_eq!(lane.last_message(), "b");
    let mut none = ProgressState::new(0);
    assert!(!none.record("a".to_string(), true));
    assert_eq!(none.completed_count(), 0);
}

#[test]
fn the_count_never_falls() {
    let mut lane = ProgressState::new(5);
    let mut before = lane.completed_count();
    for round in 0..12 {
        if round == 7 {
            lane.finish();
        } else {
            lane.record(format!("{round}.jpg"), round % 3 != 0);
        }
        assert!(lane.completed_count() >= before);
        assert!(lane.completed_count() <= lane.total_count());
        assert!(lane.failed_count() <= lane.completed_count());
        assert_eq!(lane.total_count(), 5);
        before = lane.completed_count();
    }
    assert_eq!(before, 5);
}

#[test]
fn closing_a_lane_puts_the_marker_in_place_of_the_message() {
    let mut lane = ProgressState::new(1);
    lane.record("a.jpg".to_string(), true);
    assert!(lane.finish());
    assert!(lane.is_finished());
    assert_eq!(lane.last_message(), "Done!");
    assert_eq!(lane.completed_count(), 1);
    assert_eq!(lane.label(), "1/1 Done!");
}

#[test]
fn a_lane_is_closed_once() {
    let mut lane = ProgressState::new(4);
    lane.record("a.jpg".to_string(), true);
    assert!(lane.finish());
    assert!(!lane.finish());
    assert!(!lane.record("b.jpg".to_string(), true));
    assert!(!lane.record("c.jpg".to_string(), false));
    assert_eq!(lane.completed_count(), 1);
    assert_eq!(lane.failed_count(), 0);
    assert_eq!(lane.last_message(), "Done!");
    assert!(lane.is_finished());
}

#[test]
fn every_lane_has_its_line() {
    let mut first = ProgressState::new(12);
    first.record("x.jpg".to_string(), true);
    let mut second = ProgressState::new(0);
    second.finish();
    let third = ProgressState::new(100);
    assert_eq!(
        lane_labels(&vec![first, second, third]),
        vec!["1/12 x.jpg", "0/0 Done!", "0/100 "]
    );
    assert!(lane_labels(&Vec::new()).is_empty());
}
