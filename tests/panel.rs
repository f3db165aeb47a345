use ninetwofive::panel::split_hms;
use ninetwofive::Visible;

#[test]
fn only_the_timer_is_shown_at_first() {
    let v = Visible::new();
    assert!(v.timer);
    assert!(!v.menu);
    assert!(!v.past_log);
}

#[test]
fn splits_seconds_into_clock_parts() {
    assert_eq!(split_hms(0), (0, 0, 0));
    assert_eq!(split_hms(90), (0, 1, 30));
    assert_eq!(split_hms(3600), (1, 0, 0));
    assert_eq!(split_hms(3 * 3600 + 25 * 60 + 7), (3, 25, 7));
    assert_eq!(split_hms(100 * 3600 + 59), (100, 0, 59));
}
