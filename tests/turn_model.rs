use theme_turns::turn::{stamp, time_label, Mode, Turn};

fn turn(hour: u8, minute: u8, mode: Mode) -> Turn {
    Turn { mode, hour, minute }
}

#[test]
fn stamp_counts_minutes_since_midnight() {
    assert_eq!(stamp(0, 0), 0);
    assert_eq!(stamp(6, 30), 390);
    assert_eq!(stamp(23, 59), 1439);
    assert_eq!(turn(20, 0, Mode::Night).stamp(), 1200);
}

#[test]
fn distance_to_own_time_is_zero() {
    for (h, m) in [(0u8, 0u8), (8, 0), (23, 59), (12, 34)] {
        let t = turn(h, m, Mode::Day);
        assert_eq!(t.time_past_after_reaching(h, m), 0);
    }
}

#[test]
fn distance_to_later_time_is_plain_difference() {
    let t = turn(8, 0, Mode::Day);
    assert_eq!(t.time_past_after_reaching(20, 0), 720);
    assert_eq!(t.time_past_after_reaching(8, 1), 1);
    assert_eq!(t.time_past_after_reaching(23, 59), 959);
}

#[test]
fn distance_to_earlier_time_wraps_through_midnight() {
    let t = turn(20, 0, Mode::Night);
    assert_eq!(t.time_past_after_reaching(19, 59), 1439);
    assert_eq!(t.time_past_after_reaching(7, 0), 1440 - 780);
    assert_eq!(turn(6, 30, Mode::Dark).time_past_after_reaching(0, 0), 1050);
}

#[test]
fn light_theme_value_by_mode_class() {
    assert_eq!(Mode::Light.light_theme_value(), 1);
    assert_eq!(Mode::Day.light_theme_value(), 1);
    assert_eq!(Mode::Dark.light_theme_value(), 0);
    assert_eq!(Mode::Night.light_theme_value(), 0);
    assert!(Mode::Day.is_light());
    assert!(!Mode::Night.is_light());
}

#[test]
fn time_label_is_decimal_hour_colon_minute() {
    assert_eq!(time_label(25, 0), "25:0");
    assert_eq!(time_label(7, 75), "7:75");
    assert_eq!(time_label(255, 100), "255:100");
    assert_eq!(time_label(0, 9), "0:9");
}
