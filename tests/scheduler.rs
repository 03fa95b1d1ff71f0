use theme_turns::cursor::{current_turn_index, next_index, Cursor};
use theme_turns::report::ErrorReporter;
use theme_turns::schedule::build_schedule;
use theme_turns::turn::{Mode, Turn};

fn turn(hour: u8, minute: u8, mode: Mode) -> Turn {
    Turn { mode, hour, minute }
}

fn sample() -> Vec<Turn> {
    build_schedule(vec![
        turn(8, 0, Mode::Day),
        turn(20, 0, Mode::Night),
        turn(6, 30, Mode::Dark),
    ])
    .unwrap()
}

#[test]
fn initial_turn_is_the_one_passed_most_recently() {
    let turns = sample();
    // At 7:00 the forward distances are 30 (6:30), 1380 (8:00) and 660 (20:00).
    let i = current_turn_index(&turns, 7, 0);
    assert_eq!(turns[i], turn(6, 30, Mode::Dark));
    let c = Cursor::start(&turns, 7, 0);
    assert_eq!(c.current, 0);
    assert_eq!(c.next, 1);
}

#[test]
fn initial_turn_on_exact_time_is_that_turn() {
    let turns = sample();
    let c = Cursor::start(&turns, 8, 0);
    assert_eq!(turns[c.current], turn(8, 0, Mode::Day));
    assert_eq!(turns[c.next], turn(20, 0, Mode::Night));
}

#[test]
fn initial_turn_before_first_stamp_wraps_to_last() {
    let turns = sample();
    let c = Cursor::start(&turns, 3, 0);
    assert_eq!(turns[c.current], turn(20, 0, Mode::Night));
    assert_eq!(c.next, 0);
}

#[test]
fn no_advance_before_next_turn_time() {
    let turns = sample();
    let mut c = Cursor::start(&turns, 8, 0);
    assert!(!c.advance(&turns, 19, 59));
    assert_eq!(turns[c.current], turn(8, 0, Mode::Day));
}

#[test]
fn advance_when_next_turn_time_is_reached() {
    let turns = sample();
    let mut c = Cursor::start(&turns, 8, 0);
    assert!(c.advance(&turns, 20, 0));
    assert_eq!(turns[c.current], turn(20, 0, Mode::Night));
    assert_eq!(turns[c.next], turn(6, 30, Mode::Dark));
}

#[test]
fn advance_wraps_past_the_last_turn() {
    let turns = sample();
    let mut c = Cursor::start(&turns, 21, 0);
    assert_eq!(c.current, 2);
    assert!(!c.advance(&turns, 6, 29));
    assert!(c.advance(&turns, 6, 45));
    assert_eq!(c.current, 0);
    assert_eq!(c.next, 1);
}

#[test]
fn single_turn_never_advances() {
    let turns = build_schedule(vec![turn(12, 0, Mode::Light)]).unwrap();
    let mut c = Cursor::start(&turns, 3, 0);
    assert_eq!((c.current, c.next), (0, 0));
    assert!(!c.advance(&turns, 12, 0));
    assert!(!c.advance(&turns, 11, 59));
}

#[test]
fn next_index_wraps() {
    assert_eq!(next_index(0, 3), 1);
    assert_eq!(next_index(2, 3), 0);
    assert_eq!(next_index(0, 1), 0);
}

#[test]
fn clock_driven_cursor_stays_in_schedule() {
    let turns = sample();
    let mut c = Cursor::start_now(&turns);
    assert!(c.current < turns.len());
    assert_eq!(c.next, next_index(c.current, turns.len()));
    c.advance_now(&turns);
    assert!(c.current < turns.len());
    assert_eq!(c.next, next_index(c.current, turns.len()));
}

#[test]
fn same_error_is_reported_once() {
    let mut reporter = ErrorReporter::new();
    assert!(reporter.report("bad minute 8:75".to_string()));
    assert!(!reporter.report("bad minute 8:75".to_string()));
    assert!(reporter.report("File is empty".to_string()));
    assert!(reporter.report("bad minute 8:75".to_string()));
    assert_eq!(reporter.last, Some("bad minute 8:75".to_string()));
}
