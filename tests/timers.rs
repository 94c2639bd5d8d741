use std::collections::HashSet;

use timer_service::service::{quote_handler, status_handler, timer_handler};
use timer_service::time::{whole_seconds_between, Timestamp, MAX_SECS, MIN_SECS};
use timer_service::timer::{
    create_timer, lookup_status, new_timer, status_at, Registry, StatusError, StatusResponse,
    Timer,
};

fn at(secs: i64, nanos: u32) -> Timestamp {
    Timestamp::from_parts(secs, nanos).unwrap()
}

#[test]
fn quote_is_always_the_same() {
    for _ in 0..5 {
        assert_eq!(quote_handler().quote, "You can do it!");
    }
}

#[test]
fn timestamp_rejects_out_of_range_parts() {
    assert!(Timestamp::from_parts(0, 1_000_000_000).is_none());
    assert!(Timestamp::from_parts(MAX_SECS + 1, 0).is_none());
    assert!(Timestamp::from_parts(MIN_SECS - 1, 0).is_none());
    assert_eq!(Timestamp::from_parts(MAX_SECS, 999_999_999), Some(Timestamp { secs: MAX_SECS, nanos: 999_999_999 }));
}

#[test]
fn plus_minutes_adds_sixty_seconds_each() {
    let t = at(1_000, 42);
    assert_eq!(t.plus_minutes(3), Some(at(1_180, 42)));
    assert_eq!(t.plus_minutes(0), Some(t));
    assert_eq!(at(MAX_SECS - 59, 0).plus_minutes(1), None);
    assert_eq!(at(MAX_SECS - 60, 0).plus_minutes(1), Some(at(MAX_SECS, 0)));
    assert_eq!(t.plus_minutes(u64::MAX), None);
}

#[test]
fn whole_seconds_round_toward_zero() {
    assert_eq!(whole_seconds_between(at(10, 0), at(12, 500_000_000)), 2);
    assert_eq!(whole_seconds_between(at(12, 500_000_000), at(10, 0)), -2);
    assert_eq!(whole_seconds_between(at(10, 900_000_000), at(10, 100_000_000)), 0);
    assert_eq!(whole_seconds_between(at(10, 0), at(10, 0)), 0);
    assert_eq!(whole_seconds_between(at(MAX_SECS, 0), at(MIN_SECS, 0)), MIN_SECS - MAX_SECS);
}

#[test]
fn new_timer_ends_minutes_after_start() {
    let start = at(1_700_000_000, 123);
    for m in [0u64, 1, 7, 90, 100_000] {
        let t = new_timer(9, start, m).unwrap();
        assert_eq!(t.id, 9);
        assert_eq!(t.start, start);
        assert_eq!(t.end, at(1_700_000_000 + 60 * m as i64, 123));
    }
    assert_eq!(new_timer(9, at(MAX_SECS, 0), 1), None);
}

#[test]
fn status_counts_each_unit_from_the_whole_span() {
    let t = new_timer(1, at(0, 0), 125).unwrap();
    let s = status_at(&t, at(0, 0));
    assert_eq!(s, StatusResponse { seconds: 7_500, minutes: 125, hours: 2 });
    let s = status_at(&t, at(59, 500_000_000));
    assert_eq!(s, StatusResponse { seconds: 7_440, minutes: 124, hours: 2 });
}

#[test]
fn status_of_elapsed_timer_is_negative() {
    let mut reg = Registry::new();
    create_timer(&mut reg, 5, at(1_000, 0), 0).unwrap();
    let s = lookup_status(&reg, 5, at(1_001, 500_000_000)).unwrap();
    assert_eq!(s, StatusResponse { seconds: -1, minutes: 0, hours: 0 });
    let s = lookup_status(&reg, 5, at(1_000 + 3_700, 0)).unwrap();
    assert_eq!(s, StatusResponse { seconds: -3_700, minutes: -61, hours: -1 });
}

#[test]
fn status_of_unknown_id_is_not_found() {
    let mut reg = Registry::new();
    assert_eq!(status_handler(&reg, 12_345), Err(StatusError::NotFound));
    let t = timer_handler(&mut reg, 1).unwrap();
    assert_eq!(status_handler(&reg, t.id.wrapping_add(1)), Err(StatusError::NotFound));
    assert_eq!(lookup_status(&reg, t.id.wrapping_add(1), t.start), Err(StatusError::NotFound));
    assert_eq!(StatusError::NotFound.message(), "Timer does not exist");
}

#[test]
fn registry_files_timers_under_their_ids() {
    let mut reg = Registry::new();
    assert_eq!(reg.len(), 0);
    let a = Timer { id: 3, start: at(0, 0), end: at(60, 0) };
    let b = Timer { id: 4, start: at(5, 0), end: at(5, 0) };
    reg.insert(a);
    reg.insert(b);
    assert_eq!(reg.get(3), Some(a));
    assert_eq!(reg.get(4), Some(b));
    assert_eq!(reg.get(5), None);
    assert_eq!(reg.len(), 2);
    let c = Timer { id: 3, start: at(1, 0), end: at(61, 0) };
    reg.insert(c);
    assert_eq!(reg.get(3), Some(c));
    assert_eq!(reg.len(), 2);
}

#[test]
fn create_timer_leaves_registry_alone_when_end_does_not_fit() {
    let mut reg = Registry::new();
    assert_eq!(create_timer(&mut reg, 8, at(MAX_SECS, 0), 1), None);
    assert_eq!(reg.len(), 0);
    assert_eq!(reg.get(8), None);
}

#[test]
fn timer_handler_starts_now_and_files_the_timer() {
    let mut reg = Registry::new();
    let t = timer_handler(&mut reg, 3).unwrap();
    assert!(t.start.secs > 1_600_000_000);
    assert_eq!(t.end.secs, t.start.secs + 180);
    assert_eq!(t.end.nanos, t.start.nanos);
    assert_eq!(reg.get(t.id), Some(t));
    assert_eq!(reg.len(), 1);
}

#[test]
fn thousand_created_timers_have_distinct_ids() {
    let mut reg = Registry::new();
    let mut ids = HashSet::new();
    for _ in 0..1_000 {
        let t = timer_handler(&mut reg, 2).unwrap();
        ids.insert(t.id);
    }
    assert_eq!(ids.len(), 1_000);
    assert_eq!(reg.len(), 1_000);
}

#[test]
fn fresh_timer_status_is_close_to_its_duration() {
    let mut reg = Registry::new();
    let t = timer_handler(&mut reg, 90).unwrap();
    let s = status_handler(&reg, t.id).unwrap();
    assert!(s.seconds >= 5_398 && s.seconds <= 5_400);
    assert!(s.minutes == 89 || s.minutes == 90);
    assert_eq!(s.hours, 1);
}

#[test]
fn one_minute_timer_end_to_end() {
    let mut reg = Registry::new();
    let t = timer_handler(&mut reg, 1).unwrap();
    let s = status_handler(&reg, t.id).unwrap();
    assert!(s.seconds >= 58 && s.seconds <= 60);
    assert!(s.minutes == 0 || s.minutes == 1);
    assert_eq!(s.hours, 0);
    let exact = status_at(&t, t.start);
    assert_eq!(exact, StatusResponse { seconds: 60, minutes: 1, hours: 0 });
}

#[test]
fn zero_minute_timer_goes_negative_after_its_end() {
    let mut reg = Registry::new();
    let t = timer_handler(&mut reg, 0).unwrap();
    assert_eq!(t.end, t.start);
    let later = at(t.start.secs + 2, t.start.nanos);
    let s = lookup_status(&reg, t.id, later).unwrap();
    assert_eq!(s, StatusResponse { seconds: -2, minutes: 0, hours: 0 });
}
