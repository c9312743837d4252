use ntfy_daemon::models::Schedule;
use ntfy_daemon::schedule::{read_time, LocalTime};

fn schedule(start: &str, end: &str, days: &[u8]) -> Schedule {
    Schedule { start_time: start.to_string(), end_time: end.to_string(), days: days.to_vec() }
}

fn at(weekday: u8, hour: u8, minute: u8) -> LocalTime {
    LocalTime { weekday, hour, minute }
}

const ALL_DAYS: [u8; 7] = [0, 1, 2, 3, 4, 5, 6];

#[test]
fn read_time_reads_hours_and_minutes() {
    assert_eq!(read_time("22:00"), Some((22, 0)));
    assert_eq!(read_time("07:05"), Some((7, 5)));
    assert_eq!(read_time("7:5"), Some((7, 5)));
    assert_eq!(read_time("+7:+5"), Some((7, 5)));
    assert_eq!(read_time("99:99"), Some((99, 99)));
    assert_eq!(read_time("4294967295:0"), Some((4294967295, 0)));
}

#[test]
fn read_time_refuses_what_is_no_time() {
    assert_eq!(read_time(""), None);
    assert_eq!(read_time("2200"), None);
    assert_eq!(read_time("22:00:00"), None);
    assert_eq!(read_time(":"), None);
    assert_eq!(read_time("22:"), None);
    assert_eq!(read_time(":30"), None);
    assert_eq!(read_time("+:1"), None);
    assert_eq!(read_time("-1:00"), None);
    assert_eq!(read_time(" 22:00"), None);
    assert_eq!(read_time("22:0a"), None);
    assert_eq!(read_time("4294967296:0"), None);
    assert_eq!(read_time("99999999999999999999999:0"), None);
}

#[test]
fn window_within_one_day() {
    let s = schedule("09:00", "17:00", &[1, 2, 3, 4, 5]);
    assert!(s.schedule_mute(at(1, 9, 0)));
    assert!(s.schedule_mute(at(3, 16, 59)));
    assert!(!s.schedule_mute(at(3, 17, 0)));
    assert!(!s.schedule_mute(at(3, 8, 59)));
    assert!(!s.schedule_mute(at(0, 12, 0)));
    assert!(!s.schedule_mute(at(6, 12, 0)));
}

#[test]
fn window_over_midnight() {
    let s = schedule("22:00", "07:00", &[1, 2, 3, 4, 5]);
    // Tuesday 23:30: the evening part of Tuesday's window.
    assert!(s.schedule_mute(at(2, 23, 30)));
    // Saturday 06:59: the morning part of Friday's window.
    assert!(s.schedule_mute(at(6, 6, 59)));
    // Saturday 07:00: over.
    assert!(!s.schedule_mute(at(6, 7, 0)));
    // Saturday 23:00: Saturday has no window.
    assert!(!s.schedule_mute(at(6, 23, 0)));
    // Monday 03:00: Sunday has no window.
    assert!(!s.schedule_mute(at(1, 3, 0)));
    // Monday 22:00: begins.
    assert!(s.schedule_mute(at(1, 22, 0)));
    assert!(!s.schedule_mute(at(1, 21, 59)));
    assert!(!s.schedule_mute(at(3, 12, 0)));
}

#[test]
fn window_over_midnight_from_saturday_into_sunday() {
    let s = schedule("23:00", "01:00", &[6]);
    assert!(s.schedule_mute(at(0, 0, 30)));
    assert!(s.schedule_mute(at(6, 23, 30)));
    assert!(!s.schedule_mute(at(6, 0, 30)));
    assert!(!s.schedule_mute(at(0, 23, 30)));
}

#[test]
fn equal_start_and_end_is_an_empty_window() {
    let s = schedule("08:00", "08:00", &ALL_DAYS);
    for day in 0..7 {
        assert!(!s.schedule_mute(at(day, 8, 0)));
        assert!(!s.schedule_mute(at(day, 7, 59)));
        assert!(!s.schedule_mute(at(day, 23, 59)));
        assert!(!s.schedule_mute(at(day, 0, 0)));
    }
}

#[test]
fn no_days() {
    let inside = schedule("09:00", "17:00", &[]);
    let over = schedule("22:00", "07:00", &[]);
    for day in 0..7 {
        assert!(!inside.schedule_mute(at(day, 12, 0)));
        assert!(!over.schedule_mute(at(day, 23, 0)));
        assert!(!over.schedule_mute(at(day, 3, 0)));
    }
}

#[test]
fn all_days() {
    let inside = schedule("09:00", "17:00", &ALL_DAYS);
    let over = schedule("22:00", "07:00", &ALL_DAYS);
    for day in 0..7 {
        assert!(inside.schedule_mute(at(day, 12, 0)));
        assert!(!inside.schedule_mute(at(day, 18, 0)));
        assert!(over.schedule_mute(at(day, 23, 0)));
        assert!(over.schedule_mute(at(day, 3, 0)));
        assert!(!over.schedule_mute(at(day, 12, 0)));
    }
}

#[test]
fn unreadable_times_switch_the_schedule_off() {
    assert!(!schedule("nine", "17:00", &ALL_DAYS).schedule_mute(at(1, 12, 0)));
    assert!(!schedule("09:00", "", &ALL_DAYS).schedule_mute(at(1, 12, 0)));
    assert!(!schedule("09-00", "17-00", &ALL_DAYS).schedule_mute(at(1, 12, 0)));
}

#[test]
fn times_beyond_the_day() {
    // 0:00 to 24:00 holds the whole day.
    let s = schedule("00:00", "24:00", &[2]);
    assert!(s.schedule_mute(at(2, 0, 0)));
    assert!(s.schedule_mute(at(2, 23, 59)));
    assert!(!s.schedule_mute(at(3, 0, 0)));
}
