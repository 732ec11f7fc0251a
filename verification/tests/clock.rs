use backupr::args::{time_token, ArgKind};
use backupr::clock::{month_to_number, now_local, now_utc, DateTime};

/// The weekday of a date as the `time` crate computes it, from Monday.
fn weekday(year: i32, month: u8, day: u8) -> u8 {
    time::Date::from_calendar_date(year, time::Month::try_from(month).unwrap(), day)
        .unwrap()
        .weekday()
        .number_days_from_monday()
}

fn moment(year: i32, month: u8, day: u8) -> DateTime {
    DateTime {
        year,
        month,
        day,
        weekday: weekday(year, month, day),
        hour: 9,
        minute: 7,
        second: 30,
        nanosecond: 123_456_789,
        offset_seconds: -19800,
    }
}

fn token(k: ArgKind, t: &DateTime, sep: &str) -> String {
    time_token(k, t, &sep.chars().collect()).iter().collect()
}

#[test]
fn iso_dates() {
    assert_eq!(token(ArgKind::Date, &moment(2024, 3, 5), ":"), "2024-03-05");
    assert_eq!(token(ArgKind::Date, &moment(2024, 2, 29), ":"), "2024-02-29");
    assert_eq!(token(ArgKind::Date, &moment(-44, 3, 15), ":"), "-0044-03-15");
    assert_eq!(token(ArgKind::Date, &moment(7, 12, 31), ":"), "0007-12-31");
}

#[test]
fn utc_offsets() {
    let mut t = moment(2024, 1, 1);
    for (secs, shown) in [
        (0, "+00:00:00"),
        (3600, "+01:00:00"),
        (-19800, "-05:30:00"),
        (93599, "+25:59:59"),
        (-45, "-00:00:45"),
    ] {
        t.offset_seconds = secs;
        assert_eq!(token(ArgKind::Zone, &t, ":"), shown);
    }
    t.offset_seconds = -19800;
    assert_eq!(token(ArgKind::Zone, &t, "h"), "-05h30h00");
}

#[test]
fn names() {
    let mut t = moment(2024, 1, 1);
    for (m, name) in [(1, "January"), (2, "February"), (9, "September"), (12, "December")] {
        t.month = m;
        assert_eq!(token(ArgKind::MonthName, &t, "."), name);
    }
    for (day, name) in [(4, "Monday"), (5, "Tuesday"), (7, "Thursday"), (10, "Sunday")] {
        let t = moment(2024, 3, day);
        assert_eq!(token(ArgKind::DayName, &t, "."), name);
    }
}

#[test]
fn month_numbers() {
    for m in 1..=12u8 {
        assert_eq!(month_to_number(moment(2023, m, 1)), m.to_string());
    }
}

#[test]
fn clock_readings_are_in_range() {
    let t = now_utc();
    assert!((1..=12).contains(&t.month));
    assert!(t.day >= 1 && t.day <= 31);
    assert!(t.weekday < 7 && t.hour < 24 && t.minute < 60 && t.second < 60);
    assert!(t.nanosecond < 1_000_000_000);
    assert_eq!(t.offset_seconds, 0);
    if let Some(l) = now_local() {
        assert!(l.offset_seconds.abs() <= 93599);
    }
}

/// The weekday of a date by counting days (January and February as months 13
/// and 14 of the year before), as the library's calendar states it.
fn weekday_by_count(year: i64, month: i64, day: i64) -> i64 {
    let (y, m) = if month < 3 { (year - 1, month + 12) } else { (year, month) };
    let h = (day + (13 * (m + 1)).div_euclid(5) + y + y.div_euclid(4) - y.div_euclid(100)
        + y.div_euclid(400))
        .rem_euclid(7);
    (h + 5).rem_euclid(7)
}

#[test]
fn weekday_count_agrees_with_the_time_crate() {
    let mut year = -9999i32;
    while year <= 9999 {
        for month in 1..=12u8 {
            for day in [1u8, 15, 28] {
                assert_eq!(
                    weekday_by_count(year as i64, month as i64, day as i64),
                    weekday(year, month, day) as i64,
                    "{}-{}-{}",
                    year,
                    month,
                    day
                );
            }
        }
        year += 7;
    }
    for (y, m, d) in [(2024, 2, 29), (2000, 2, 29), (0, 2, 29), (-4, 2, 29), (-9999, 1, 1), (9999, 12, 31)] {
        assert_eq!(weekday_by_count(y as i64, m as i64, d as i64), weekday(y, m, d) as i64);
    }
}

#[test]
fn clock_weekday_is_that_of_its_date() {
    let t = now_utc();
    assert_eq!(t.weekday, weekday(t.year, t.month, t.day));
}
