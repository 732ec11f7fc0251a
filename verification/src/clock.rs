//! Moments in time as plain values, and the calls into the `time` crate that
//! read the clock and render dates, offsets and names.
use vstd::prelude::*;
use time::OffsetDateTime;
use crate::number::{padded, decimal, fmt_u64};
use crate::text::{chars_of, chars_eq, string_of};

verus! {

#[verifier::external_type_specification]
#[verifier::external_body]
pub struct ExOffsetDateTime(time::OffsetDateTime);

/// A moment as a clock reports it: calendar date, weekday, time of day and the
/// offset from UTC it is given in.
#[derive(Clone, Copy, Debug, PartialEq, Eq)]
pub struct DateTime {
    /// Calendar year (negative before year 1).
    pub year: i32,
    /// Month of the year, 1 for January.
    pub month: u8,
    /// Day of the month, from 1.
    pub day: u8,
    /// Days since Monday: 0 for Monday, 6 for Sunday.
    pub weekday: u8,
    pub hour: u8,
    pub minute: u8,
    pub second: u8,
    pub nanosecond: u32,
    /// Offset from UTC in seconds; negative to the west.
    pub offset_seconds: i32,
}

/// The Gregorian leap-year rule.
pub open spec fn is_leap_year(year: int) -> bool {
    (year % 4 == 0 && year % 100 != 0) || year % 400 == 0
}

/// Number of days in `month` of `year`.
pub open spec fn days_in_month(year: int, month: int) -> int {
    if month == 2 {
        if is_leap_year(year) {
            29
        } else {
            28
        }
    } else if month == 4 || month == 6 || month == 9 || month == 11 {
        30
    } else {
        31
    }
}

/// A calendar date that the `time` crate can represent.
pub open spec fn valid_date(year: int, month: int, day: int) -> bool {
    &&& -9999 <= year <= 9999
    &&& 1 <= month <= 12
    &&& 1 <= day <= days_in_month(year, month)
}

/// The day of the week of a date of the proleptic Gregorian calendar, counted
/// in days from Monday (0 for Monday, 6 for Sunday).  January and February
/// count as months 13 and 14 of the year before; the rest is the number of
/// days elapsed, modulo 7.
pub open spec fn weekday_of_date(year: int, month: int, day: int) -> int {
    let y = if month < 3 { year - 1 } else { year };
    let m = if month < 3 { month + 12 } else { month };
    let h = (day + (13 * (m + 1)) / 5 + y + y / 4 - y / 100 + y / 400) % 7;
    (h + 5) % 7
}

/// Largest magnitude of a UTC offset, in seconds (25:59:59).
pub open spec fn max_offset_seconds() -> int {
    93599
}

impl DateTime {
    /// Every field lies in its range.
    pub open spec fn wf(self) -> bool {
        &&& valid_date(self.year as int, self.month as int, self.day as int)
        &&& self.weekday < 7
        &&& self.weekday == weekday_of_date(self.year as int, self.month as int, self.day as int)
        &&& self.hour < 24
        &&& self.minute < 60
        &&& self.second < 60
        &&& self.nanosecond < 1_000_000_000
        &&& -max_offset_seconds() <= self.offset_seconds <= max_offset_seconds()
    }
}

/// `YYYY-MM-DD`, as the `time` crate displays a date (a `-` before the year
/// when it is negative).
pub open spec fn iso_date_text(year: int, month: int, day: int) -> Seq<char> {
    (if year < 0 { seq!['-'] } else { Seq::<char>::empty() }) + padded(
        (if year < 0 { -year } else { year }) as nat,
        4,
    ) + seq!['-'] + padded(month as nat, 2) + seq!['-'] + padded(day as nat, 2)
}

/// `+HH:MM:SS` (or `-HH:MM:SS`), as the `time` crate displays a UTC offset.
pub open spec fn offset_text_spec(seconds: int) -> Seq<char> {
    let a: nat = (if seconds < 0 { -seconds } else { seconds }) as nat;
    seq![if seconds < 0 { '-' } else { '+' }] + padded(a / 3600, 2) + seq![':'] + padded(
        (a / 60) % 60,
        2,
    ) + seq![':'] + padded(a % 60, 2)
}

/// English name of month `m` (1 for January).
pub open spec fn month_name_spec(m: int) -> Seq<char> {
    if m == 1 {
        "January"@
    } else if m == 2 {
        "February"@
    } else if m == 3 {
        "March"@
    } else if m == 4 {
        "April"@
    } else if m == 5 {
        "May"@
    } else if m == 6 {
        "June"@
    } else if m == 7 {
        "July"@
    } else if m == 8 {
        "August"@
    } else if m == 9 {
        "September"@
    } else if m == 10 {
        "October"@
    } else if m == 11 {
        "November"@
    } else {
        "December"@
    }
}

/// English name of the weekday `w` days after Monday.
pub open spec fn weekday_name_spec(w: int) -> Seq<char> {
    if w == 0 {
        "Monday"@
    } else if w == 1 {
        "Tuesday"@
    } else if w == 2 {
        "Wednesday"@
    } else if w == 3 {
        "Thursday"@
    } else if w == 4 {
        "Friday"@
    } else if w == 5 {
        "Saturday"@
    } else {
        "Sunday"@
    }
}

/// `OffsetDateTime::now_utc`: the current moment, with the offset it is given
/// in (`OffsetDateTime::offset`, in whole seconds).  The crate documents the
/// moment as being in UTC, so the offset is 0; nothing is claimed of the moment
/// itself, which the system clock decides.
#[verifier::external_body]
fn read_now_utc() -> (r: (OffsetDateTime, i32))
    ensures
        r.1 == 0,
{
    let t = OffsetDateTime::now_utc();
    (t, t.offset().whole_seconds())
}

/// `OffsetDateTime::now_local`: the current moment in the local offset, with
/// that offset in whole seconds (which the crate bounds by 25:59:59), or `None`
/// when the crate cannot determine the offset.  Nothing is claimed of which of
/// the two comes back, nor of the moment.
#[verifier::external_body]
fn read_now_local() -> (r: Option<(OffsetDateTime, i32)>)
    ensures
        r matches Some(p) ==> -max_offset_seconds() <= p.1 <= max_offset_seconds(),
{
    match OffsetDateTime::now_local() {
        Ok(t) => Some((t, t.offset().whole_seconds())),
        Err(_) => None,
    }
}

/// `OffsetDateTime::to_calendar_date` and `OffsetDateTime::weekday`: year,
/// month number, day, and the weekday counted from Monday.  The crate only
/// holds valid dates of years -9999 to 9999 of the proleptic Gregorian
/// calendar, and the weekday is that of the date.
#[verifier::external_body]
fn calendar_date_of(t: &OffsetDateTime) -> (r: (i32, u8, u8, u8))
    ensures
        valid_date(r.0 as int, r.1 as int, r.2 as int),
        r.3 == weekday_of_date(r.0 as int, r.1 as int, r.2 as int),
{
    let (y, m, d) = t.to_calendar_date();
    (y, m as u8, d, t.weekday().number_days_from_monday())
}

/// `OffsetDateTime::to_hms_nano`: hour, minute, second and nanosecond, each in
/// its range.
#[verifier::external_body]
fn clock_time_of(t: &OffsetDateTime) -> (r: (u8, u8, u8, u32))
    ensures
        r.0 < 24,
        r.1 < 60,
        r.2 < 60,
        r.3 < 1_000_000_000,
{
    t.to_hms_nano()
}

/// The plain values of a moment of the `time` crate that is given in the
/// offset `offset_seconds`.
fn datetime_of(t: &OffsetDateTime, offset_seconds: i32) -> (r: DateTime)
    requires
        -max_offset_seconds() <= offset_seconds <= max_offset_seconds(),
    ensures
        r.wf(),
        r.offset_seconds == offset_seconds,
{
    let (year, month, day, weekday) = calendar_date_of(t);
    let (hour, minute, second, nanosecond) = clock_time_of(t);
    DateTime {
        year,
        month,
        day,
        weekday,
        hour,
        minute,
        second,
        nanosecond,
        offset_seconds,
    }
}

/// The current moment in UTC: its offset is 0.
pub fn now_utc() -> (r: DateTime)
    ensures
        r.wf(),
        r.offset_seconds == 0,
{
    let (t, offset) = read_now_utc();
    datetime_of(&t, offset)
}

/// The current moment in the local offset, or `None` when that offset cannot
/// be determined.
pub fn now_local() -> (r: Option<DateTime>)
    ensures
        r matches Some(d) ==> d.wf(),
{
    match read_now_local() {
        Some((t, offset)) => Some(datetime_of(&t, offset)),
        None => None,
    }
}

/// `Display` of `time::Date`: the date as `YYYY-MM-DD`.
#[verifier::external_body]
pub(crate) fn date_text(year: i32, month: u8, day: u8) -> (r: String)
    requires
        valid_date(year as int, month as int, day as int),
    ensures
        r@ == iso_date_text(year as int, month as int, day as int),
{
    let m = time::Month::try_from(month).unwrap();
    time::Date::from_calendar_date(year, m, day).unwrap().to_string()
}

/// `Display` of `time::UtcOffset`: the offset as `+HH:MM:SS` or `-HH:MM:SS`.
#[verifier::external_body]
pub(crate) fn offset_text(seconds: i32) -> (r: String)
    requires
        -max_offset_seconds() <= seconds <= max_offset_seconds(),
    ensures
        r@ == offset_text_spec(seconds as int),
{
    time::UtcOffset::from_whole_seconds(seconds).unwrap().to_string()
}

/// `Display` of `time::Month`: the English name of month `month`.
#[verifier::external_body]
pub(crate) fn month_name(month: u8) -> (r: String)
    requires
        1 <= month <= 12,
    ensures
        r@ == month_name_spec(month as int),
{
    time::Month::try_from(month).unwrap().to_string()
}

/// `Display` of `time::Weekday`: the English name of the weekday `weekday`
/// days after Monday.
#[verifier::external_body]
pub(crate) fn weekday_name(weekday: u8) -> (r: String)
    requires
        weekday < 7,
    ensures
        r@ == weekday_name_spec(weekday as int),
{
    time::Weekday::Monday.nth_next(weekday).to_string()
}

/// The month names in calendar order, as the lookup table of `month_to_number`.
fn month_table(i: usize) -> (r: &'static str)
    requires
        i < 12,
    ensures
        r@ == month_name_spec(i + 1),
{
    if i == 0 {
        "January"
    } else if i == 1 {
        "February"
    } else if i == 2 {
        "March"
    } else if i == 3 {
        "April"
    } else if i == 4 {
        "May"
    } else if i == 5 {
        "June"
    } else if i == 6 {
        "July"
    } else if i == 7 {
        "August"
    } else if i == 8 {
        "September"
    } else if i == 9 {
        "October"
    } else if i == 10 {
        "November"
    } else {
        "December"
    }
}

/// Month names differ from one another.
proof fn lemma_month_names_distinct(a: int, b: int)
    requires
        1 <= a <= 12,
        1 <= b <= 12,
        a != b,
    ensures
        month_name_spec(a) != month_name_spec(b),
{
    reveal_strlit("January");
    reveal_strlit("February");
    reveal_strlit("March");
    reveal_strlit("April");
    reveal_strlit("May");
    reveal_strlit("June");
    reveal_strlit("July");
    reveal_strlit("August");
    reveal_strlit("September");
    reveal_strlit("October");
    reveal_strlit("November");
    reveal_strlit("December");
    let x = month_name_spec(a);
    let y = month_name_spec(b);
    if x.len() == y.len() {
        assert(x[0] != y[0] || x[1] != y[1] || x[2] != y[2]);
    }
}

/// The number of the month of `current_time`, found by looking its name up
/// among the month names: `"1"` for January up to `"12"` for December.
pub fn month_to_number(current_time: DateTime) -> (r: String)
    requires
        current_time.wf(),
    ensures
        r@ == decimal(current_time.month as nat),
{
    let shown = month_name(current_time.month);
    let name = chars_of(shown.as_str());
    let mut i: usize = 0;
    while i < 12
        invariant
            1 <= current_time.month <= 12,
            name@ == month_name_spec(current_time.month as int),
            i <= current_time.month - 1,
        decreases 12 - i,
    {
        let candidate = chars_of(month_table(i));
        if chars_eq(&candidate, &name) {
            proof {
                if i + 1 != current_time.month {
                    lemma_month_names_distinct(i + 1, current_time.month as int);
                }
            }
            return string_of(&fmt_u64((i + 1) as u64));
        }
        proof {
            if i + 1 == current_time.month {
                assert(candidate@ == name@);
            }
        }
        i = i + 1;
    }
    // Not reached: the month's own name is in the table, so the loop returns.
    string_of(&fmt_u64(current_time.month as u64))
}

} // verus!
