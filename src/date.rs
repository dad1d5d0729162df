//! Calendar dates and timestamps as plain values, the remote service's
//! "YYYY-MM-DD HH:MM:SS" timestamp text, and the calendar arithmetic that
//! chrono performs on them.
use crate::text::{
    all_digits, digits_value, lemma_digits_below, padded, pow10, push_padded, push_str, read_digits,
};
use chrono::Datelike;
use chrono::Timelike;
use vstd::prelude::*;

verus! {

pub open spec fn is_leap(y: int) -> bool {
    (y % 4 == 0 && y % 100 != 0) || y % 400 == 0
}

pub open spec fn days_in_month(y: int, m: int) -> int {
    if m == 2 {
        if is_leap(y) {
            29
        } else {
            28
        }
    } else if m == 4 || m == 6 || m == 9 || m == 11 {
        30
    } else {
        31
    }
}

/// A calendar date of the proleptic Gregorian calendar (any year).
pub open spec fn calendar_date(y: int, m: int, d: int) -> bool {
    1 <= m <= 12 && 1 <= d <= days_in_month(y, m)
}

/// A calendar date whose year has four digits.
pub open spec fn valid_ymd(y: int, m: int, d: int) -> bool {
    1 <= y <= 9999 && calendar_date(y, m, d)
}

pub open spec fn days_before_year(y: int) -> int {
    365 * (y - 1) + (y - 1) / 4 - (y - 1) / 100 + (y - 1) / 400
}

pub open spec fn days_before_month(y: int, m: int) -> int {
    let base: int = if m == 1 {
        0
    } else if m == 2 {
        31
    } else if m == 3 {
        59
    } else if m == 4 {
        90
    } else if m == 5 {
        120
    } else if m == 6 {
        151
    } else if m == 7 {
        181
    } else if m == 8 {
        212
    } else if m == 9 {
        243
    } else if m == 10 {
        273
    } else if m == 11 {
        304
    } else {
        334
    };
    base + if m > 2 && is_leap(y) {
        1int
    } else {
        0int
    }
}

/// Days since 0001-01-01 (a Monday), which is day 0.
pub open spec fn day_number_of(y: int, m: int, d: int) -> int {
    days_before_year(y) + days_before_month(y, m) + d - 1
}

/// The day number of 9999-12-31, the last date with a four-digit year.
pub open spec fn last_day_number() -> int {
    day_number_of(9999, 12, 31)
}

/// A date with a four-digit year.
#[derive(Clone, Copy, Debug, PartialEq, Eq)]
pub struct Date {
    pub year: u32,
    pub month: u32,
    pub day: u32,
}

/// A date and a time of day to the second.
#[derive(Clone, Copy, Debug, PartialEq, Eq)]
pub struct DateTime {
    pub date: Date,
    pub hour: u32,
    pub minute: u32,
    pub second: u32,
}

impl Date {
    pub open spec fn wf(&self) -> bool {
        valid_ymd(self.year as int, self.month as int, self.day as int)
    }

    pub open spec fn day_number(&self) -> int {
        day_number_of(self.year as int, self.month as int, self.day as int)
    }

    /// Days after the Monday that starts this date's week (Monday is 0).
    pub open spec fn weekday(&self) -> int {
        self.day_number() % 7
    }
}

impl DateTime {
    pub open spec fn wf(&self) -> bool {
        &&& self.date.wf()
        &&& self.hour < 24
        &&& self.minute < 60
        &&& self.second < 60
    }

    /// Seconds since 0001-01-01 00:00:00.
    pub open spec fn seconds(&self) -> int {
        self.date.day_number() * 86400 + self.hour * 3600 + self.minute * 60 + self.second
    }

    /// Midnight at the start of `date`.
    pub fn midnight(date: Date) -> (r: DateTime)
        ensures
            r == (DateTime { date, hour: 0, minute: 0, second: 0 }),
    {
        DateTime { date, hour: 0, minute: 0, second: 0 }
    }

    /// The last second of `date`.
    pub fn end_of_day(date: Date) -> (r: DateTime)
        ensures
            r == (DateTime { date, hour: 23, minute: 59, second: 59 }),
    {
        DateTime { date, hour: 23, minute: 59, second: 59 }
    }
}

proof fn lemma_day_number_nonneg(y: int, m: int, d: int)
    requires
        valid_ymd(y, m, d),
    ensures
        0 <= day_number_of(y, m, d) <= last_day_number(),
{
    assert(0 <= days_before_year(y)) by (nonlinear_arith)
        requires
            1 <= y,
    ;
    assert(days_before_year(y) <= days_before_year(9999)) by (nonlinear_arith)
        requires
            y <= 9999,
    ;
}

/// A valid timestamp lies between 0001-01-01 and the end of 9999-12-31.
pub proof fn lemma_seconds_range(t: DateTime)
    requires
        t.wf(),
    ensures
        0 <= t.seconds() < 400_000_000_000,
{
    lemma_day_number_nonneg(t.date.year as int, t.date.month as int, t.date.day as int);
    assert(last_day_number() < 4_000_000);
}

/// Relies on chrono's `Local::now`: the current local date and time, split
/// into its calendar fields (a valid date; the time of day to the second).
#[verifier::external_body]
fn local_now() -> (r: (i32, u32, u32, u32, u32, u32))
    ensures
        calendar_date(r.0 as int, r.1 as int, r.2 as int),
        r.3 < 24,
        r.4 < 60,
        r.5 < 60,
{
    let now = chrono::Local::now();
    (now.year(), now.month(), now.day(), now.hour(), now.minute(), now.second())
}

/// The timestamp of the calendar fields `y`-`mo`-`d` `h`:`mi`:`s`, or `None`
/// where the year does not have four digits.
pub fn date_time_of(y: i32, mo: u32, d: u32, h: u32, mi: u32, s: u32) -> (r: Option<DateTime>)
    requires
        calendar_date(y as int, mo as int, d as int),
        h < 24,
        mi < 60,
        s < 60,
    ensures
        r is Some <==> 1 <= y <= 9999,
        r matches Some(t) ==> t.wf() && t == (DateTime {
            date: Date { year: y as u32, month: mo, day: d },
            hour: h,
            minute: mi,
            second: s,
        }),
{
    if 1 <= y && y <= 9999 {
        Some(DateTime { date: Date { year: y as u32, month: mo, day: d }, hour: h, minute: mi, second: s })
    } else {
        None
    }
}

/// The current local date and time, read from the clock and taken as
/// `date_time_of` takes its fields: `None` where the clock shows a year
/// without four digits.
pub fn current_time() -> (r: Option<DateTime>)
    ensures
        r matches Some(t) ==> t.wf(),
{
    let (y, mo, d, h, mi, s) = local_now();
    date_time_of(y, mo, d, h, mi, s)
}

/// Relies on chrono's `Datelike::weekday` of a `NaiveDate`, counted from
/// Monday by `Weekday::num_days_from_monday`.
#[verifier::external_body]
fn weekday_of(d: Date) -> (r: u32)
    requires
        d.wf(),
    ensures
        r == d.weekday(),
{
    let nd = chrono::NaiveDate::from_ymd_opt(d.year as i32, d.month, d.day).unwrap();
    nd.weekday().num_days_from_monday()
}

/// Relies on chrono's `NaiveDate::checked_sub_days`: the date `n` days
/// earlier.
#[verifier::external_body]
fn days_before(d: Date, n: u32) -> (r: Date)
    requires
        d.wf(),
        d.day_number() - n >= 0,
    ensures
        r.wf(),
        r.day_number() == d.day_number() - n,
{
    let nd = chrono::NaiveDate::from_ymd_opt(d.year as i32, d.month, d.day).unwrap();
    let e = nd.checked_sub_days(chrono::Days::new(n as u64)).unwrap();
    Date { year: e.year() as u32, month: e.month(), day: e.day() }
}

/// Relies on chrono's `NaiveDate::checked_add_days`: the date `n` days later.
#[verifier::external_body]
fn days_after(d: Date, n: u32) -> (r: Date)
    requires
        d.wf(),
        d.day_number() + n <= last_day_number(),
    ensures
        r.wf(),
        r.day_number() == d.day_number() + n,
{
    let nd = chrono::NaiveDate::from_ymd_opt(d.year as i32, d.month, d.day).unwrap();
    let e = nd.checked_add_days(chrono::Days::new(n as u64)).unwrap();
    Date { year: e.year() as u32, month: e.month(), day: e.day() }
}

/// Relies on chrono's `NaiveDateTime::signed_duration_since`, read in whole
/// seconds by `TimeDelta::num_seconds`.
#[verifier::external_body]
fn seconds_between(later: DateTime, earlier: DateTime) -> (r: i64)
    requires
        later.wf(),
        earlier.wf(),
    ensures
        r == later.seconds() - earlier.seconds(),
{
    let a = chrono::NaiveDate::from_ymd_opt(later.date.year as i32, later.date.month, later.date.day)
        .unwrap().and_hms_opt(later.hour, later.minute, later.second).unwrap();
    let b = chrono::NaiveDate::from_ymd_opt(earlier.date.year as i32, earlier.date.month, earlier.date.day)
        .unwrap().and_hms_opt(earlier.hour, earlier.minute, earlier.second).unwrap();
    a.signed_duration_since(b).num_seconds()
}

/// Whether `d` falls in the last week of year 9999, whose Saturday has a
/// five-digit year.
pub open spec fn in_last_week(d: Date) -> bool {
    d.year == 9999 && d.month == 12 && d.day >= 27
}

/// The Monday and the Saturday of the week of `d`.
pub fn week_range(d: Date) -> (r: (Date, Date))
    requires
        d.wf(),
        !in_last_week(d),
    ensures
        r.0.wf(),
        r.1.wf(),
        r.0.day_number() == d.day_number() - d.weekday(),
        r.1.day_number() == r.0.day_number() + 5,
{
    proof {
        lemma_day_number_nonneg(d.year as int, d.month as int, d.day as int);
    }
    let wd = weekday_of(d);
    let monday = days_before(d, wd);
    proof {
        assert(day_number_of(9999, 12, 27) == last_day_number() - 4);
        if d.year < 9999 {
            assert(days_before_year(d.year as int) + 365 <= days_before_year(9999)) by (nonlinear_arith)
                requires
                    d.year < 9999,
            ;
        }
    }
    let saturday = days_after(monday, 5);
    (monday, saturday)
}

/// Elapsed seconds from `earlier` to `later` (negative where `later` comes
/// first).
pub fn elapsed_seconds(earlier: DateTime, later: DateTime) -> (r: i64)
    requires
        earlier.wf(),
        later.wf(),
    ensures
        r == later.seconds() - earlier.seconds(),
{
    seconds_between(later, earlier)
}

/// The date `d` as its "YYYY-MM-DD" text.
pub open spec fn date_text(d: Date) -> Seq<char> {
    padded(d.year as nat, 4) + seq!['-'] + padded(d.month as nat, 2) + seq!['-'] + padded(
        d.day as nat,
        2,
    )
}

/// The timestamp `t` as its "YYYY-MM-DD HH:MM:SS" text.
pub open spec fn timestamp_text(t: DateTime) -> Seq<char> {
    date_text(t.date) + seq![' '] + padded(t.hour as nat, 2) + seq![':'] + padded(
        t.minute as nat,
        2,
    ) + seq![':'] + padded(t.second as nat, 2)
}

/// Writes `d` as "YYYY-MM-DD".
pub fn format_date(d: Date) -> (r: String)
    ensures
        r@ == date_text(d),
{
    let mut s = String::new();
    push_padded(&mut s, d.year as u64, 4);
    push_str(&mut s, "-");
    push_padded(&mut s, d.month as u64, 2);
    push_str(&mut s, "-");
    push_padded(&mut s, d.day as u64, 2);
    proof {
        reveal_strlit("-");
    }
    assert(s@ =~= date_text(d));
    s
}

/// Writes `t` as "YYYY-MM-DD HH:MM:SS".
pub fn format_timestamp(t: DateTime) -> (r: String)
    ensures
        r@ == timestamp_text(t),
{
    let mut s = format_date(t.date);
    push_str(&mut s, " ");
    push_padded(&mut s, t.hour as u64, 2);
    push_str(&mut s, ":");
    push_padded(&mut s, t.minute as u64, 2);
    push_str(&mut s, ":");
    push_padded(&mut s, t.second as u64, 2);
    proof {
        reveal_strlit(" ");
        reveal_strlit(":");
    }
    assert(s@ =~= timestamp_text(t));
    s
}

pub open spec fn field(s: Seq<char>, start: int, len: int) -> Seq<char> {
    s.subrange(start, start + len)
}

/// The timestamp that the text `s` writes as "YYYY-MM-DD HH:MM:SS", if it is
/// one.
pub open spec fn timestamp_of(s: Seq<char>) -> Option<DateTime> {
    if s.len() == 19 && s[4] == '-' && s[7] == '-' && s[10] == ' ' && s[13] == ':' && s[16]
        == ':' && all_digits(field(s, 0, 4)) && all_digits(field(s, 5, 2)) && all_digits(
        field(s, 8, 2),
    ) && all_digits(field(s, 11, 2)) && all_digits(field(s, 14, 2)) && all_digits(
        field(s, 17, 2),
    ) && valid_ymd(
        digits_value(field(s, 0, 4)) as int,
        digits_value(field(s, 5, 2)) as int,
        digits_value(field(s, 8, 2)) as int,
    ) && digits_value(field(s, 11, 2)) < 24 && digits_value(field(s, 14, 2)) < 60
        && digits_value(field(s, 17, 2)) < 60 {
        Some(
            DateTime {
                date: Date {
                    year: digits_value(field(s, 0, 4)) as u32,
                    month: digits_value(field(s, 5, 2)) as u32,
                    day: digits_value(field(s, 8, 2)) as u32,
                },
                hour: digits_value(field(s, 11, 2)) as u32,
                minute: digits_value(field(s, 14, 2)) as u32,
                second: digits_value(field(s, 17, 2)) as u32,
            },
        )
    } else {
        None
    }
}

/// Reads a "YYYY-MM-DD HH:MM:SS" timestamp.
pub fn parse_timestamp(s: &str) -> (r: Option<DateTime>)
    ensures
        r == timestamp_of(s@),
        r matches Some(t) ==> t.wf(),
{
    let n = s.unicode_len();
    if n != 19 {
        return None;
    }
    if s.get_char(4) != '-' || s.get_char(7) != '-' || s.get_char(10) != ' ' || s.get_char(13)
        != ':' || s.get_char(16) != ':' {
        return None;
    }
    let y = read_digits(s, 0, 4);
    let mo = read_digits(s, 5, 2);
    let d = read_digits(s, 8, 2);
    let h = read_digits(s, 11, 2);
    let mi = read_digits(s, 14, 2);
    let sec = read_digits(s, 17, 2);
    match (y, mo, d, h, mi, sec) {
        (Some(y), Some(mo), Some(d), Some(h), Some(mi), Some(sec)) => {
            proof {
                lemma_digits_below(field(s@, 0, 4));
                lemma_digits_below(field(s@, 5, 2));
                lemma_digits_below(field(s@, 8, 2));
                lemma_digits_below(field(s@, 11, 2));
                lemma_digits_below(field(s@, 14, 2));
                lemma_digits_below(field(s@, 17, 2));
                reveal_with_fuel(pow10, 5);
            }
            if valid_date(y, mo, d) && h < 24 && mi < 60 && sec < 60 {
                Some(
                    DateTime {
                        date: Date { year: y as u32, month: mo as u32, day: d as u32 },
                        hour: h as u32,
                        minute: mi as u32,
                        second: sec as u32,
                    },
                )
            } else {
                None
            }
        },
        _ => None,
    }
}

/// Whether year `y`, month `m` and day `d` form a date with a four-digit year.
pub fn valid_date(y: u64, m: u64, d: u64) -> (r: bool)
    ensures
        r == valid_ymd(y as int, m as int, d as int),
{
    if y < 1 || y > 9999 || m < 1 || m > 12 || d < 1 {
        return false;
    }
    let leap = (y % 4 == 0 && y % 100 != 0) || y % 400 == 0;
    let dim: u64 = if m == 2 {
        if leap {
            29
        } else {
            28
        }
    } else if m == 4 || m == 6 || m == 9 || m == 11 {
        30
    } else {
        31
    };
    d <= dim
}

} // verus!
