//! Points in time as plain calendar fields, and what the notes compute from
//! them: day differences and their text.

use chrono::{Datelike, Timelike};
use vstd::prelude::*;

use crate::text::{chars_of, decimal, decimal_text, digits_text, join, join_with, views};

verus! {

/// A calendar date and time of day, in UTC.
#[derive(Clone, Copy, Debug, PartialEq, Eq, Structural)]
pub struct Timestamp {
    pub year: i32,
    pub month: u32,
    pub day: u32,
    pub hour: u32,
    pub minute: u32,
    pub second: u32,
    pub nanosecond: u32,
}

pub const NANOS_PER_DAY: i128 = 86_400_000_000_000;

/// Leap years of the proleptic Gregorian calendar.
pub open spec fn leap_year(y: int) -> bool {
    (y % 4 == 0 && y % 100 != 0) || y % 400 == 0
}

pub open spec fn days_in_month(y: int, m: int) -> int {
    if m == 2 {
        if leap_year(y) {
            29
        } else {
            28
        }
    } else if m == 4 || m == 6 || m == 9 || m == 11 {
        30
    } else {
        31
    }
}

/// The number of days from 1970-01-01 to the given date (negative before it).
pub open spec fn day_number(y: int, m: int, d: int) -> int {
    let yy = if m <= 2 {
        y - 1
    } else {
        y
    };
    let era = yy / 400;
    let yoe = yy - era * 400;
    let doy = (153 * ((m + 9) % 12) + 2) / 5 + d - 1;
    let doe = yoe * 365 + yoe / 4 - yoe / 100 + doy;
    era * 146097 + doe - 719468
}

/// Division rounded toward zero, as Rust's `/` on integers.
pub open spec fn trunc_div(a: int, b: int) -> int {
    if a >= 0 {
        a / b
    } else {
        -((-a) / b)
    }
}

/// The remainder that goes with `trunc_div`, as Rust's `%` on integers.
pub open spec fn trunc_rem(a: int, b: int) -> int {
    a - b * trunc_div(a, b)
}

impl Timestamp {
    /// A real point in time within the range of years that chrono handles.
    pub open spec fn wf(&self) -> bool {
        &&& -262143 <= self.year <= 262142
        &&& 1 <= self.month <= 12
        &&& 1 <= self.day <= days_in_month(self.year as int, self.month as int)
        &&& self.hour < 24
        &&& self.minute < 60
        &&& self.second < 60
        &&& self.nanosecond < 1_000_000_000
    }

    /// Nanoseconds since 1970-01-01 00:00:00.
    pub open spec fn instant(&self) -> int {
        day_number(self.year as int, self.month as int, self.day as int) * NANOS_PER_DAY + ((
        self.hour as int * 60 + self.minute as int) * 60 + self.second as int) * 1_000_000_000
            + self.nanosecond as int
    }

    /// Whether the time of day is within the first second after midnight.
    pub open spec fn at_midnight(&self) -> bool {
        self.hour + self.minute + self.second == 0
    }
}

/// Whole days from `then` to `now`, rounded toward zero.
pub open spec fn days_between(now: Timestamp, then: Timestamp) -> int {
    trunc_div(now.instant() - then.instant(), NANOS_PER_DAY as int)
}

/// `n` in decimal, zero-padded to at least `width` digits.
pub open spec fn padded(n: nat, width: nat) -> Seq<char> {
    let d = digits_text(n);
    if d.len() >= width {
        d
    } else {
        Seq::new((width - d.len()) as nat, |i: int| '0') + d
    }
}

/// A year as chrono writes `%Y`: four digits, with a sign outside 0 to 9999.
pub open spec fn year_text(y: int) -> Seq<char> {
    if 0 <= y <= 9999 {
        padded(y as nat, 4)
    } else if y < 0 {
        seq!['-'] + padded((-y) as nat, 4)
    } else {
        seq!['+'] + padded(y as nat, 4)
    }
}

/// The date as `%Y-%m-%d`.
pub open spec fn date_text(t: Timestamp) -> Seq<char> {
    year_text(t.year as int) + seq!['-'] + padded(t.month as nat, 2) + seq!['-'] + padded(
        t.day as nat,
        2,
    )
}

/// The date and time as `%Y-%m-%d %H:%M:%S`.
pub open spec fn date_time_text(t: Timestamp) -> Seq<char> {
    date_text(t) + seq![' '] + padded(t.hour as nat, 2) + seq![':'] + padded(t.minute as nat, 2)
        + seq![':'] + padded(t.second as nat, 2)
}

/// Relies on chrono's `Utc::now().naive_utc()`: the current UTC time; its
/// sub-second part comes from `SystemTime` and stays below one second. It
/// panics only where the system clock stands before 1970.
#[verifier::external_body]
pub(crate) fn now() -> (r: Timestamp)
    ensures
        r.wf(),
{
    let t = chrono::Utc::now().naive_utc();
    Timestamp {
        year: t.year(),
        month: t.month(),
        day: t.day(),
        hour: t.hour(),
        minute: t.minute(),
        second: t.second(),
        nanosecond: t.nanosecond(),
    }
}

/// Relies on chrono: `NaiveDateTime - NaiveDateTime` is the exact difference,
/// and `TimeDelta::num_days` its whole days, rounded toward zero.
#[verifier::external_body]
pub(crate) fn whole_days_between(now: &Timestamp, then: &Timestamp) -> (r: i64)
    requires
        now.wf(),
        then.wf(),
    ensures
        r as int == days_between(*now, *then),
{
    let a = chrono::NaiveDate::from_ymd_opt(now.year, now.month, now.day).unwrap();
    let a = a.and_hms_nano_opt(now.hour, now.minute, now.second, now.nanosecond).unwrap();
    let b = chrono::NaiveDate::from_ymd_opt(then.year, then.month, then.day).unwrap();
    let b = b.and_hms_nano_opt(then.hour, then.minute, then.second, then.nanosecond).unwrap();
    (a - b).num_days()
}

/// Relies on chrono's `NaiveDateTime::format("%Y-%m-%d")`.
#[verifier::external_body]
pub(crate) fn format_date(t: &Timestamp) -> (r: String)
    requires
        t.wf(),
    ensures
        r@ == date_text(*t),
{
    let d = chrono::NaiveDate::from_ymd_opt(t.year, t.month, t.day).unwrap();
    let d = d.and_hms_nano_opt(t.hour, t.minute, t.second, t.nanosecond).unwrap();
    d.format("%Y-%m-%d").to_string()
}

/// Relies on chrono's `NaiveDateTime::format("%Y-%m-%d %H:%M:%S")`.
#[verifier::external_body]
pub(crate) fn format_date_time(t: &Timestamp) -> (r: String)
    requires
        t.wf(),
    ensures
        r@ == date_time_text(*t),
{
    let d = chrono::NaiveDate::from_ymd_opt(t.year, t.month, t.day).unwrap();
    let d = d.and_hms_nano_opt(t.hour, t.minute, t.second, t.nanosecond).unwrap();
    d.format("%Y-%m-%d %H:%M:%S").to_string()
}

fn is_leap(y: i32) -> (r: bool)
    requires
        -262143 <= y,
    ensures
        r == leap_year(y as int),
{
    let q: u64 = (y as i64 + 400_000) as u64;
    assert(q as int % 4 == y as int % 4);
    assert(q as int % 100 == y as int % 100);
    assert(q as int % 400 == y as int % 400);
    (q % 4 == 0 && q % 100 != 0) || q % 400 == 0
}

fn month_length(y: i32, m: u32) -> (r: u32)
    requires
        -262143 <= y,
    ensures
        r as int == days_in_month(y as int, m as int),
{
    if m == 2 {
        if is_leap(y) {
            29
        } else {
            28
        }
    } else if m == 4 || m == 6 || m == 9 || m == 11 {
        30
    } else {
        31
    }
}

impl Timestamp {
    /// The point in time with the given fields, or `None` where they name none.
    pub fn new(
        year: i32,
        month: u32,
        day: u32,
        hour: u32,
        minute: u32,
        second: u32,
        nanosecond: u32,
    ) -> (r: Option<Timestamp>)
        ensures
            r is Some <==> (Timestamp { year, month, day, hour, minute, second, nanosecond }).wf(),
            r is Some ==> r->Some_0 == (Timestamp { year, month, day, hour, minute, second, nanosecond }),
    {
        if year < -262143 || year > 262142 || month < 1 || month > 12 {
            return None;
        }
        if day < 1 || day > month_length(year, month) {
            return None;
        }
        if hour >= 24 || minute >= 60 || second >= 60 || nanosecond >= 1_000_000_000 {
            return None;
        }
        Some(Timestamp { year, month, day, hour, minute, second, nanosecond })
    }
}

/// The parts of an age of `total` days: years of 365 days, then months of 30
/// days from what is left of the year, then `total` modulo 30 days; a part
/// that is zero is left out.
pub open spec fn ago_parts(total: int) -> Seq<Seq<char>> {
    let years = trunc_div(total, 365);
    let months = trunc_div(trunc_rem(total, 365), 30);
    let days = trunc_rem(total, 30);
    (if years != 0 {
        seq![decimal_text(years) + " years"@]
    } else {
        seq![]
    }) + (if months != 0 {
        seq![decimal_text(months) + " months"@]
    } else {
        seq![]
    }) + (if days != 0 {
        seq![decimal_text(days) + " days"@]
    } else {
        seq![]
    })
}

/// `"N years, M months, D days ago"` for an age of `total` days.
pub open spec fn ago_text(total: int) -> Seq<char> {
    join(ago_parts(total), ", "@) + " ago"@
}

fn unit_text(n: i128, unit: &str) -> (r: Vec<char>)
    ensures
        r@ == decimal_text(n as int) + unit@,
{
    let mut r = decimal(n);
    let mut u = chars_of(unit);
    r.append(&mut u);
    r
}

/// The age text for a last repeat `days_since` whole days ago: the day of the
/// repeat counts too, so the age is `days_since + 1` days.
pub fn repeated_ago_text(days_since: i64) -> (r: Vec<char>)
    ensures
        r@ == ago_text(days_since + 1),
{
    let total: i128 = days_since as i128 + 1;
    let a: u128 = if total < 0 {
        (-total) as u128
    } else {
        total as u128
    };
    let (years, months, days): (i128, i128, i128) = if total < 0 {
        (-((a / 365) as i128), -(((a % 365) / 30) as i128), -((a % 30) as i128))
    } else {
        ((a / 365) as i128, ((a % 365) / 30) as i128, (a % 30) as i128)
    };
    assert(years == trunc_div(total as int, 365));
    assert(trunc_rem(total as int, 365) == if total < 0 {
        -((a % 365) as int)
    } else {
        (a % 365) as int
    });
    assert(months == trunc_div(trunc_rem(total as int, 365), 30));
    assert(days == trunc_rem(total as int, 30));
    let mut parts: Vec<Vec<char>> = Vec::new();
    if years != 0 {
        parts.push(unit_text(years, " years"));
    }
    if months != 0 {
        parts.push(unit_text(months, " months"));
    }
    if days != 0 {
        parts.push(unit_text(days, " days"));
    }
    assert(views(parts@) =~= ago_parts(total as int));
    let mut r = join_with(&parts, &chars_of(", "));
    let mut tail = chars_of(" ago");
    r.append(&mut tail);
    r
}

} // verus!
