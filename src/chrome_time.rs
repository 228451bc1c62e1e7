//! Conversion between the browser's timestamps (microseconds since
//! 1601-01-01T00:00:00, naive time) and calendar dates.

use chrono::Datelike;
use vstd::arithmetic::div_mod::{lemma_fundamental_div_mod, lemma_fundamental_div_mod_converse};
use vstd::prelude::*;

verus! {

/// Microseconds in one day.
pub const MICROS_PER_DAY: i64 = 86_400_000_000;

/// The first year that a `Date` may hold.
pub const MIN_YEAR: i32 = -262143;

/// The last year that a `Date` may hold.
pub const MAX_YEAR: i32 = 262142;

/// The earliest timestamp that `to_datetime` accepts: midnight of the
/// first day that `Date` can hold.
pub const MIN_TIMESTAMP: i64 = -8_322_956_755_200_000_000;

/// The latest timestamp that `to_datetime` accepts: the last microsecond of
/// the last day that `Date` can hold.
pub const MAX_TIMESTAMP: i64 = 8_221_911_350_399_999_999;

/// The year of the origin of timestamps, 1601-01-01.
pub const ORIGIN_YEAR: i32 = 1601;

/// The month of the origin of timestamps.
pub const ORIGIN_MONTH: u32 = 1;

/// The day of the month of the origin of timestamps.
pub const ORIGIN_DAY_OF_MONTH: u32 = 1;

/// A calendar date of the proleptic Gregorian calendar.
#[derive(Clone, Copy, Debug, PartialEq, Eq, Structural)]
pub struct Date {
    pub year: i32,
    pub month: u32,
    pub day: u32,
}

/// A calendar date with a time of day, to the microsecond.
#[derive(Clone, Copy, Debug, PartialEq, Eq, Structural)]
pub struct DateTime {
    pub date: Date,
    pub hour: u32,
    pub minute: u32,
    pub second: u32,
    pub microsecond: u32,
}

pub open spec fn is_leap_year(y: int) -> bool {
    (y % 4 == 0 && y % 100 != 0) || y % 400 == 0
}

pub open spec fn month_length(y: int, m: int) -> int {
    if m == 2 {
        if is_leap_year(y) { 29 } else { 28 }
    } else if m == 4 || m == 6 || m == 9 || m == 11 {
        30
    } else {
        31
    }
}

pub open spec fn year_length(y: int) -> int {
    if is_leap_year(y) { 366 } else { 365 }
}

/// Days of year `y` that come before the first day of month `m`.
pub open spec fn days_before_month(y: int, m: int) -> int {
    let common: int = if m <= 1 { 0 }
        else if m == 2 { 31 }
        else if m == 3 { 59 }
        else if m == 4 { 90 }
        else if m == 5 { 120 }
        else if m == 6 { 151 }
        else if m == 7 { 181 }
        else if m == 8 { 212 }
        else if m == 9 { 243 }
        else if m == 10 { 273 }
        else if m == 11 { 304 }
        else { 334 };
    if m > 2 && is_leap_year(y) { common + 1 } else { common }
}

/// Days from 0001-01-01 to the first day of year `y` (negative before it).
pub open spec fn days_before_year(y: int) -> int {
    let p = y - 1;
    365 * p + p / 4 - p / 100 + p / 400
}

/// The day number of a date: days since 0001-01-01.
pub open spec fn day_number(y: int, m: int, d: int) -> int {
    days_before_year(y) + days_before_month(y, m) + d - 1
}

/// The day number of the origin, 1601-01-01.
pub open spec fn origin_day() -> int {
    day_number(ORIGIN_YEAR as int, ORIGIN_MONTH as int, ORIGIN_DAY_OF_MONTH as int)
}

pub open spec fn first_day() -> int {
    day_number(MIN_YEAR as int, 1, 1)
}

pub open spec fn last_day() -> int {
    day_number(MAX_YEAR as int, 12, 31)
}

impl Date {
    /// The date exists and lies in the range that the codec supports.
    pub open spec fn wf(&self) -> bool {
        &&& MIN_YEAR <= self.year <= MAX_YEAR
        &&& 1 <= self.month <= 12
        &&& 1 <= self.day <= month_length(self.year as int, self.month as int)
    }

    pub open spec fn days(&self) -> int {
        day_number(self.year as int, self.month as int, self.day as int)
    }
}

impl DateTime {
    pub open spec fn wf(&self) -> bool {
        &&& self.date.wf()
        &&& self.hour < 24
        &&& self.minute < 60
        &&& self.second < 60
        &&& self.microsecond < 1_000_000
    }

    /// Microseconds since midnight.
    pub open spec fn time_of_day(&self) -> int {
        ((self.hour as int * 60 + self.minute as int) * 60 + self.second as int) * 1_000_000
            + self.microsecond as int
    }

    /// The timestamp of this instant: microseconds since the origin.
    pub open spec fn micros(&self) -> int {
        (self.date.days() - origin_day()) * MICROS_PER_DAY + self.time_of_day()
    }

    pub open spec fn is_midnight(&self) -> bool {
        self.hour == 0 && self.minute == 0 && self.second == 0 && self.microsecond == 0
    }
}

/// The timestamp of midnight at the start of day number `n`.
pub open spec fn micros_of_day(n: int) -> int {
    (n - origin_day()) * MICROS_PER_DAY
}

/// A timestamp whose instant falls on a date that `Date` can hold.
pub open spec fn timestamp_in_range(ts: int) -> bool {
    first_day() <= origin_day() + ts / (MICROS_PER_DAY as int) <= last_day()
}

/// The origin of timestamps as a date.
pub fn origin() -> (r: Date)
    ensures
        r.wf(),
        r.days() == origin_day(),
        r == (Date { year: 1601, month: 1, day: 1 }),
{
    Date { year: ORIGIN_YEAR, month: ORIGIN_MONTH, day: ORIGIN_DAY_OF_MONTH }
}

/// Relies on chrono's `NaiveDate::from_ymd_opt` and
/// `NaiveDate::signed_duration_since`: the whole days from `b` to `a` in the
/// proleptic Gregorian calendar.
#[verifier::external_body]
fn days_between(a: Date, b: Date) -> (r: i64)
    requires
        a.wf(),
        b.wf(),
    ensures
        r == a.days() - b.days(),
{
    let a = chrono::NaiveDate::from_ymd_opt(a.year, a.month, a.day).unwrap();
    let b = chrono::NaiveDate::from_ymd_opt(b.year, b.month, b.day).unwrap();
    a.signed_duration_since(b).num_days()
}

/// Relies on chrono's `NaiveDate::checked_add_signed`: the date that lies
/// `n` days after `base`.
#[verifier::external_body]
fn add_days(base: Date, n: i64) -> (r: Date)
    requires
        base.wf(),
        first_day() <= base.days() + n <= last_day(),
    ensures
        r.wf(),
        r.days() == base.days() + n,
{
    let base = chrono::NaiveDate::from_ymd_opt(base.year, base.month, base.day).unwrap();
    let date = base.checked_add_signed(chrono::TimeDelta::days(n)).unwrap();
    Date { year: date.year(), month: date.month(), day: date.day() }
}

proof fn lemma_year_step(y: int)
    ensures
        days_before_year(y + 1) == days_before_year(y) + year_length(y),
{
    let p = y - 1;
    assert(y / 4 == p / 4 + (if y % 4 == 0 { 1int } else { 0 }));
    assert(y / 100 == p / 100 + (if y % 100 == 0 { 1int } else { 0 }));
    assert(y / 400 == p / 400 + (if y % 400 == 0 { 1int } else { 0 }));
}

proof fn lemma_years_ordered(y1: int, y2: int)
    requires
        y1 < y2,
    ensures
        days_before_year(y1) + year_length(y1) <= days_before_year(y2),
    decreases y2 - y1,
{
    lemma_year_step(y1);
    if y1 + 1 < y2 {
        lemma_years_ordered(y1 + 1, y2);
        lemma_year_step(y1 + 1);
    }
}

proof fn lemma_within_year(d: Date)
    requires
        d.wf(),
    ensures
        days_before_year(d.year as int) <= d.days(),
        d.days() < days_before_year(d.year as int) + year_length(d.year as int),
{
}

proof fn lemma_months_ordered(y: int, m1: int, m2: int)
    requires
        1 <= m1 < m2 <= 12,
    ensures
        days_before_month(y, m1) + month_length(y, m1) <= days_before_month(y, m2),
{
}

/// Later dates have larger day numbers.
pub proof fn lemma_days_increasing(a: Date, b: Date)
    requires
        a.wf(),
        b.wf(),
        a.year < b.year || (a.year == b.year && (a.month < b.month || (a.month == b.month
            && a.day < b.day))),
    ensures
        a.days() < b.days(),
{
    lemma_within_year(a);
    lemma_within_year(b);
    if a.year < b.year {
        lemma_years_ordered(a.year as int, b.year as int);
    } else if a.month < b.month {
        lemma_months_ordered(a.year as int, a.month as int, b.month as int);
    }
}

/// Two dates with the same day number are the same date.
pub proof fn lemma_days_injective(a: Date, b: Date)
    requires
        a.wf(),
        b.wf(),
        a.days() == b.days(),
    ensures
        a == b,
{
    if a.year < b.year || (a.year == b.year && (a.month < b.month || (a.month == b.month
        && a.day < b.day))) {
        lemma_days_increasing(a, b);
    } else if b.year < a.year || (a.year == b.year && (b.month < a.month || (a.month == b.month
        && b.day < a.day))) {
        lemma_days_increasing(b, a);
    }
}

/// Every date that `Date` can hold lies between the first and the last day.
pub proof fn lemma_days_in_range(d: Date)
    requires
        d.wf(),
    ensures
        first_day() <= d.days() <= last_day(),
{
    let first = Date { year: MIN_YEAR, month: 1, day: 1 };
    let last = Date { year: MAX_YEAR, month: 12, day: 31 };
    if d != first {
        lemma_days_increasing(first, d);
    }
    if d != last {
        lemma_days_increasing(d, last);
    }
}


/// The timestamp of midnight at the start of `date`.
pub fn from_date(date: Date) -> (r: i64)
    requires
        date.wf(),
    ensures
        r == micros_of_day(date.days()),
        timestamp_in_range(r as int),
{
    proof {
        lemma_days_in_range(date);
    }
    let days = days_between(date, origin());
    let r = days * MICROS_PER_DAY;
    proof {
        assert(r as int / (MICROS_PER_DAY as int) == days as int) by (nonlinear_arith)
            requires
                r as int == days as int * 86_400_000_000;
    }
    r
}

/// Splits a timestamp into whole days since the origin and the
/// microseconds since midnight of the last of them.
fn split_timestamp(ts: i64) -> (r: (i64, u64))
    ensures
        r.0 == ts as int / (MICROS_PER_DAY as int),
        r.1 == ts as int % (MICROS_PER_DAY as int),
{
    let per_day: u64 = 86_400_000_000;
    if ts >= 0 {
        let u = ts as u64;
        let q = u / per_day;
        let m = u % per_day;
        proof {
            lemma_fundamental_div_mod(u as int, per_day as int);
            lemma_fundamental_div_mod_converse(ts as int, per_day as int, q as int, m as int);
        }
        (q as i64, m)
    } else {
        let a = (-(ts + 1)) as u64;
        let q = a / per_day;
        let m = a % per_day;
        proof {
            lemma_fundamental_div_mod(a as int, per_day as int);
            assert(ts as int == (-(q as int) - 1) * per_day + (per_day - 1 - m)) by (nonlinear_arith)
                requires
                    a as int == per_day * (q as int) + m as int,
                    ts as int == -(a as int) - 1,
            ;
            lemma_fundamental_div_mod_converse(
                ts as int,
                per_day as int,
                -(q as int) - 1,
                per_day - 1 - m,
            );
        }
        (-(q as i64) - 1, per_day - 1 - m)
    }
}

/// Splits microseconds since midnight into hours, minutes, seconds and
/// microseconds.
fn split_time_of_day(rest: u64) -> (r: (u32, u32, u32, u32))
    requires
        rest < 86_400_000_000,
    ensures
        r.0 < 24,
        r.1 < 60,
        r.2 < 60,
        r.3 < 1_000_000,
        ((r.0 as int * 60 + r.1 as int) * 60 + r.2 as int) * 1_000_000 + r.3 as int == rest,
{
    let hour = rest / 3_600_000_000;
    let in_hour = rest % 3_600_000_000;
    let minute = in_hour / 60_000_000;
    let in_minute = in_hour % 60_000_000;
    let second = in_minute / 1_000_000;
    let microsecond = in_minute % 1_000_000;
    proof {
        lemma_fundamental_div_mod(rest as int, 3_600_000_000);
        lemma_fundamental_div_mod(in_hour as int, 60_000_000);
        lemma_fundamental_div_mod(in_minute as int, 1_000_000);
    }
    (hour as u32, minute as u32, second as u32, microsecond as u32)
}

/// The date and time that lies `ts` microseconds after the origin.
pub fn to_datetime(ts: i64) -> (r: DateTime)
    requires
        timestamp_in_range(ts as int),
    ensures
        r.wf(),
        r.micros() == ts,
{
    let (days, rest) = split_timestamp(ts);
    proof {
        lemma_fundamental_div_mod(ts as int, MICROS_PER_DAY as int);
    }
    let date = add_days(origin(), days);
    let (hour, minute, second, microsecond) = split_time_of_day(rest);
    DateTime { date, hour, minute, second, microsecond }
}

/// Whether `to_datetime` accepts `ts`.
pub fn timestamp_supported(ts: i64) -> (r: bool)
    ensures
        r == timestamp_in_range(ts as int),
{
    proof {
        lemma_fundamental_div_mod(ts as int, MICROS_PER_DAY as int);
        assert(first_day() - origin_day() == -96_330_518);
        assert(last_day() - origin_day() == 95_161_010);
    }
    MIN_TIMESTAMP <= ts && ts <= MAX_TIMESTAMP
}

proof fn lemma_time_of_day_unique(a: DateTime, b: DateTime)
    requires
        a.wf(),
        b.wf(),
        a.time_of_day() == b.time_of_day(),
    ensures
        a.hour == b.hour,
        a.minute == b.minute,
        a.second == b.second,
        a.microsecond == b.microsecond,
{
    let tod = a.time_of_day();
    let sa = (a.hour as int * 60 + a.minute as int) * 60 + a.second as int;
    let sb = (b.hour as int * 60 + b.minute as int) * 60 + b.second as int;
    lemma_fundamental_div_mod_converse(tod, 1_000_000, sa, a.microsecond as int);
    lemma_fundamental_div_mod_converse(tod, 1_000_000, sb, b.microsecond as int);
    let ma = a.hour as int * 60 + a.minute as int;
    let mb = b.hour as int * 60 + b.minute as int;
    lemma_fundamental_div_mod_converse(sa, 60, ma, a.second as int);
    lemma_fundamental_div_mod_converse(sa, 60, mb, b.second as int);
    lemma_fundamental_div_mod_converse(ma, 60, a.hour as int, a.minute as int);
    lemma_fundamental_div_mod_converse(ma, 60, b.hour as int, b.minute as int);
}

/// A timestamp names one instant: two date-times with the same timestamp
/// are the same.
pub proof fn lemma_instant_unique(a: DateTime, b: DateTime)
    requires
        a.wf(),
        b.wf(),
        a.micros() == b.micros(),
    ensures
        a == b,
{
    let k = a.date.days() - b.date.days();
    let diff = a.time_of_day() - b.time_of_day();
    assert(k * MICROS_PER_DAY + diff == 0);
    assert(k == 0) by (nonlinear_arith)
        requires
            k * 86_400_000_000 + diff == 0,
            -86_400_000_000 < diff < 86_400_000_000,
    ;
    lemma_days_injective(a.date, b.date);
    lemma_time_of_day_unique(a, b);
}

/// Converting a date to a timestamp and back gives midnight of that date.
pub proof fn lemma_round_trip(d: Date, t: DateTime)
    requires
        d.wf(),
        t.wf(),
        t.micros() == micros_of_day(d.days()),
    ensures
        t.date == d,
        t.is_midnight(),
{
    let midnight = DateTime { date: d, hour: 0, minute: 0, second: 0, microsecond: 0 };
    lemma_instant_unique(t, midnight);
}

} // verus!
