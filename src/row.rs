//! One result row of a history query and its rendering as text.

use crate::chrome_time::{timestamp_in_range, to_datetime, DateTime};
use crate::decimal::{decimal_text, digit, int_text, natural_text};
use vstd::prelude::*;

verus! {

/// One visited page: its URL, its title, how often it was visited and when
/// it was visited last.
#[derive(Debug)]
pub struct Row {
    pub url: String,
    pub title: String,
    pub visit_count: i32,
    pub last_visit_time: i64,
}

/// `n` in two digits, `0 <= n < 100`.
pub open spec fn two_digits(n: int) -> Seq<char> {
    seq![digit(n / 10), digit(n % 10)]
}

/// `n` in four digits, `0 <= n < 10000`.
pub open spec fn four_digits(n: int) -> Seq<char> {
    seq![digit(n / 1000), digit(n / 100 % 10), digit(n / 10 % 10), digit(n % 10)]
}

/// `s` after enough zeros to make it four characters long.
pub open spec fn padded_four(s: Seq<char>) -> Seq<char> {
    if s.len() >= 4 {
        s
    } else {
        Seq::new((4 - s.len()) as nat, |i: int| '0') + s
    }
}

/// A year as chrono's `%Y` writes it: four digits from 0 to 9999, otherwise
/// a sign and at least four digits.
pub open spec fn year_text(y: int) -> Seq<char> {
    if 0 <= y <= 9999 {
        four_digits(y)
    } else if y > 9999 {
        seq!['+'] + natural_text(y as nat)
    } else {
        seq!['-'] + padded_four(natural_text((-y) as nat))
    }
}

/// `YYYY-MM-DD HH:MM:SS`.
pub open spec fn iso_text(t: DateTime) -> Seq<char> {
    year_text(t.date.year as int) + seq!['-'] + two_digits(t.date.month as int) + seq!['-']
        + two_digits(t.date.day as int) + seq![' '] + two_digits(t.hour as int) + seq![':']
        + two_digits(t.minute as int) + seq![':'] + two_digits(t.second as int)
}

/// The rendering of a row whose visit time is written `stamp`.
pub open spec fn row_text(
    stamp: Seq<char>,
    title: Seq<char>,
    visit_count: int,
    url: Seq<char>,
) -> Seq<char> {
    seq!['['] + stamp + "] "@ + title + " ("@ + decimal_text(visit_count) + " visits)\n    "@
        + url
}

/// Relies on chrono's `NaiveDateTime::format` with `%Y-%m-%d %H:%M:%S`:
/// the year as `%Y` writes it, each other field in two digits.
#[verifier::external_body]
fn format_datetime(t: DateTime) -> (r: String)
    requires
        t.wf(),
    ensures
        r@ == iso_text(t),
{
    chrono::NaiveDate::from_ymd_opt(t.date.year, t.date.month, t.date.day)
        .unwrap()
        .and_hms_micro_opt(t.hour, t.minute, t.second, t.microsecond)
        .unwrap()
        .format("%Y-%m-%d %H:%M:%S")
        .to_string()
}

/// The rendering of a row whose visit time is written `stamp`: the time in
/// brackets, the title, the visit count, and the URL on an indented line.
pub fn format_row(stamp: &str, title: &str, visit_count: i32, url: &str) -> (r: String)
    ensures
        r@ == row_text(stamp@, title@, visit_count as int, url@),
{
    let mut r = String::from_str("[");
    r.append(stamp);
    r.append("] ");
    r.append(title);
    r.append(" (");
    let count = int_text(visit_count);
    r.append(count.as_str());
    r.append(" visits)\n    ");
    r.append(url);
    proof {
        reveal_strlit("[");
        reveal_strlit("] ");
        reveal_strlit(" (");
        reveal_strlit(" visits)\n    ");
        assert(r@ =~= row_text(stamp@, title@, visit_count as int, url@));
    }
    r
}

impl Row {
    pub fn new(url: String, title: String, visit_count: i32, last_visit_time: i64) -> (r: Self)
        ensures
            r.url@ == url@,
            r.title@ == title@,
            r.visit_count == visit_count,
            r.last_visit_time == last_visit_time,
    {
        Row { url, title, visit_count, last_visit_time }
    }

    /// The row as text: `[YYYY-MM-DD HH:MM:SS] <title> (<n> visits)`, then
    /// the URL on a line indented by four spaces. The time is the one
    /// instant whose timestamp is the last visit time.
    pub fn to_string(&self) -> (r: String)
        requires
            timestamp_in_range(self.last_visit_time as int),
        ensures
            exists|t: DateTime|
                t.wf() && t.micros() == self.last_visit_time && r@ == row_text(
                    iso_text(t),
                    self.title@,
                    self.visit_count as int,
                    self.url@,
                ),
    {
        let t = to_datetime(self.last_visit_time);
        let stamp = format_datetime(t);
        format_row(stamp.as_str(), self.title.as_str(), self.visit_count, self.url.as_str())
    }
}

} // verus!
