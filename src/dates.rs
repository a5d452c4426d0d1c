//! Calendar dates as plain values, and the three renderings of a date that
//! the site uses: ISO (`2021-05-01`), human (` 1 May 2021`) and the feed's
//! RFC 2822 timestamp at midnight UTC.

use chrono::{Datelike, TimeZone};
use crate::text::chars_of;
use vstd::prelude::*;

verus! {

/// A proleptic Gregorian calendar date.
#[derive(Clone, Copy, Debug, PartialEq, Eq, Structural)]
pub struct Date {
    pub year: i32,
    pub month: u32,
    pub day: u32,
}

pub open spec fn is_leap_year(y: int) -> bool {
    (y % 4 == 0 && y % 100 != 0) || y % 400 == 0
}

pub open spec fn days_in_month(y: int, m: int) -> int {
    if m == 2 {
        if is_leap_year(y) { 29 } else { 28 }
    } else if m == 4 || m == 6 || m == 9 || m == 11 {
        30
    } else {
        31
    }
}

/// The year range of the calendar library that parses and renders dates.
pub open spec fn year_in_range(y: int) -> bool {
    -262143 <= y <= 262142
}

pub open spec fn valid_ymd(y: int, m: int, d: int) -> bool {
    &&& year_in_range(y)
    &&& 1 <= m <= 12
    &&& 1 <= d <= days_in_month(y, m)
}

impl Date {
    pub open spec fn wf(self) -> bool {
        valid_ymd(self.year as int, self.month as int, self.day as int)
    }

    /// The date that stands in for a missing one: 1970-01-01.
    pub fn epoch() -> (r: Date)
        ensures
            r == (Date { year: 1970, month: 1, day: 1 }),
            r.wf(),
    {
        Date { year: 1970, month: 1, day: 1 }
    }
}

pub open spec fn digit_char(n: int) -> char {
    if n == 0 { '0' }
    else if n == 1 { '1' }
    else if n == 2 { '2' }
    else if n == 3 { '3' }
    else if n == 4 { '4' }
    else if n == 5 { '5' }
    else if n == 6 { '6' }
    else if n == 7 { '7' }
    else if n == 8 { '8' }
    else { '9' }
}

pub open spec fn is_ascii_digit(c: char) -> bool {
    '0' <= c <= '9'
}

pub open spec fn digit_value(c: char) -> int {
    c as int - '0' as int
}

/// The decimal digits of `n`, without leading zeros.
pub open spec fn decimal(n: nat) -> Seq<char>
    decreases n,
{
    if n < 10 {
        seq![digit_char(n as int)]
    } else {
        decimal(n / 10).push(digit_char((n % 10) as int))
    }
}

/// `s` with `c` put in front until it is `w` long.
pub open spec fn left_pad(s: Seq<char>, w: nat, c: char) -> Seq<char> {
    if s.len() >= w {
        s
    } else {
        Seq::new((w - s.len()) as nat, |_i: int| c) + s
    }
}

/// A year as `%Y` writes it: four digits within 0..=9999, else signed.
pub open spec fn year_text(y: int) -> Seq<char> {
    if 0 <= y <= 9999 {
        left_pad(decimal(y as nat), 4, '0')
    } else if y > 9999 {
        seq!['+'] + decimal(y as nat)
    } else {
        seq!['-'] + left_pad(decimal((-y) as nat), 4, '0')
    }
}

/// The date as `%Y-%m-%d` writes it.
pub open spec fn iso_text(d: Date) -> Seq<char> {
    year_text(d.year as int) + seq!['-'] + left_pad(decimal(d.month as nat), 2, '0') + seq!['-']
        + left_pad(decimal(d.day as nat), 2, '0')
}

pub open spec fn month_abbrev(m: int) -> Seq<char> {
    if m == 1 { seq!['J', 'a', 'n'] }
    else if m == 2 { seq!['F', 'e', 'b'] }
    else if m == 3 { seq!['M', 'a', 'r'] }
    else if m == 4 { seq!['A', 'p', 'r'] }
    else if m == 5 { seq!['M', 'a', 'y'] }
    else if m == 6 { seq!['J', 'u', 'n'] }
    else if m == 7 { seq!['J', 'u', 'l'] }
    else if m == 8 { seq!['A', 'u', 'g'] }
    else if m == 9 { seq!['S', 'e', 'p'] }
    else if m == 10 { seq!['O', 'c', 't'] }
    else if m == 11 { seq!['N', 'o', 'v'] }
    else { seq!['D', 'e', 'c'] }
}

/// The date as `%-d %b %Y` writes it (`1 May 2021`): the day without
/// padding, the month's three-letter English name, the year.
pub open spec fn human_text(d: Date) -> Seq<char> {
    decimal(d.day as nat) + seq![' '] + month_abbrev(d.month as int) + seq![' '] + year_text(d.year as int)
}

/// `s` is exactly ten characters `YYYY-MM-DD` of ASCII digits and dashes.
pub open spec fn iso_shaped(s: Seq<char>) -> bool {
    &&& s.len() == 10
    &&& starts_with_iso_date(s)
}

/// The first ten characters of `s` read `YYYY-MM-DD` in ASCII digits.
pub open spec fn starts_with_iso_date(s: Seq<char>) -> bool {
    &&& s.len() >= 10
    &&& is_ascii_digit(s[0]) && is_ascii_digit(s[1]) && is_ascii_digit(s[2]) && is_ascii_digit(s[3])
    &&& s[4] == '-'
    &&& is_ascii_digit(s[5]) && is_ascii_digit(s[6])
    &&& s[7] == '-'
    &&& is_ascii_digit(s[8]) && is_ascii_digit(s[9])
}

/// The date that an ISO-shaped text spells.
pub open spec fn iso_value(s: Seq<char>) -> Date {
    Date {
        year: (digit_value(s[0]) * 1000 + digit_value(s[1]) * 100 + digit_value(s[2]) * 10
            + digit_value(s[3])) as i32,
        month: (digit_value(s[5]) * 10 + digit_value(s[6])) as u32,
        day: (digit_value(s[8]) * 10 + digit_value(s[9])) as u32,
    }
}

/// The RFC 2822 timestamp of midnight UTC on the given day, weekday included.
pub uninterp spec fn rfc2822_midnight(d: Date) -> Seq<char>;

/// What follows the weekday in that timestamp: `1 May 2021 00:00:00 +0000`.
pub open spec fn rfc2822_after_weekday(d: Date) -> Seq<char> {
    decimal(d.day as nat) + seq![' '] + month_abbrev(d.month as int) + seq![' ']
        + left_pad(decimal(d.year as nat), 4, '0') + " 00:00:00 +0000"@
}

fn is_digit_char(c: char) -> (r: bool)
    ensures
        r == is_ascii_digit(c),
{
    '0' <= c && c <= '9'
}

/// Whether `s` is exactly ten characters `YYYY-MM-DD` of ASCII digits and dashes.
pub fn is_iso_date_text(s: &str) -> (r: bool)
    ensures
        r == iso_shaped(s@),
{
    let v = chars_of(s);
    if v.len() != 10 {
        return false;
    }
    is_digit_char(v[0]) && is_digit_char(v[1]) && is_digit_char(v[2]) && is_digit_char(v[3])
        && v[4] == '-' && is_digit_char(v[5]) && is_digit_char(v[6]) && v[7] == '-'
        && is_digit_char(v[8]) && is_digit_char(v[9])
}

/// Relies on chrono's `NaiveDate::parse_from_str` with the format `%Y-%m-%d`:
/// a calendar date or nothing, and on a ten-character `YYYY-MM-DD` text the
/// date it spells when that date exists.
#[verifier::external_body]
pub(crate) fn parse_ymd(s: &str) -> (r: Option<Date>)
    ensures
        r matches Some(d) ==> d.wf(),
        iso_shaped(s@) && iso_value(s@).wf() ==> r == Some(iso_value(s@)),
        iso_shaped(s@) && !iso_value(s@).wf() ==> r is None,
{
    chrono::NaiveDate::parse_from_str(s, "%Y-%m-%d").ok().map(
        |n| Date { year: n.year(), month: n.month(), day: n.day() },
    )
}

/// Relies on chrono's `NaiveDate::format` with `%Y-%m-%d`.
#[verifier::external_body]
pub(crate) fn format_iso(d: Date) -> (r: String)
    requires
        d.wf(),
    ensures
        r@ == iso_text(d),
{
    chrono::NaiveDate::from_ymd_opt(d.year, d.month, d.day).unwrap().format("%Y-%m-%d").to_string()
}

/// Relies on chrono's `NaiveDate::format` with `%-d %b %Y`.
#[verifier::external_body]
pub(crate) fn format_human(d: Date) -> (r: String)
    requires
        d.wf(),
    ensures
        r@ == human_text(d),
{
    chrono::NaiveDate::from_ymd_opt(d.year, d.month, d.day).unwrap().format("%-d %b %Y").to_string()
}

/// Relies on chrono's `DateTime::to_rfc2822`, applied to midnight of the day
/// at offset zero; it panics on years outside 0..=9999. The text is a
/// three-letter weekday, `, `, then the day, month and time.
#[verifier::external_body]
pub(crate) fn format_rfc2822_midnight(d: Date) -> (r: String)
    requires
        d.wf(),
        0 <= d.year <= 9999,
    ensures
        r@ == rfc2822_midnight(d),
        r@.len() >= 5,
        r@.subrange(3, 5) == ", "@,
        r@.subrange(5, r@.len() as int) == rfc2822_after_weekday(d),
{
    let day = chrono::NaiveDate::from_ymd_opt(d.year, d.month, d.day).unwrap();
    let offset = chrono::FixedOffset::east_opt(0).unwrap();
    offset.from_local_datetime(&day.and_hms_opt(0, 0, 0).unwrap()).unwrap().to_rfc2822()
}

} // verus!
