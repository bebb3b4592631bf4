//! Calendar dates as plain year/month/day values, with ISO-8601 parsing,
//! rendering, and an inclusive ordering used by the range filter.

use vstd::prelude::*;

verus! {

/// A calendar date. Well-formed values satisfy [`Date::wf`].
#[derive(Clone, Copy, PartialEq, Eq, Structural, Debug)]
pub struct Date {
    pub year: u16,
    pub month: u8,
    pub day: u8,
}

/// A year is a leap year exactly when divisible by 4, except centuries,
/// which must be divisible by 400.
pub open spec fn spec_is_leap_year(y: int) -> bool {
    y % 4 == 0 && (y % 100 != 0 || y % 400 == 0)
}

/// Number of days in the given month of the given year.
pub open spec fn spec_days_in_month(y: int, m: int) -> int {
    if m == 2 {
        if spec_is_leap_year(y) {
            29
        } else {
            28
        }
    } else if m == 4 || m == 6 || m == 9 || m == 11 {
        30
    } else {
        31
    }
}

impl Date {
    /// A well-formed date: four-digit year, real month, day within the month.
    pub open spec fn wf(self) -> bool {
        self.year <= 9999 && 1 <= self.month <= 12 && 1 <= self.day
            && self.day as int <= spec_days_in_month(self.year as int, self.month as int)
    }

    /// Calendar order: year, then month, then day (inclusive).
    pub open spec fn spec_le(self, other: Date) -> bool {
        self.year < other.year || (self.year == other.year && (self.month < other.month || (
        self.month == other.month && self.day <= other.day)))
    }

    /// Decides whether `self` is on or before `other` in calendar order.
    pub fn le(&self, other: &Date) -> (r: bool)
        ensures
            r == self.spec_le(*other),
    {
        self.year < other.year || (self.year == other.year && (self.month < other.month || (
        self.month == other.month && self.day <= other.day)))
    }
}

/// Days in a month, executable form.
pub fn days_in_month(year: u16, month: u8) -> (d: u8)
    ensures
        d as int == spec_days_in_month(year as int, month as int),
{
    if month == 2 {
        if year % 4 == 0 && (year % 100 != 0 || year % 400 == 0) {
            29
        } else {
            28
        }
    } else if month == 4 || month == 6 || month == 9 || month == 11 {
        30
    } else {
        31
    }
}

/// A decimal digit character.
pub open spec fn spec_is_digit(c: char) -> bool {
    '0' <= c && c <= '9'
}

/// Numeric value of a decimal digit character.
pub open spec fn spec_digit_val(c: char) -> int {
    c as int - '0' as int
}

/// The shape of an ISO-8601 calendar date string: `YYYY-MM-DD`.
pub open spec fn spec_date_shape(s: Seq<char>) -> bool {
    s.len() == 10 && spec_is_digit(s[0]) && spec_is_digit(s[1]) && spec_is_digit(s[2])
        && spec_is_digit(s[3]) && s[4] == '-' && spec_is_digit(s[5]) && spec_is_digit(s[6]) && s[7]
        == '-' && spec_is_digit(s[8]) && spec_is_digit(s[9])
}

/// The date denoted by a string of ISO-8601 shape.
pub open spec fn spec_date_of(s: Seq<char>) -> Date {
    Date {
        year: (spec_digit_val(s[0]) * 1000 + spec_digit_val(s[1]) * 100 + spec_digit_val(s[2]) * 10
            + spec_digit_val(s[3])) as u16,
        month: (spec_digit_val(s[5]) * 10 + spec_digit_val(s[6])) as u8,
        day: (spec_digit_val(s[8]) * 10 + spec_digit_val(s[9])) as u8,
    }
}

/// What date, if any, a parameter string denotes: it must have ISO-8601
/// shape and name a real calendar date.
pub open spec fn spec_parse_date(s: Seq<char>) -> Option<Date> {
    if spec_date_shape(s) && spec_date_of(s).wf() {
        Some(spec_date_of(s))
    } else {
        None
    }
}

/// Decides whether a character is a decimal digit.
fn is_digit_char(c: char) -> (r: bool)
    ensures
        r == spec_is_digit(c),
{
    let v = c as u32;
    48 <= v && v <= 57
}

/// Numeric value of a digit character.
fn digit_val(c: char) -> (v: u16)
    requires
        spec_is_digit(c),
    ensures
        v as int == spec_digit_val(c),
{
    (c as u32 - 48) as u16
}

/// Parses an ISO-8601 `YYYY-MM-DD` string; returns `None` on anything that
/// is not a well-formed calendar date in that exact shape.
pub fn parse_date(s: &str) -> (r: Option<Date>)
    ensures
        r == spec_parse_date(s@),
{
    if s.unicode_len() != 10 {
        return None;
    }
    let c0 = s.get_char(0);
    let c1 = s.get_char(1);
    let c2 = s.get_char(2);
    let c3 = s.get_char(3);
    let c4 = s.get_char(4);
    let c5 = s.get_char(5);
    let c6 = s.get_char(6);
    let c7 = s.get_char(7);
    let c8 = s.get_char(8);
    let c9 = s.get_char(9);
    if !(is_digit_char(c0) && is_digit_char(c1) && is_digit_char(c2) && is_digit_char(c3) && c4
        == '-' && is_digit_char(c5) && is_digit_char(c6) && c7 == '-' && is_digit_char(c8)
        && is_digit_char(c9)) {
        return None;
    }
    let year: u16 = digit_val(c0) * 1000 + digit_val(c1) * 100 + digit_val(c2) * 10 + digit_val(
        c3,
    );
    let month: u8 = (digit_val(c5) * 10 + digit_val(c6)) as u8;
    let day: u8 = (digit_val(c8) * 10 + digit_val(c9)) as u8;
    if month < 1 || month > 12 {
        return None;
    }
    if day < 1 || day > days_in_month(year, month) {
        return None;
    }
    Some(Date { year, month, day })
}

/// The digit character for a value between 0 and 9.
pub open spec fn spec_digit_char(d: int) -> char {
    if d == 0 {
        '0'
    } else if d == 1 {
        '1'
    } else if d == 2 {
        '2'
    } else if d == 3 {
        '3'
    } else if d == 4 {
        '4'
    } else if d == 5 {
        '5'
    } else if d == 6 {
        '6'
    } else if d == 7 {
        '7'
    } else if d == 8 {
        '8'
    } else {
        '9'
    }
}

/// The ISO-8601 rendering of a date, `YYYY-MM-DD`.
pub open spec fn spec_render_date(d: Date) -> Seq<char> {
    seq![
        spec_digit_char(d.year as int / 1000),
        spec_digit_char((d.year as int / 100) % 10),
        spec_digit_char((d.year as int / 10) % 10),
        spec_digit_char(d.year as int % 10),
        '-',
        spec_digit_char(d.month as int / 10),
        spec_digit_char(d.month as int % 10),
        '-',
        spec_digit_char(d.day as int / 10),
        spec_digit_char(d.day as int % 10),
    ]
}

/// The one-character string for a digit value.
fn digit_str(d: u16) -> (s: &'static str)
    requires
        d <= 9,
    ensures
        s@ =~= seq![spec_digit_char(d as int)],
{
    proof {
        reveal_strlit("0");
        reveal_strlit("1");
        reveal_strlit("2");
        reveal_strlit("3");
        reveal_strlit("4");
        reveal_strlit("5");
        reveal_strlit("6");
        reveal_strlit("7");
        reveal_strlit("8");
        reveal_strlit("9");
    }
    if d == 0 {
        "0"
    } else if d == 1 {
        "1"
    } else if d == 2 {
        "2"
    } else if d == 3 {
        "3"
    } else if d == 4 {
        "4"
    } else if d == 5 {
        "5"
    } else if d == 6 {
        "6"
    } else if d == 7 {
        "7"
    } else if d == 8 {
        "8"
    } else {
        "9"
    }
}

/// Renders a well-formed date as ISO-8601 `YYYY-MM-DD`.
pub fn render_date(d: &Date) -> (s: String)
    requires
        d.wf(),
    ensures
        s@ == spec_render_date(*d),
{
    let y = d.year;
    let m = d.month as u16;
    let dy = d.day as u16;
    proof {
        reveal_strlit("-");
        assert(y / 1000 <= 9 && y / 100 % 10 <= 9 && y / 10 % 10 <= 9 && y % 10 <= 9)
            by (bit_vector)
            requires
                y < 10000,
        ;
        assert(m / 10 <= 9 && m % 10 <= 9 && dy / 10 <= 9 && dy % 10 <= 9) by (bit_vector)
            requires
                m < 100 && dy < 100,
        ;
    }
    let mut s = String::new();
    s.append(digit_str(y / 1000));
    s.append(digit_str(y / 100 % 10));
    s.append(digit_str(y / 10 % 10));
    s.append(digit_str(y % 10));
    s.append("-");
    s.append(digit_str(m / 10));
    s.append(digit_str(m % 10));
    s.append("-");
    s.append(digit_str(dy / 10));
    s.append(digit_str(dy % 10));
    proof {
        assert(s@ =~= spec_render_date(*d));
    }
    s
}

/// Rendering a well-formed date and parsing the result gives the date back:
/// the transport form of a date is lossless.
pub proof fn lemma_render_parse_round_trip(d: Date)
    requires
        d.wf(),
    ensures
        spec_parse_date(spec_render_date(d)) == Some(d),
{
    let s = spec_render_date(d);
    let y = d.year;
    let m = d.month;
    let dy = d.day;
    assert(y / 1000 <= 9 && y / 100 % 10 <= 9 && y / 10 % 10 <= 9 && y % 10 <= 9) by (bit_vector)
        requires
            y < 10000,
    ;
    assert(m / 10 <= 9 && m % 10 <= 9 && dy / 10 <= 9 && dy % 10 <= 9) by (bit_vector)
        requires
            m < 100 && dy < 100,
    ;
    assert(spec_date_shape(s));
    assert(y / 1000 * 1000 + y / 100 % 10 * 100 + y / 10 % 10 * 10 + y % 10 == y) by (bit_vector)
        requires
            y < 10000,
    ;
    assert(m / 10 * 10 + m % 10 == m) by (bit_vector)
        requires
            m < 100,
    ;
    assert(dy / 10 * 10 + dy % 10 == dy) by (bit_vector)
        requires
            dy < 100,
    ;
    assert(spec_date_of(s) == d);
}

} // verus!
