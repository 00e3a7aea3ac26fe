//! Calendar dates: normalizing the 8-digit check-in field, validating it as a
//! proleptic Gregorian date, stepping forward by whole days (the check-out is
//! one day after the check-in), and printing dates back as `YYYY-MM-DD`.
//!
//! Supported years run from 0000 through 9999, the range the four-digit
//! format can carry.

use crate::num::{all_digits, dec_val, digit_char, digit_to_str, parse_u64};
use vstd::prelude::*;

verus! {

/// A calendar date. `month` and `day` are 1-based.
#[derive(Clone, Copy, Debug, PartialEq, Eq, Structural)]
pub struct Date {
    pub year: u32,
    pub month: u32,
    pub day: u32,
}

/// Why a date computation failed: the text was not a valid calendar date, or
/// stepping forward left the supported year range.
#[derive(Clone, Copy, Debug, PartialEq, Eq, Structural)]
pub enum DateError {
    Parse,
    OutOfRange,
}

pub open spec fn spec_is_leap_year(y: int) -> bool {
    y % 4 == 0 && (y % 100 != 0 || y % 400 == 0)
}

pub open spec fn spec_days_in_month(y: int, m: int) -> int {
    if m == 2 {
        if spec_is_leap_year(y) {
            29
        } else {
            28
        }
    } else if m == 4 || m == 6 || m == 9 || m == 11 {
        30
    } else {
        31
    }
}

pub open spec fn valid_ymd(y: int, m: int, d: int) -> bool {
    &&& 0 <= y <= 9999
    &&& 1 <= m <= 12
    &&& 1 <= d <= spec_days_in_month(y, m)
}

pub open spec fn spec_valid_date(d: Date) -> bool {
    valid_ymd(d.year as int, d.month as int, d.day as int)
}

/// Strict lexicographic order on dates: earlier in the calendar.
pub open spec fn date_lt(a: Date, b: Date) -> bool {
    ||| a.year < b.year
    ||| (a.year == b.year && a.month < b.month)
    ||| (a.year == b.year && a.month == b.month && a.day < b.day)
}

pub open spec fn date_le(a: Date, b: Date) -> bool {
    date_lt(a, b) || a == b
}

/// The calendar day after `d`, rolling over month and year ends.
pub open spec fn spec_next_date(d: Date) -> Date {
    if d.day < spec_days_in_month(d.year as int, d.month as int) {
        Date { year: d.year, month: d.month, day: (d.day + 1) as u32 }
    } else if d.month < 12 {
        Date { year: d.year, month: (d.month + 1) as u32, day: 1 }
    } else {
        Date { year: (d.year + 1) as u32, month: 1, day: 1 }
    }
}

/// `d` stepped forward by `n` calendar days; `None` when any step leaves the
/// supported year range.
pub open spec fn date_plus(d: Date, n: nat) -> Option<Date>
    decreases n,
{
    if n == 0 {
        Some(d)
    } else if spec_valid_date(spec_next_date(d)) {
        date_plus(spec_next_date(d), (n - 1) as nat)
    } else {
        None
    }
}

/// The 8-digit check-in text with dashes inserted: `YYYYMMDD` becomes
/// `YYYY-MM-DD`.
pub open spec fn spec_normalize_checkin(s: Seq<char>) -> Seq<char> {
    s.subrange(0, 4) + seq!['-'] + s.subrange(4, 6) + seq!['-'] + s.subrange(6, 8)
}

/// Reads `YYYY-MM-DD` with all three fields fully padded; `None` unless the
/// text has exactly that shape and names a valid calendar date.
pub open spec fn parse_date_seq(s: Seq<char>) -> Option<Date> {
    if s.len() == 10 && all_digits(s.subrange(0, 4)) && s[4] == '-' && all_digits(
        s.subrange(5, 7),
    ) && s[7] == '-' && all_digits(s.subrange(8, 10)) {
        let y = dec_val(s.subrange(0, 4));
        let m = dec_val(s.subrange(5, 7));
        let d = dec_val(s.subrange(8, 10));
        if valid_ymd(y as int, m as int, d as int) {
            Some(Date { year: y as u32, month: m as u32, day: d as u32 })
        } else {
            None
        }
    } else {
        None
    }
}

pub open spec fn two_digit_str(v: nat) -> Seq<char> {
    seq![digit_char((v / 10) % 10), digit_char(v % 10)]
}

pub open spec fn four_digit_str(v: nat) -> Seq<char> {
    seq![
        digit_char((v / 1000) % 10),
        digit_char((v / 100) % 10),
        digit_char((v / 10) % 10),
        digit_char(v % 10),
    ]
}

/// `YYYY-MM-DD` rendering of a date, zero-padded.
pub open spec fn spec_format_date(d: Date) -> Seq<char> {
    four_digit_str(d.year as nat) + seq!['-'] + two_digit_str(d.month as nat) + seq!['-']
        + two_digit_str(d.day as nat)
}

/// Inserts the two date separators into an 8-digit check-in field, turning
/// `20010914` into `2001-09-14`. No digit is inspected: a field of the right
/// length but with other characters comes out reshaped the same way.
pub fn correct_date(data: &mut String)
    requires
        old(data)@.len() == 8,
    ensures
        final(data)@ == spec_normalize_checkin(old(data)@),
{
    let y: String = data.as_str().substring_char(0, 4).to_owned();
    let m: String = data.as_str().substring_char(4, 6).to_owned();
    let d: String = data.as_str().substring_char(6, 8).to_owned();
    let mut r = y;
    r.append("-");
    r.append(m.as_str());
    r.append("-");
    r.append(d.as_str());
    proof {
        reveal_strlit("-");
        assert(r@ =~= spec_normalize_checkin(old(data)@));
    }
    *data = r;
}

/// Days in the given month of the given year.
pub fn days_in_month(y: u32, m: u32) -> (r: u32)
    requires
        1 <= m <= 12,
    ensures
        r == spec_days_in_month(y as int, m as int),
{
    if m == 2 {
        if y % 4 == 0 && (y % 100 != 0 || y % 400 == 0) {
            29
        } else {
            28
        }
    } else if m == 4 || m == 6 || m == 9 || m == 11 {
        30
    } else {
        31
    }
}

/// Reads a `YYYY-MM-DD` string as a calendar date.
pub fn parse_date(s: &str) -> (r: Option<Date>)
    ensures
        r == parse_date_seq(s@),
{
    let len = s.unicode_len();
    if len != 10 {
        return None;
    }
    if s.get_char(4) != '-' || s.get_char(7) != '-' {
        return None;
    }
    let ys = s.substring_char(0, 4);
    let ms = s.substring_char(5, 7);
    let ds = s.substring_char(8, 10);
    let y = match parse_u64(ys) {
        Some(v) => v,
        None => {
            return None;
        },
    };
    let m = match parse_u64(ms) {
        Some(v) => v,
        None => {
            return None;
        },
    };
    let d = match parse_u64(ds) {
        Some(v) => v,
        None => {
            return None;
        },
    };
    if y > 9999 || m < 1 || m > 12 {
        return None;
    }
    if d < 1 || d > days_in_month(y as u32, m as u32) as u64 {
        return None;
    }
    Some(Date { year: y as u32, month: m as u32, day: d as u32 })
}

/// The calendar day after `d`; `None` only past the last supported date,
/// 9999-12-31.
pub fn add_one_day(d: &Date) -> (r: Option<Date>)
    requires
        spec_valid_date(*d),
    ensures
        spec_valid_date(spec_next_date(*d)) ==> r == Some(spec_next_date(*d)),
        !spec_valid_date(spec_next_date(*d)) ==> r is None,
{
    let dim = days_in_month(d.year, d.month);
    if d.day < dim {
        Some(Date { year: d.year, month: d.month, day: d.day + 1 })
    } else if d.month < 12 {
        Some(Date { year: d.year, month: d.month + 1, day: 1 })
    } else if d.year < 9999 {
        Some(Date { year: d.year + 1, month: 1, day: 1 })
    } else {
        None
    }
}

/// Prints a date as zero-padded `YYYY-MM-DD`.
pub fn format_date(d: &Date) -> (r: String)
    ensures
        r@ == spec_format_date(*d),
{
    let y = d.year as u64;
    let m = d.month as u64;
    let dd = d.day as u64;
    let mut r = digit_to_str((y / 1000) % 10).to_owned();
    r.append(digit_to_str((y / 100) % 10));
    r.append(digit_to_str((y / 10) % 10));
    r.append(digit_to_str(y % 10));
    r.append("-");
    r.append(digit_to_str((m / 10) % 10));
    r.append(digit_to_str(m % 10));
    r.append("-");
    r.append(digit_to_str((dd / 10) % 10));
    r.append(digit_to_str(dd % 10));
    proof {
        reveal_strlit("-");
        assert(r@ =~= spec_format_date(*d));
    }
    r
}

/// What `add_days` returns, as a function of the check-in text and the count
/// of days to add.
pub open spec fn spec_add_days(s: Seq<char>, n: nat) -> Result<Seq<char>, DateError> {
    match parse_date_seq(s) {
        None => Err(DateError::Parse),
        Some(d) => match date_plus(d, n) {
            None => Err(DateError::OutOfRange),
            Some(e) => Ok(spec_format_date(e)),
        },
    }
}

/// Steps a `YYYY-MM-DD` date forward by `days` calendar days, rolling over
/// month and year ends (leap years included), and prints the result in the
/// same format. Fails with `Parse` when the input is not a valid calendar
/// date and with `OutOfRange` when the result would pass 9999-12-31.
pub fn add_days(checkin: &String, days: u32) -> (r: Result<String, DateError>)
    ensures
        ({
            let sp = spec_add_days(checkin@, days as nat);
            match r {
                Ok(out) => sp == Ok::<Seq<char>, DateError>(out@),
                Err(e) => sp == Err::<Seq<char>, DateError>(e),
            }
        }),
{
    let start = match parse_date(checkin.as_str()) {
        Some(d) => d,
        None => {
            return Err(DateError::Parse);
        },
    };
    let mut cur = start;
    let mut i: u32 = 0;
    while i < days
        invariant
            0 <= i <= days,
            spec_valid_date(cur),
            parse_date_seq(checkin@) == Some::<Date>(start),
            date_plus(start, days as nat) == date_plus(cur, (days - i) as nat),
        decreases days - i,
    {
        match add_one_day(&cur) {
            Some(next) => {
                cur = next;
            },
            None => {
                proof {
                    assert(!spec_valid_date(spec_next_date(cur)));
                    assert(date_plus(cur, (days - i) as nat) == None::<Date>);
                }
                return Err(DateError::OutOfRange);
            },
        }
        i = i + 1;
    }
    Ok(format_date(&cur))
}

/// Normalizing an 8-digit field and then reading it back as a date succeeds
/// exactly when the digits name a valid calendar date.
pub proof fn law_normalize_then_parse(s: Seq<char>)
    requires
        s.len() == 8,
        all_digits(s),
    ensures
        parse_date_seq(spec_normalize_checkin(s)) matches Some(d) ==> d == (Date {
            year: dec_val(s.subrange(0, 4)) as u32,
            month: dec_val(s.subrange(4, 6)) as u32,
            day: dec_val(s.subrange(6, 8)) as u32,
        }),
        parse_date_seq(spec_normalize_checkin(s)) is Some <==> valid_ymd(
            dec_val(s.subrange(0, 4)) as int,
            dec_val(s.subrange(4, 6)) as int,
            dec_val(s.subrange(6, 8)) as int,
        ),
{
    let t = spec_normalize_checkin(s);
    assert(t.subrange(0, 4) =~= s.subrange(0, 4));
    assert(t.subrange(5, 7) =~= s.subrange(4, 6));
    assert(t.subrange(8, 10) =~= s.subrange(6, 8));
    assert(t[4] == '-');
    assert(t[7] == '-');
    assert(all_digits(t.subrange(0, 4)));
    assert(all_digits(t.subrange(5, 7)));
    assert(all_digits(t.subrange(8, 10)));
}

/// The next calendar day is a valid date strictly after the current one.
pub proof fn law_checkout_after_checkin(d: Date)
    requires
        spec_valid_date(d),
        !(d.year == 9999 && d.month == 12 && d.day == 31),
    ensures
        spec_valid_date(spec_next_date(d)),
        date_lt(d, spec_next_date(d)),
{
}

/// No valid date lies strictly between a date and the next calendar day:
/// the step is exactly one day, across month, year and leap-year ends alike.
pub proof fn law_checkout_is_immediate_successor(d: Date, e: Date)
    requires
        spec_valid_date(d),
        spec_valid_date(e),
        date_lt(d, e),
    ensures
        date_le(spec_next_date(d), e),
{
}

} // verus!
