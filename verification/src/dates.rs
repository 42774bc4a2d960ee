//! Calendar dates of the payment schedule (proleptic Gregorian, as `chrono::NaiveDate`).

use vstd::prelude::*;
use chrono::{Datelike, NaiveDate};
use crate::text::{push_char, push_decimal, push_str, decimal, digits, digit_char};

verus! {

/// Smallest and largest years a date can hold.
pub const MIN_YEAR: i32 = -262143;
pub const MAX_YEAR: i32 = 262142;

/// A calendar date.
#[derive(Clone, Copy, Debug, PartialEq, Eq, Structural)]
pub struct Date {
    pub year: i32,
    pub month: u32,
    pub day: u32,
}

pub open spec fn year_in_range(y: int) -> bool {
    MIN_YEAR <= y <= MAX_YEAR
}

/// Gregorian leap year.
pub open spec fn is_leap(y: int) -> bool {
    (y % 4 == 0 && y % 100 != 0) || y % 400 == 0
}

/// Days in a month; February 29 exists only in leap years within range;
/// months outside 1..=12 count 30 days.
pub open spec fn days_in_month_spec(year: int, month: int) -> int {
    if month == 1 || month == 3 || month == 5 || month == 7 || month == 8 || month == 10
        || month == 12 {
        31
    } else if month == 4 || month == 6 || month == 9 || month == 11 {
        30
    } else if month == 2 {
        if year_in_range(year) && is_leap(year) {
            29
        } else {
            28
        }
    } else {
        30
    }
}

/// A date that exists on the calendar and lies in the supported range.
pub open spec fn valid_date(d: Date) -> bool {
    &&& year_in_range(d.year as int)
    &&& 1 <= d.month <= 12
    &&& 1 <= d.day <= days_in_month_spec(d.year as int, d.month as int)
}

/// Strict chronological order.
pub open spec fn date_lt(a: Date, b: Date) -> bool {
    ||| a.year < b.year
    ||| (a.year == b.year && a.month < b.month)
    ||| (a.year == b.year && a.month == b.month && a.day < b.day)
}

pub open spec fn date_le(a: Date, b: Date) -> bool {
    date_lt(a, b) || a == b
}

/// Months since year 0, January.
pub open spec fn month_index(d: Date) -> int {
    d.year * 12 + (d.month - 1)
}

/// `d` moved by `months` calendar months; the day is clamped to the target month's length.
pub open spec fn add_months_spec(d: Date, months: int) -> Date {
    let total = month_index(d) + months;
    let y = total / 12;
    let m = total % 12 + 1;
    Date {
        year: y as i32,
        month: m as u32,
        day: if d.day <= days_in_month_spec(y, m) {
            d.day
        } else {
            days_in_month_spec(y, m) as u32
        },
    }
}

pub fn is_leap_year(y: i32) -> (r: bool)
    ensures
        r == is_leap(y as int),
{
    (y % 4 == 0 && y % 100 != 0) || y % 400 == 0
}

/// Days in `month` of `year`.
pub fn days_in_month(year: i32, month: u32) -> (r: u32)
    ensures
        r == days_in_month_spec(year as int, month as int),
{
    if month == 1 || month == 3 || month == 5 || month == 7 || month == 8 || month == 10 || month
        == 12 {
        31
    } else if month == 4 || month == 6 || month == 9 || month == 11 {
        30
    } else if month == 2 {
        if MIN_YEAR <= year && year <= MAX_YEAR && is_leap_year(year) {
            29
        } else {
            28
        }
    } else {
        30
    }
}

impl Date {
    /// The date with these fields, when it exists (`NaiveDate::from_ymd_opt`).
    pub fn from_ymd(year: i32, month: u32, day: u32) -> (r: Option<Date>)
        ensures
            match r {
                Some(d) => d == (Date { year, month, day }) && valid_date(d),
                None => !valid_date(Date { year, month, day }),
            },
    {
        if year < MIN_YEAR || year > MAX_YEAR || month < 1 || month > 12 || day < 1 || day
            > days_in_month(year, month) {
            None
        } else {
            Some(Date { year, month, day })
        }
    }

    pub fn lt(&self, other: &Date) -> (r: bool)
        ensures
            r == date_lt(*self, *other),
    {
        self.year < other.year || (self.year == other.year && self.month < other.month) || (
        self.year == other.year && self.month == other.month && self.day < other.day)
    }

    pub fn le(&self, other: &Date) -> (r: bool)
        ensures
            r == date_le(*self, *other),
    {
        self.lt(other) || (self.year == other.year && self.month == other.month && self.day
            == other.day)
    }
}

/// `date` moved by `months` calendar months, day clamped to the month's end.
pub fn add_months(date: Date, months: i32) -> (r: Date)
    requires
        valid_date(date),
        year_in_range((month_index(date) + months) / 12),
    ensures
        r == add_months_spec(date, months as int),
        valid_date(r),
{
    let total: i64 = (date.year as i64) * 12 + (date.month as i64 - 1) + months as i64;
    // The requirement keeps `total` at or above the first month of `MIN_YEAR`.
    let shifted: i64 = total - (MIN_YEAR as i64) * 12;
    assert(shifted >= 0);
    let y: i64 = shifted / 12 + MIN_YEAR as i64;
    let m: i64 = shifted % 12 + 1;
    assert(y == total / 12 && m == total % 12 + 1);
    let year = y as i32;
    let month = m as u32;
    let dim = days_in_month(year, month);
    let day = if date.day <= dim {
        date.day
    } else {
        dim
    };
    Date { year, month, day }
}

/// Whole months from `earlier` to `later`, ignoring days.
pub open spec fn months_between_spec(earlier: Date, later: Date) -> int {
    (later.year - earlier.year) * 12 + (later.month - earlier.month)
}

pub fn months_between(earlier: Date, later: Date) -> (r: i32)
    requires
        valid_date(earlier),
        valid_date(later),
    ensures
        r == months_between_spec(earlier, later),
{
    (later.year - earlier.year) * 12 + (later.month as i32 - earlier.month as i32)
}

/// Status of a payment row relative to today.
pub open spec fn payment_status_spec(due: Date, paid: bool, today: Date) -> Seq<char> {
    if paid {
        "paid"@
    } else if date_lt(due, today) {
        "missed"@
    } else if due.year == today.year && due.month == today.month {
        "due"@
    } else {
        "future"@
    }
}

pub fn payment_status(due: Date, paid: bool, today: Date) -> (r: &'static str)
    ensures
        r@ == payment_status_spec(due, paid, today),
{
    if paid {
        return "paid";
    }
    if due.lt(&today) {
        return "missed";
    }
    if due.year == today.year && due.month == today.month {
        return "due";
    }
    "future"
}

/// Two-digit zero-padded rendering of 0..=99.
pub open spec fn two_digits(n: int) -> Seq<char> {
    seq![digit_char(n / 10), digit_char(n % 10)]
}

/// Four zero-padded digits of 0..=9999.
pub open spec fn four_digits(n: int) -> Seq<char> {
    seq![digit_char(n / 1000), digit_char((n / 100) % 10), digit_char((n / 10) % 10), digit_char(n % 10)]
}

/// `%Y`: four zero-padded digits for years 0..=9999, otherwise an explicit
/// sign and at least four digits.
pub open spec fn year_text(y: int) -> Seq<char> {
    if 0 <= y <= 9999 {
        four_digits(y)
    } else {
        let mag = if y < 0 { -y } else { y };
        let sign = if y < 0 { '-' } else { '+' };
        seq![sign] + if mag < 1000 {
            four_digits(mag)
        } else {
            digits(mag as nat)
        }
    }
}

/// `%Y-%m-%d`.
pub open spec fn ymd_text(d: Date) -> Seq<char> {
    year_text(d.year as int) + seq!['-'] + two_digits(d.month as int) + seq!['-'] + two_digits(d.day as int)
}

fn push_two(out: &mut String, v: u32)
    requires
        v < 100,
    ensures
        final(out)@ == old(out)@ + two_digits(v as int),
{
    push_char(out, ((v / 10) as u8 + 48) as char);
    push_char(out, ((v % 10) as u8 + 48) as char);
}

fn push_four(out: &mut String, v: u32)
    requires
        v < 10000,
    ensures
        final(out)@ == old(out)@ + four_digits(v as int),
{
    push_char(out, ((v / 1000) as u8 + 48) as char);
    push_char(out, (((v / 100) % 10) as u8 + 48) as char);
    push_char(out, (((v / 10) % 10) as u8 + 48) as char);
    push_char(out, ((v % 10) as u8 + 48) as char);
}

/// Render a date as `YYYY-MM-DD` (chrono's `%Y-%m-%d`).
pub fn format_ymd(d: Date) -> (r: String)
    requires
        valid_date(d),
    ensures
        r@ == ymd_text(d),
{
    let mut out = String::new();
    if 0 <= d.year && d.year <= 9999 {
        push_four(&mut out, d.year as u32);
    } else {
        let mag: u32 = if d.year < 0 {
            (0 - d.year) as u32
        } else {
            d.year as u32
        };
        if d.year < 0 {
            push_char(&mut out, '-');
        } else {
            push_char(&mut out, '+');
        }
        if mag < 1000 {
            push_four(&mut out, mag);
        } else {
            crate::text::push_digits(&mut out, mag as u64);
        }
    }
    push_char(&mut out, '-');
    push_two(&mut out, d.month);
    push_char(&mut out, '-');
    push_two(&mut out, d.day);
    assert(out@ =~= ymd_text(d));
    out
}

/// English month names.
pub open spec fn month_name(m: int) -> Seq<char> {
    if m == 1 { "January"@ } else if m == 2 { "February"@ } else if m == 3 { "March"@ }
    else if m == 4 { "April"@ } else if m == 5 { "May"@ } else if m == 6 { "June"@ }
    else if m == 7 { "July"@ } else if m == 8 { "August"@ } else if m == 9 { "September"@ }
    else if m == 10 { "October"@ } else if m == 11 { "November"@ } else { "December"@ }
}

pub fn month_name_str(m: u32) -> (r: &'static str)
    requires
        1 <= m <= 12,
    ensures
        r@ == month_name(m as int),
{
    if m == 1 { "January" } else if m == 2 { "February" } else if m == 3 { "March" }
    else if m == 4 { "April" } else if m == 5 { "May" } else if m == 6 { "June" }
    else if m == 7 { "July" } else if m == 8 { "August" } else if m == 9 { "September" }
    else if m == 10 { "October" } else if m == 11 { "November" } else { "December" }
}

/// `Mon D, YYYY`: three-letter month, day and year without padding.
pub open spec fn fmt_date_spec(d: Date) -> Seq<char> {
    month_name(d.month as int).subrange(0, 3) + seq![' '] + decimal(d.day as int) + seq![',', ' '] + decimal(d.year as int)
}

/// Short human date for tables and chart labels.
pub fn fmt_date(d: Date) -> (r: String)
    requires
        valid_date(d),
    ensures
        r@ == fmt_date_spec(d),
{
    let name = month_name_str(d.month);
    proof {
        reveal_strlit("January"); reveal_strlit("February"); reveal_strlit("March");
        reveal_strlit("April"); reveal_strlit("May"); reveal_strlit("June");
        reveal_strlit("July"); reveal_strlit("August"); reveal_strlit("September");
        reveal_strlit("October"); reveal_strlit("November"); reveal_strlit("December");
    }
    let short = name.substring_char(0, 3);
    let mut out = String::new();
    push_str(&mut out, short);
    push_char(&mut out, ' ');
    push_decimal(&mut out, d.day as i64);
    push_char(&mut out, ',');
    push_char(&mut out, ' ');
    push_decimal(&mut out, d.year as i64);
    assert(out@ =~= fmt_date_spec(d));
    out
}

/// The year, month and day chrono reads from text with the format `%Y-%m-%d`.
pub uninterp spec fn chrono_ymd(s: Seq<char>) -> Option<(i32, u32, u32)>;

/// `NaiveDate::parse_from_str(s, "%Y-%m-%d")`, with chrono's error message on
/// failure; chrono only yields real, in-range dates. The message's text is
/// left unsaid.
#[verifier::external_body]
pub(crate) fn parse_ymd(s: &str) -> (r: Result<Date, String>)
    ensures
        match r {
            Ok(d) => chrono_ymd(s@) == Some((d.year, d.month, d.day)) && valid_date(d),
            Err(_) => chrono_ymd(s@) is None,
        },
{
    match NaiveDate::parse_from_str(s, "%Y-%m-%d") {
        Ok(d) => Ok(Date { year: d.year(), month: d.month(), day: d.day() }),
        Err(e) => Err(e.to_string()),
    }
}

/// Parse a form or API date, rejecting anything chrono does not read as `%Y-%m-%d`.
pub fn parse_date(s: &str) -> (r: Result<Date, crate::error::AppError>)
    ensures
        match r {
            Ok(d) => chrono_ymd(s@) == Some((d.year, d.month, d.day)) && valid_date(d),
            Err(e) => chrono_ymd(s@) is None && crate::error::is_bad_request(e, "Invalid date"@),
        },
{
    match parse_ymd(s) {
        Ok(d) => Ok(d),
        Err(_) => Err(crate::error::bad_request("Invalid date")),
    }
}

/// Moving a valid date by zero months leaves it unchanged.
pub proof fn law_add_zero_months(d: Date)
    requires
        valid_date(d),
    ensures
        add_months_spec(d, 0) == d,
{
    assert(month_index(d) / 12 == d.year as int);
    assert(month_index(d) % 12 + 1 == d.month as int);
}

/// Moving a date by `k` months puts it `k` months later, whatever day clamping does.
pub proof fn law_months_between_add(d: Date, k: int)
    requires
        valid_date(d),
        year_in_range((month_index(d) + k) / 12),
    ensures
        months_between_spec(d, add_months_spec(d, k)) == k,
{
    let total = month_index(d) + k;
    assert(total == (total / 12) * 12 + total % 12);
}

/// The schedule's date override (`CURRENT_DATE`): absent or blank means
/// none; anything else must be a `YYYY-MM-DD` date.
pub fn current_date_override(raw: Option<&str>) -> (r: Result<Option<Date>, String>)
    ensures
        match raw {
            None => r matches Ok(None),
            Some(v) => if crate::text::trim(v@).len() == 0 {
                r matches Ok(None)
            } else {
                match r {
                    Ok(Some(d)) => chrono_ymd(crate::text::trim(v@)) == Some((d.year, d.month, d.day)) && valid_date(d),
                    Ok(None) => false,
                    Err(m) => chrono_ymd(crate::text::trim(v@)) is None && ({
                        let head = "CURRENT_DATE must be YYYY-MM-DD, got "@ + crate::text::debug_text(crate::text::trim(v@)) + ": "@;
                        m@.len() >= head.len() && m@.subrange(0, head.len() as int) == head
                    }),
                }
            },
        },
{
    let t = match raw {
        Some(v) => crate::text::trim_str(v),
        None => return Ok(None),
    };
    if t.unicode_len() == 0 {
        return Ok(None);
    }
    match parse_ymd(t) {
        Ok(d) => Ok(Some(d)),
        Err(e) => {
            let mut m = String::from_str("CURRENT_DATE must be YYYY-MM-DD, got ");
            let q = crate::text::debug_quoted(t);
            push_str(&mut m, q.as_str());
            push_str(&mut m, ": ");
            let ghost head = m@;
            push_str(&mut m, e.as_str());
            assert(m@.subrange(0, head.len() as int) =~= head);
            Err(m)
        },
    }
}

} // verus!
