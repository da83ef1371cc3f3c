//! Calendar dates and timestamps as text.
//!
//! A calendar date is `YYYY-MM-DD`. A timestamp is a date, one of `T`, `t` or
//! a space, a time `HH:MM:SS`, optionally a dot and one or more digits, and an
//! offset: `Z`, `z`, or a sign followed by `HH:MM` (the grammar of RFC 3339).
//! Months have their true lengths, leap years included; a second may be 60.

use crate::utils::text::chars_of;
use vstd::prelude::*;

verus! {

/// Whether `c` is a decimal digit.
pub open spec fn is_digit(c: char) -> bool {
    '0' <= c && c <= '9'
}

/// The number that the digit `c` stands for.
pub open spec fn digit_value(c: char) -> int {
    c as int - '0' as int
}

/// Whether two digits stand at `i`.
pub open spec fn two_digits_at(s: Seq<char>, i: int) -> bool {
    0 <= i && i + 2 <= s.len() && is_digit(s[i]) && is_digit(s[i + 1])
}

/// The number written by the two digits at `i`.
pub open spec fn two_digits(s: Seq<char>, i: int) -> int {
    digit_value(s[i]) * 10 + digit_value(s[i + 1])
}

/// Whether four digits stand at `i`.
pub open spec fn four_digits_at(s: Seq<char>, i: int) -> bool {
    two_digits_at(s, i) && two_digits_at(s, i + 2)
}

/// The number written by the four digits at `i`.
pub open spec fn four_digits(s: Seq<char>, i: int) -> int {
    two_digits(s, i) * 100 + two_digits(s, i + 2)
}

/// Whether `year` has a 29th of February.
pub open spec fn is_leap_year(year: int) -> bool {
    year % 4 == 0 && (year % 100 != 0 || year % 400 == 0)
}

/// The number of days of `month` (1 to 12) in `year`.
pub open spec fn days_in_month(year: int, month: int) -> int {
    if month == 2 {
        if is_leap_year(year) {
            29
        } else {
            28
        }
    } else if month == 4 || month == 6 || month == 9 || month == 11 {
        30
    } else {
        31
    }
}

/// Whether a date `YYYY-MM-DD` that exists in the calendar stands at `i`.
pub open spec fn is_date_at(s: Seq<char>, i: int) -> bool {
    &&& 0 <= i && i + 10 <= s.len()
    &&& four_digits_at(s, i)
    &&& s[i + 4] == '-'
    &&& two_digits_at(s, i + 5)
    &&& s[i + 7] == '-'
    &&& two_digits_at(s, i + 8)
    &&& 1 <= two_digits(s, i + 5) <= 12
    &&& 1 <= two_digits(s, i + 8) <= days_in_month(four_digits(s, i), two_digits(s, i + 5))
}

/// Whether `s` is a calendar date and nothing else.
pub open spec fn is_calendar_date(s: Seq<char>) -> bool {
    s.len() == 10 && is_date_at(s, 0)
}

/// The days of a calendar date, counted so that a later date has a larger
/// number: year, month and day as the decimal number `YYYYMMDD`.
pub open spec fn date_number(s: Seq<char>) -> int {
    four_digits(s, 0) * 10000 + two_digits(s, 5) * 100 + two_digits(s, 8)
}

/// Whether `start` and `end` are calendar dates and `start` is not after
/// `end`.
pub open spec fn is_window(start: Seq<char>, end: Seq<char>) -> bool {
    is_calendar_date(start) && is_calendar_date(end) && date_number(start) <= date_number(end)
}

/// Whether a time `HH:MM:SS` stands at `i`.
pub open spec fn is_time_at(s: Seq<char>, i: int) -> bool {
    &&& 0 <= i && i + 8 <= s.len()
    &&& two_digits_at(s, i)
    &&& s[i + 2] == ':'
    &&& two_digits_at(s, i + 3)
    &&& s[i + 5] == ':'
    &&& two_digits_at(s, i + 6)
    &&& two_digits(s, i) <= 23
    &&& two_digits(s, i + 3) <= 59
    &&& two_digits(s, i + 6) <= 60
}

/// Whether `s` from `from` up to `to` is empty, or a dot followed by one or
/// more digits.
pub open spec fn is_fraction(s: Seq<char>, from: int, to: int) -> bool {
    from == to || (from + 2 <= to && s[from] == '.' && forall|j: int|
        from < j < to ==> is_digit(#[trigger] s[j]))
}

/// Whether `s` from `from` to its end is an offset: `Z`, `z`, or a sign and
/// `HH:MM`.
pub open spec fn is_offset_at(s: Seq<char>, from: int) -> bool {
    ||| (from + 1 == s.len() && (s[from] == 'Z' || s[from] == 'z'))
    ||| {
        &&& from + 6 == s.len()
        &&& (s[from] == '+' || s[from] == '-')
        &&& two_digits_at(s, from + 1)
        &&& s[from + 3] == ':'
        &&& two_digits_at(s, from + 4)
        &&& two_digits(s, from + 1) <= 23
        &&& two_digits(s, from + 4) <= 59
    }
}

/// Whether `s` is a timestamp: it names a valid instant.
pub open spec fn is_rfc3339(s: Seq<char>) -> bool {
    &&& s.len() >= 20
    &&& is_date_at(s, 0)
    &&& (s[10] == 'T' || s[10] == 't' || s[10] == ' ')
    &&& is_time_at(s, 11)
    &&& exists|k: int| 19 <= k < s.len() && is_fraction(s, 19, k) && #[trigger] is_offset_at(s, k)
}

/// A date of the calendar.
#[derive(Clone, Copy, Debug, PartialEq, Eq, Structural)]
pub struct CalendarDate {
    pub year: u16,
    pub month: u8,
    pub day: u8,
}

impl CalendarDate {
    /// The number `YYYYMMDD` of the date.
    pub open spec fn number(&self) -> int {
        self.year * 10000 + self.month * 100 + self.day
    }

    /// Whether the month and the day are those of a date of the calendar.
    pub open spec fn in_calendar(&self) -> bool {
        1 <= self.month <= 12 && 1 <= self.day <= days_in_month(
            self.year as int,
            self.month as int,
        )
    }

    /// Whether this date is not after `other`.
    pub fn is_not_after(&self, other: &CalendarDate) -> (yes: bool)
        ensures
            self.in_calendar() && other.in_calendar() ==> yes == (self.number() <= other.number()),
    {
        if self.year != other.year {
            self.year < other.year
        } else if self.month != other.month {
            self.month < other.month
        } else {
            self.day <= other.day
        }
    }
}

fn digit(chars: &Vec<char>, i: usize) -> (value: Option<u32>)
    requires
        i < chars.len(),
    ensures
        value is Some <==> is_digit(chars@[i as int]),
        value matches Some(v) ==> v == digit_value(chars@[i as int]) && v <= 9,
{
    let c = chars[i];
    if c >= '0' && c <= '9' {
        Some(c as u32 - '0' as u32)
    } else {
        None
    }
}

fn number2(chars: &Vec<char>, i: usize) -> (value: Option<u32>)
    requires
        i + 2 <= chars.len(),
    ensures
        value is Some <==> two_digits_at(chars@, i as int),
        value matches Some(v) ==> v == two_digits(chars@, i as int) && v <= 99,
{
    match (digit(chars, i), digit(chars, i + 1)) {
        (Some(a), Some(b)) => Some(a * 10 + b),
        _ => None,
    }
}

fn number4(chars: &Vec<char>, i: usize) -> (value: Option<u32>)
    requires
        i + 4 <= chars.len(),
    ensures
        value is Some <==> four_digits_at(chars@, i as int),
        value matches Some(v) ==> v == four_digits(chars@, i as int) && v <= 9999,
{
    match (number2(chars, i), number2(chars, i + 2)) {
        (Some(a), Some(b)) => Some(a * 100 + b),
        _ => None,
    }
}

fn month_length(year: u32, month: u32) -> (days: u32)
    requires
        1 <= month <= 12,
    ensures
        days == days_in_month(year as int, month as int),
{
    if month == 2 {
        if year % 4 == 0 && (year % 100 != 0 || year % 400 == 0) {
            29
        } else {
            28
        }
    } else if month == 4 || month == 6 || month == 9 || month == 11 {
        30
    } else {
        31
    }
}

fn date_at(chars: &Vec<char>, i: usize) -> (date: Option<CalendarDate>)
    requires
        i + 10 <= chars.len(),
    ensures
        date is Some <==> is_date_at(chars@, i as int),
        date matches Some(d) ==> {
            &&& d.in_calendar()
            &&& d.year == four_digits(chars@, i as int)
            &&& d.month == two_digits(chars@, i + 5)
            &&& d.day == two_digits(chars@, i + 8)
        },
{
    if chars[i + 4] != '-' || chars[i + 7] != '-' {
        return None;
    }
    match (number4(chars, i), number2(chars, i + 5), number2(chars, i + 8)) {
        (Some(year), Some(month), Some(day)) => {
            if 1 <= month && month <= 12 && 1 <= day && day <= month_length(year, month) {
                Some(CalendarDate { year: year as u16, month: month as u8, day: day as u8 })
            } else {
                None
            }
        },
        _ => None,
    }
}

fn time_at(chars: &Vec<char>, i: usize) -> (ok: bool)
    requires
        i + 8 <= chars.len(),
    ensures
        ok == is_time_at(chars@, i as int),
{
    if chars[i + 2] != ':' || chars[i + 5] != ':' {
        return false;
    }
    match (number2(chars, i), number2(chars, i + 3), number2(chars, i + 6)) {
        (Some(hour), Some(minute), Some(second)) => hour <= 23 && minute <= 59 && second <= 60,
        _ => false,
    }
}

fn offset_at(chars: &Vec<char>, from: usize) -> (ok: bool)
    requires
        from < chars.len(),
    ensures
        ok == is_offset_at(chars@, from as int),
{
    let rest = chars.len() - from;
    if rest == 1 {
        chars[from] == 'Z' || chars[from] == 'z'
    } else if rest == 6 {
        if (chars[from] != '+' && chars[from] != '-') || chars[from + 3] != ':' {
            return false;
        }
        match (number2(chars, from + 1), number2(chars, from + 4)) {
            (Some(hour), Some(minute)) => hour <= 23 && minute <= 59,
            _ => false,
        }
    } else {
        false
    }
}

/// Reads a calendar date: `Some` exactly when `text` is one.
pub fn parse_date(text: &str) -> (date: Option<CalendarDate>)
    ensures
        date is Some <==> is_calendar_date(text@),
        date matches Some(d) ==> d.number() == date_number(text@) && d.in_calendar(),
{
    let chars = chars_of(text);
    if chars.len() != 10 {
        return None;
    }
    date_at(&chars, 0)
}

/// Whether `start` and `end` are calendar dates with `start` not after `end`.
pub fn check_window(start: &str, end: &str) -> (ok: bool)
    ensures
        ok == is_window(start@, end@),
{
    match (parse_date(start), parse_date(end)) {
        (Some(first), Some(last)) => first.is_not_after(&last),
        _ => false,
    }
}

/// Whether `text` is a timestamp that names a valid instant.
pub fn is_timestamp(text: &str) -> (ok: bool)
    ensures
        ok == is_rfc3339(text@),
{
    let chars = chars_of(text);
    let n = chars.len();
    if n < 20 {
        return false;
    }
    if date_at(&chars, 0).is_none() {
        return false;
    }
    let sep = chars[10];
    if sep != 'T' && sep != 't' && sep != ' ' {
        return false;
    }
    if !time_at(&chars, 11) {
        return false;
    }
    let ghost s = chars@;
    let mut k: usize = 19;
    if chars[19] == '.' {
        k = 20;
        while k < n && chars[k] >= '0' && chars[k] <= '9'
            invariant
                20 <= k <= n,
                n == chars.len(),
                s == chars@,
                s[19] == '.',
                forall|j: int| 19 < j < k ==> is_digit(#[trigger] s[j]),
            decreases n - k,
        {
            k += 1;
        }
        if k == 20 || k == n {
            assert forall|c: int| 19 <= c < s.len() && is_fraction(s, 19, c) implies !is_offset_at(
                s,
                c,
            ) by {
                if c > k {
                    assert(is_digit(s[k as int]));
                } else if 19 < c < k {
                    assert(is_digit(s[c]));
                }
            }
            return false;
        }
    }
    let ok = offset_at(&chars, k);
    proof {
        if ok {
            assert(is_fraction(s, 19, k as int));
            assert(is_offset_at(s, k as int));
        } else {
            assert forall|c: int| 19 <= c < s.len() && is_fraction(s, 19, c) implies !is_offset_at(
                s,
                c,
            ) by {
                if c > k {
                    assert(is_digit(s[k as int]));
                } else if 19 < c < k {
                    assert(is_digit(s[c]));
                }
            }
        }
    }
    ok
}

} // verus!
