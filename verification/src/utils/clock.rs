//! From seconds on the clock to a timestamp.
//!
//! The clock counts seconds from the start of 1970 in UTC, without leap
//! seconds. The timestamp of a count is the date and the time of day that the
//! calendar gives it, written with the offset `Z`.

use crate::utils::text::{hex_char, hex_digit};
use crate::utils::time::{
    days_in_month, digit_value, four_digits, is_date_at, is_digit, is_fraction, is_leap_year,
    is_offset_at, is_rfc3339, is_time_at, two_digits,
};
use vstd::prelude::*;
use vstd::string::*;

verus! {

/// The number of days of `year`.
pub open spec fn days_in_year(year: int) -> int {
    if is_leap_year(year) {
        366
    } else {
        365
    }
}

/// The number of days from the start of 1970 to the start of `year`.
pub open spec fn days_before_year(year: int) -> int
    decreases year,
{
    if year <= 1970 {
        0
    } else {
        days_before_year(year - 1) + days_in_year(year - 1)
    }
}

/// The number of days from the start of `year` to the start of `month`.
pub open spec fn days_before_month(year: int, month: int) -> int
    decreases month,
{
    if month <= 1 {
        0
    } else {
        days_before_month(year, month - 1) + days_in_month(year, month - 1)
    }
}

/// A date and a time of day in UTC.
#[derive(Clone, Copy, Debug, PartialEq, Eq, Structural)]
pub struct CivilTime {
    pub year: u16,
    pub month: u8,
    pub day: u8,
    pub hour: u8,
    pub minute: u8,
    pub second: u8,
}

impl CivilTime {
    /// Whether the date is one of the calendar from 1970 to 9999, and the
    /// time one of the day.
    pub open spec fn is_valid(&self) -> bool {
        &&& 1970 <= self.year <= 9999
        &&& 1 <= self.month <= 12
        &&& 1 <= self.day <= days_in_month(self.year as int, self.month as int)
        &&& self.hour <= 23
        &&& self.minute <= 59
        &&& self.second <= 59
    }

    /// The seconds that the clock counts at this date and time.
    pub open spec fn seconds(&self) -> int {
        (days_before_year(self.year as int) + days_before_month(
            self.year as int,
            self.month as int,
        ) + self.day - 1) * 86400 + self.hour * 3600 + self.minute * 60 + self.second
    }
}

/// The last `width` digits of `value` in base 10, most significant first.
pub open spec fn padded_digits(value: nat, width: nat) -> Seq<char>
    decreases width,
{
    if width == 0 {
        Seq::empty()
    } else {
        padded_digits(value / 10, (width - 1) as nat).push(hex_char((value % 10) as int))
    }
}

/// The timestamp of a date and a time: `YYYY-MM-DDTHH:MM:SSZ`.
pub open spec fn timestamp_text(time: CivilTime) -> Seq<char> {
    padded_digits(time.year as nat, 4) + "-"@ + padded_digits(time.month as nat, 2) + "-"@
        + padded_digits(time.day as nat, 2) + "T"@ + padded_digits(time.hour as nat, 2) + ":"@
        + padded_digits(time.minute as nat, 2) + ":"@ + padded_digits(time.second as nat, 2)
        + "Z"@
}

/// Later years start later.
pub proof fn lemma_years_run_forward(earlier: int, later: int)
    requires
        earlier <= later,
    ensures
        days_before_year(earlier) <= days_before_year(later),
    decreases later - earlier,
{
    if earlier < later {
        lemma_years_run_forward(earlier, later - 1);
    }
}

/// The months of a year make up the year.
pub proof fn lemma_months_make_a_year(year: int)
    ensures
        days_before_month(year, 13) == days_in_year(year),
{
    assert(days_before_month(year, 1) == 0);
    assert(days_before_month(year, 2) == 31);
    assert(days_before_month(year, 3) == 31 + days_in_month(year, 2));
    assert(days_before_month(year, 4) == 62 + days_in_month(year, 2));
    assert(days_before_month(year, 5) == 92 + days_in_month(year, 2));
    assert(days_before_month(year, 6) == 123 + days_in_month(year, 2));
    assert(days_before_month(year, 7) == 153 + days_in_month(year, 2));
    assert(days_before_month(year, 8) == 184 + days_in_month(year, 2));
    assert(days_before_month(year, 9) == 215 + days_in_month(year, 2));
    assert(days_before_month(year, 10) == 245 + days_in_month(year, 2));
    assert(days_before_month(year, 11) == 276 + days_in_month(year, 2));
    assert(days_before_month(year, 12) == 306 + days_in_month(year, 2));
}

/// Two digits written with `padded_digits` read back as the number.
pub proof fn lemma_two_digits(value: nat)
    requires
        value < 100,
    ensures
        padded_digits(value, 2).len() == 2,
        is_digit(padded_digits(value, 2)[0]),
        is_digit(padded_digits(value, 2)[1]),
        digit_value(padded_digits(value, 2)[0]) * 10 + digit_value(padded_digits(value, 2)[1])
            == value,
{
    let tens = padded_digits(value / 10, 1);
    assert(padded_digits(value / 100, 0) =~= Seq::<char>::empty());
    assert(tens =~= seq![hex_char((value / 10 % 10) as int)]);
    assert(padded_digits(value, 2) =~= seq![
        hex_char((value / 10) as int),
        hex_char((value % 10) as int),
    ]);
}

/// Four digits written with `padded_digits` read back as the number.
pub proof fn lemma_four_digits(value: nat)
    requires
        value < 10000,
    ensures
        padded_digits(value, 4).len() == 4,
        padded_digits(value, 4) == padded_digits(value / 100, 2) + padded_digits(value % 100, 2),
{
    lemma_two_digits(value / 100);
    lemma_two_digits(value % 100);
    let upper = padded_digits(value / 100, 2);
    let lower = padded_digits(value % 100, 2);
    assert(padded_digits(value / 10000, 0) =~= Seq::<char>::empty());
    assert(padded_digits(value / 1000, 1) =~= seq![hex_char((value / 1000 % 10) as int)]);
    assert(padded_digits(value / 100, 2) =~= seq![
        hex_char((value / 1000 % 10) as int),
        hex_char((value / 100 % 10) as int),
    ]);
    assert(padded_digits(value / 10, 3) =~= padded_digits(value / 100, 2).push(
        hex_char((value / 10 % 10) as int),
    ));
    assert(padded_digits(value, 4) =~= padded_digits(value / 10, 3).push(
        hex_char((value % 10) as int),
    ));
    assert(padded_digits(value % 100 / 100, 0) =~= Seq::<char>::empty());
    assert(lower =~= seq![
        hex_char((value % 100 / 10) as int),
        hex_char((value % 100 % 10) as int),
    ]);
    assert(padded_digits(value, 4) =~= upper + lower);
}

/// The timestamp of a valid date and time names a valid instant.
pub proof fn lemma_timestamp_text_is_valid(time: CivilTime)
    requires
        time.is_valid(),
    ensures
        is_rfc3339(timestamp_text(time)),
        timestamp_text(time).len() == 20,
{
    reveal_strlit("-");
    reveal_strlit("T");
    reveal_strlit(":");
    reveal_strlit("Z");
    let text = timestamp_text(time);
    let year = padded_digits(time.year as nat, 4);
    let month = padded_digits(time.month as nat, 2);
    let day = padded_digits(time.day as nat, 2);
    let hour = padded_digits(time.hour as nat, 2);
    let minute = padded_digits(time.minute as nat, 2);
    let second = padded_digits(time.second as nat, 2);
    lemma_four_digits(time.year as nat);
    lemma_two_digits((time.year / 100) as nat);
    lemma_two_digits((time.year % 100) as nat);
    lemma_two_digits(time.month as nat);
    lemma_two_digits(time.day as nat);
    lemma_two_digits(time.hour as nat);
    lemma_two_digits(time.minute as nat);
    lemma_two_digits(time.second as nat);
    let upper = padded_digits((time.year / 100) as nat, 2);
    let lower = padded_digits((time.year % 100) as nat, 2);
    assert(text =~= seq![
        upper[0],
        upper[1],
        lower[0],
        lower[1],
        '-',
        month[0],
        month[1],
        '-',
        day[0],
        day[1],
        'T',
        hour[0],
        hour[1],
        ':',
        minute[0],
        minute[1],
        ':',
        second[0],
        second[1],
        'Z',
    ]);
    assert(four_digits(text, 0) == time.year);
    assert(two_digits(text, 5) == time.month);
    assert(two_digits(text, 8) == time.day);
    assert(is_date_at(text, 0));
    assert(is_time_at(text, 11));
    assert(is_fraction(text, 19, 19));
    assert(is_offset_at(text, 19));
}

fn year_length(year: u16) -> (days: u64)
    ensures
        days == days_in_year(year as int),
{
    if year % 4 == 0 && (year % 100 != 0 || year % 400 == 0) {
        366
    } else {
        365
    }
}

fn month_length(year: u16, month: u8) -> (days: u64)
    requires
        1 <= month <= 12,
    ensures
        days == days_in_month(year as int, month as int),
        28 <= days <= 31,
{
    if month == 2 {
        if year % 4 == 0 && (year % 100 != 0 || year % 400 == 0) {
            29
        } else {
            28
        }
    } else if month == 4 || month == 6 || month == 9 || month == 11 {
        30
    } else {
        31
    }
}

/// The date and the time of day at which the clock counts `seconds`, as long
/// as the year has four digits.
pub fn civil_from_unix(seconds: u64) -> (time: Option<CivilTime>)
    ensures
        time is Some <==> seconds < days_before_year(10000) * 86400,
        time matches Some(t) ==> t.is_valid() && t.seconds() == seconds,
{
    let total_days = seconds / 86400;
    let in_day = seconds % 86400;
    let mut year: u16 = 1970;
    let mut days: u64 = total_days;
    while year < 10000 && days >= year_length(year)
        invariant
            1970 <= year <= 10000,
            days + days_before_year(year as int) == total_days,
        decreases 10000 - year,
    {
        days = days - year_length(year);
        year = year + 1;
    }
    if year == 10000 {
        return None;
    }
    proof {
        lemma_years_run_forward(year + 1, 10000);
        lemma_months_make_a_year(year as int);
    }
    let ghost in_year = days;
    let mut month: u8 = 1;
    while month < 12 && days >= month_length(year, month)
        invariant
            1 <= month <= 12,
            days + days_before_month(year as int, month as int) == in_year,
            in_year < days_in_year(year as int),
            days_before_month(year as int, 13) == days_in_year(year as int),
        decreases 12 - month,
    {
        days = days - month_length(year, month);
        month = month + 1;
    }
    proof {
        if month == 12 {
            assert(days_before_month(year as int, 13) == days_before_month(year as int, 12)
                + days_in_month(year as int, 12));
        }
    }
    let hour = in_day / 3600;
    let minute = in_day % 3600 / 60;
    let second = in_day % 60;
    Some(
        CivilTime {
            year,
            month,
            day: (days + 1) as u8,
            hour: hour as u8,
            minute: minute as u8,
            second: second as u8,
        },
    )
}

fn push_padded(out: String, value: u64, width: u32) -> (longer: String)
    ensures
        longer@ == out@ + padded_digits(value as nat, width as nat),
    decreases width,
{
    if width == 0 {
        assert(out@ + padded_digits(value as nat, 0) =~= out@);
        out
    } else {
        let upper = push_padded(out, value / 10, width - 1);
        let longer = upper.concat(hex_digit(value % 10));
        assert(longer@ =~= out@ + padded_digits(value as nat, width as nat));
        longer
    }
}

impl CivilTime {
    /// The timestamp of this date and time: `YYYY-MM-DDTHH:MM:SSZ`.
    pub fn to_timestamp(&self) -> (text: String)
        ensures
            text@ == timestamp_text(*self),
            self.is_valid() ==> is_rfc3339(text@),
    {
        proof {
            if self.is_valid() {
                lemma_timestamp_text_is_valid(*self);
            }
        }
        let text = push_padded(String::new(), self.year as u64, 4).concat("-");
        let text = push_padded(text, self.month as u64, 2).concat("-");
        let text = push_padded(text, self.day as u64, 2).concat("T");
        let text = push_padded(text, self.hour as u64, 2).concat(":");
        let text = push_padded(text, self.minute as u64, 2).concat(":");
        let text = push_padded(text, self.second as u64, 2).concat("Z");
        assert(text@ =~= timestamp_text(*self));
        text
    }
}

/// The timestamp at which the clock counts `seconds`: a valid instant, as
/// long as the year has four digits.
pub fn timestamp_from_unix(seconds: u64) -> (text: Option<String>)
    ensures
        text is Some <==> seconds < days_before_year(10000) * 86400,
        text matches Some(stamp) ==> is_rfc3339(stamp@) && exists|time: CivilTime|
            time.is_valid() && time.seconds() == seconds && stamp@ == #[trigger] timestamp_text(
                time,
            ),
{
    match civil_from_unix(seconds) {
        Some(time) => Some(time.to_timestamp()),
        None => None,
    }
}

} // verus!
