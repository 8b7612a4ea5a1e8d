//! Calendar dates as they are stored with a recipe: text of the form
//! `YYYY-MM-DD`, years 0000 to 9999 of the proleptic Gregorian calendar.

use crate::text::{digit_char, digit_value, is_digit};
use chrono::Datelike;
use vstd::prelude::*;
use vstd::string::StrSliceExecFns;

verus! {

/// Whether `year` has a 29th of February.
pub open spec fn is_leap_year(year: int) -> bool {
    year % 4 == 0 && (year % 100 != 0 || year % 400 == 0)
}

/// Number of days of `month` (1 to 12) in `year`; 0 for any other month.
pub open spec fn days_in_month(year: int, month: int) -> int {
    if month == 2 {
        if is_leap_year(year) {
            29
        } else {
            28
        }
    } else if month == 4 || month == 6 || month == 9 || month == 11 {
        30
    } else if 1 <= month <= 12 {
        31
    } else {
        0
    }
}

/// Whether year, month and day name a day of the calendar that a stored date
/// can hold.
pub open spec fn valid_ymd(year: int, month: int, day: int) -> bool {
    &&& 0 <= year <= 9999
    &&& 1 <= month <= 12
    &&& 1 <= day <= days_in_month(year, month)
}

/// `n` written with two digits, for `n` from 0 to 99.
pub open spec fn two_digits(n: int) -> Seq<char> {
    seq![digit_char(n / 10), digit_char(n % 10)]
}

/// The text `YYYY-MM-DD` of a date.
pub open spec fn iso_text(year: int, month: int, day: int) -> Seq<char> {
    two_digits(year / 100) + two_digits(year % 100) + seq!['-'] + two_digits(month) + seq!['-']
        + two_digits(day)
}

/// Whether `s` is four digits, a hyphen, two digits, a hyphen and two digits,
/// and nothing else.
pub open spec fn is_iso_shape(s: Seq<char>) -> bool {
    &&& s.len() == 10
    &&& forall|i: int| 0 <= i < 10 && i != 4 && i != 7 ==> is_digit(#[trigger] s[i])
    &&& s[4] == '-'
    &&& s[7] == '-'
}

/// The year that text of the shape `YYYY-MM-DD` names.
pub open spec fn shape_year(s: Seq<char>) -> int {
    digit_value(s[0]) * 1000 + digit_value(s[1]) * 100 + digit_value(s[2]) * 10 + digit_value(s[3])
}

/// The month that text of the shape `YYYY-MM-DD` names.
pub open spec fn shape_month(s: Seq<char>) -> int {
    digit_value(s[5]) * 10 + digit_value(s[6])
}

/// The day of the month that text of the shape `YYYY-MM-DD` names.
pub open spec fn shape_day(s: Seq<char>) -> int {
    digit_value(s[8]) * 10 + digit_value(s[9])
}

/// What a date is, as three numbers.
pub struct DateView {
    pub year: int,
    pub month: int,
    pub day: int,
}

/// Why a text is not a date.
#[derive(Debug, Clone, Copy, PartialEq, Eq, Structural)]
pub enum DateError {
    /// The text is not of the form `YYYY-MM-DD`.
    Malformed,
    /// The text has the form, but the calendar has no such day.
    OutOfRange,
}

/// What parsing `s` as a date gives.
pub open spec fn parse_iso(s: Seq<char>) -> Result<DateView, DateError> {
    if !is_iso_shape(s) {
        Err(DateError::Malformed)
    } else if !valid_ymd(shape_year(s), shape_month(s), shape_day(s)) {
        Err(DateError::OutOfRange)
    } else {
        Ok(DateView { year: shape_year(s), month: shape_month(s), day: shape_day(s) })
    }
}

/// A day of the calendar, without a time of day.
#[derive(Debug, Clone, Copy, PartialEq, Eq)]
pub struct Date {
    year: u16,
    month: u8,
    day: u8,
}

impl View for Date {
    type V = DateView;

    closed spec fn view(&self) -> DateView {
        DateView { year: self.year as int, month: self.month as int, day: self.day as int }
    }
}

/// Parses text of the shape `YYYY-MM-DD` with `chrono::NaiveDate::parse_from_str`
/// and the format `%Y-%m-%d`, and takes the date apart with `Datelike`'s
/// `year`, `month` and `day`. On text of that shape chrono reads the three
/// numbers as written and accepts them exactly when they name a day of the
/// proleptic Gregorian calendar. Nothing is claimed of text of another shape,
/// which chrono reads more freely.
#[verifier::external_body]
fn chrono_parse(text: &str) -> (parts: Option<(i32, u32, u32)>)
    requires
        is_iso_shape(text@),
    ensures
        parts == if valid_ymd(shape_year(text@), shape_month(text@), shape_day(text@)) {
            Some((shape_year(text@) as i32, shape_month(text@) as u32, shape_day(text@) as u32))
        } else {
            None
        },
{
    match chrono::NaiveDate::parse_from_str(text, "%Y-%m-%d") {
        Ok(date) => Some((date.year(), date.month(), date.day())),
        Err(_) => None,
    }
}

/// Makes the day with `chrono::NaiveDate::from_ymd_opt` and writes it with
/// `NaiveDate`'s `Display`, which for the years 0 to 9999 gives the year in
/// four digits, the month and the day in two, with hyphens between them.
#[verifier::external_body]
fn chrono_format(year: i32, month: u32, day: u32) -> (text: String)
    requires
        valid_ymd(year as int, month as int, day as int),
    ensures
        text@ == iso_text(year as int, month as int, day as int),
{
    chrono::NaiveDate::from_ymd_opt(year, month, day).map(|date| date.to_string()).unwrap_or_default()
}

impl Date {
    /// Every date is a day of the calendar.
    #[verifier::type_invariant]
    closed spec fn is_calendar_day(&self) -> bool {
        valid_ymd(self.year as int, self.month as int, self.day as int)
    }

    /// The date of the given year, month and day, if the calendar has that day.
    pub fn from_ymd(year: u16, month: u8, day: u8) -> (date: Option<Date>)
        ensures
            date is Some <==> valid_ymd(year as int, month as int, day as int),
            date matches Some(d) ==> d@ == (DateView {
                year: year as int,
                month: month as int,
                day: day as int,
            }),
    {
        if year > 9999 || month < 1 || month > 12 || day < 1 {
            return None;
        }
        let leap = year % 4 == 0 && (year % 100 != 0 || year % 400 == 0);
        let last: u8 = if month == 2 {
            if leap {
                29
            } else {
                28
            }
        } else if month == 4 || month == 6 || month == 9 || month == 11 {
            30
        } else {
            31
        };
        if day > last {
            None
        } else {
            Some(Date { year, month, day })
        }
    }

    /// The year, 0 to 9999.
    pub fn year(&self) -> (year: u16)
        ensures
            year == self@.year,
    {
        self.year
    }

    /// The month, 1 to 12.
    pub fn month(&self) -> (month: u8)
        ensures
            month == self@.month,
    {
        self.month
    }

    /// The day of the month, from 1.
    pub fn day(&self) -> (day: u8)
        ensures
            day == self@.day,
    {
        self.day
    }

    /// Reads a date written as `YYYY-MM-DD`.
    pub fn parse(text: &str) -> (date: Result<Date, DateError>)
        ensures
            date is Ok <==> parse_iso(text@) is Ok,
            date matches Ok(d) ==> Ok::<DateView, DateError>(d@) == parse_iso(text@),
            date matches Err(e) ==> Err::<DateView, DateError>(e) == parse_iso(text@),
    {
        if !has_iso_shape(text) {
            return Err(DateError::Malformed);
        }
        match chrono_parse(text) {
            None => Err(DateError::OutOfRange),
            Some((year, month, day)) => Ok(
                Date { year: year as u16, month: month as u8, day: day as u8 },
            ),
        }
    }

    /// Writes the date as `YYYY-MM-DD`.
    pub fn to_iso_string(&self) -> (text: String)
        ensures
            text@ == iso_text(self@.year, self@.month, self@.day),
    {
        proof {
            use_type_invariant(self);
        }
        chrono_format(self.year as i32, self.month as u32, self.day as u32)
    }
}

/// Tells whether `text` is four digits, a hyphen, two digits, a hyphen and two
/// digits.
pub fn has_iso_shape(text: &str) -> (shaped: bool)
    ensures
        shaped == is_iso_shape(text@),
{
    if text.unicode_len() != 10 {
        return false;
    }
    let mut i: usize = 0;
    while i < 10
        invariant
            i <= 10,
            text@.len() == 10,
            forall|j: int| 0 <= j < i && j != 4 && j != 7 ==> is_digit(#[trigger] text@[j]),
            4 < i ==> text@[4] == '-',
            7 < i ==> text@[7] == '-',
        decreases 10 - i,
    {
        let c = text.get_char(i);
        if i == 4 || i == 7 {
            if c != '-' {
                return false;
            }
        } else if !(c >= '0' && c <= '9') {
            return false;
        }
        i += 1;
    }
    true
}

/// A date that is written and read again is the same date.
pub proof fn lemma_written_date_reads_back(year: int, month: int, day: int)
    requires
        valid_ymd(year, month, day),
    ensures
        is_iso_shape(iso_text(year, month, day)),
        parse_iso(iso_text(year, month, day)) == Ok::<DateView, DateError>(
            DateView { year, month, day },
        ),
{
    let s = iso_text(year, month, day);
    assert(s.len() == 10);
    assert(s[0] == digit_char((year / 100) / 10));
    assert(s[1] == digit_char((year / 100) % 10));
    assert(s[2] == digit_char((year % 100) / 10));
    assert(s[3] == digit_char((year % 100) % 10));
    assert(s[4] == '-');
    assert(s[5] == digit_char(month / 10));
    assert(s[6] == digit_char(month % 10));
    assert(s[7] == '-');
    assert(s[8] == digit_char(day / 10));
    assert(s[9] == digit_char(day % 10));
    assert(is_iso_shape(s));
}

/// A text that reads as a date is the text that writing the date gives.
pub proof fn lemma_read_date_writes_back(s: Seq<char>)
    requires
        parse_iso(s) is Ok,
    ensures
        iso_text(shape_year(s), shape_month(s), shape_day(s)) == s,
{
    let t = iso_text(shape_year(s), shape_month(s), shape_day(s));
    assert(t.len() == 10);
    assert(is_digit(s[0]) && is_digit(s[1]) && is_digit(s[2]) && is_digit(s[3]));
    assert(is_digit(s[5]) && is_digit(s[6]) && is_digit(s[8]) && is_digit(s[9]));
    assert(t[0] == s[0]);
    assert(t[1] == s[1]);
    assert(t[2] == s[2]);
    assert(t[3] == s[3]);
    assert(t[5] == s[5]);
    assert(t[6] == s[6]);
    assert(t[8] == s[8]);
    assert(t[9] == s[9]);
    assert(t =~= s);
}

} // verus!
