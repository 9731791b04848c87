//! Calendar dates of the years 0 to 9999, written `YYYYMMDD`.

use crate::content_line::{is_value_text, lemma_digits_are_value_text};
use crate::text::{
    all_digits, digit_values, four_digit_number, four_digits, is_digit,
    lemma_four_digits_ordered, lemma_four_digits_read_back, lemma_four_digits_written_back,
    lemma_text_before_asymmetric, lemma_text_before_concat, lemma_two_digits_ordered,
    lemma_two_digits_read_back, lemma_two_digits_written_back, push_four_digits,
    push_two_digits, text_before, two_digit_number, two_digits,
};
use std::cmp::Ordering;
use std::str::FromStr;
use vstd::prelude::*;

verus! {

/// Whether `year` is a leap year of the Gregorian calendar.
pub open spec fn is_leap(year: int) -> bool {
    year % 4 == 0 && (year % 100 != 0 || year % 400 == 0)
}

/// The number of days of `month` in `year`, for a month from 1 to 12.
pub open spec fn month_length(year: int, month: int) -> int {
    if month == 2 {
        if is_leap(year) {
            29
        } else {
            28
        }
    } else if month == 4 || month == 6 || month == 9 || month == 11 {
        30
    } else {
        31
    }
}

/// A date as three numbers.
pub struct DateView {
    pub year: int,
    pub month: int,
    pub day: int,
}

impl DateView {
    /// Whether the three numbers name a day of the calendar.
    pub open spec fn valid(self) -> bool {
        &&& 0 <= self.year <= 9999
        &&& 1 <= self.month <= 12
        &&& 1 <= self.day <= month_length(self.year, self.month)
    }

    /// The eight characters `YYYYMMDD` that write the date.
    pub open spec fn text(self) -> Seq<char> {
        four_digits(self.year) + two_digits(self.month) + two_digits(self.day)
    }

    /// The numbers that eight digits write, whether or not they name a day.
    pub open spec fn read(s: Seq<char>) -> DateView {
        DateView {
            year: four_digit_number(s, 0),
            month: two_digit_number(s, 4),
            day: two_digit_number(s, 6),
        }
    }

    /// The date that `s` writes: `s` is eight digits, and they name a day.
    pub open spec fn parse(s: Seq<char>) -> Option<DateView> {
        if s.len() == 8 && all_digits(s) && Self::read(s).valid() {
            Some(Self::read(s))
        } else {
            None
        }
    }

    /// Whether `self` is an earlier day than `other`: the order by year,
    /// then month, then day.
    pub open spec fn before(self, other: DateView) -> bool {
        ||| self.year < other.year
        ||| self.year == other.year && self.month < other.month
        ||| self.year == other.year && self.month == other.month && self.day < other.day
    }
}

/// Returns true if the given year is a leap year.
pub fn is_leap_year(year: u16) -> (leap: bool)
    ensures
        leap == is_leap(year as int),
{
    year % 4 == 0 && (year % 100 != 0 || year % 400 == 0)
}

/// Returns the number of days in the given month of the given year.
pub fn days_in_month(year: u16, month: u8) -> (days: u8)
    requires
        1 <= month <= 12,
    ensures
        days == month_length(year as int, month as int),
{
    match month {
        1 | 3 | 5 | 7 | 8 | 10 | 12 => 31,
        4 | 6 | 9 | 11 => 30,
        _ => {
            if is_leap_year(year) {
                29
            } else {
                28
            }
        },
    }
}

/// Represents a date as specified in
/// [RFC 5545 section 3.3.4](https://tools.ietf.org/html/rfc5545#section-3.3.4).
#[derive(Debug, Clone, Copy, PartialEq, Eq, Structural, Ord, Hash)]
pub struct Date {
    year: u16,
    month: u8,
    day: u8,
}

impl View for Date {
    type V = DateView;

    closed spec fn view(&self) -> DateView {
        DateView { year: self.year as int, month: self.month as int, day: self.day as int }
    }
}

impl Date {
    /// Every `Date` names a day of the calendar.
    #[verifier::type_invariant]
    pub open spec fn well_formed(self) -> bool {
        self@.valid()
    }

    /// Whether the three numbers name a day of the calendar, that is, whether
    /// [`Date::new`] accepts them.
    pub fn is_valid(year: u16, month: u8, day: u8) -> (valid: bool)
        ensures
            valid == (DateView { year: year as int, month: month as int, day: day as int }).valid(),
    {
        year <= 9999 && 1 <= month && month <= 12 && 1 <= day && day <= days_in_month(year, month)
    }

    /// Create a new `Date`.
    ///
    /// The year is at most 9999, the month lies in 1 to 12, and the day
    /// exists in that month of that year.
    #[must_use]
    pub fn new(year: u16, month: u8, day: u8) -> (date: Date)
        requires
            (DateView { year: year as int, month: month as int, day: day as int }).valid(),
        ensures
            date@ == (DateView { year: year as int, month: month as int, day: day as int }),
    {
        Date { year, month, day }
    }

    /// Get the year of the date.
    #[must_use]
    pub fn year(&self) -> (year: u16)
        ensures
            year == self@.year,
            self@.valid(),
    {
        proof {
            use_type_invariant(self);
        }
        self.year
    }

    /// Set the year of the date.
    ///
    /// The new year, with the month and day that the date has, names a day.
    pub fn set_year(&mut self, year: u16)
        requires
            (DateView { year: year as int, ..old(self)@ }).valid(),
        ensures
            final(self)@ == (DateView { year: year as int, ..old(self)@ }),
    {
        self.year = year;
    }

    /// Get the month of the date.
    #[must_use]
    pub fn month(&self) -> (month: u8)
        ensures
            month == self@.month,
            self@.valid(),
    {
        proof {
            use_type_invariant(self);
        }
        self.month
    }

    /// Set the month of the date.
    ///
    /// The new month, with the year and day that the date has, names a day.
    pub fn set_month(&mut self, month: u8)
        requires
            (DateView { month: month as int, ..old(self)@ }).valid(),
        ensures
            final(self)@ == (DateView { month: month as int, ..old(self)@ }),
    {
        self.month = month;
    }

    /// Get the day of the date.
    #[must_use]
    pub fn day(&self) -> (day: u8)
        ensures
            day == self@.day,
            self@.valid(),
    {
        proof {
            use_type_invariant(self);
        }
        self.day
    }

    /// Set the day of the date.
    ///
    /// The new day exists in the month and year that the date has.
    pub fn set_day(&mut self, day: u8)
        requires
            (DateView { day: day as int, ..old(self)@ }).valid(),
        ensures
            final(self)@ == (DateView { day: day as int, ..old(self)@ }),
    {
        self.day = day;
    }

    /// The date as `YYYYMMDD`.
    pub fn to_string(&self) -> (text: String)
        ensures
            text@ == self@.text(),
    {
        proof {
            use_type_invariant(self);
        }
        let mut text = String::new();
        push_four_digits(&mut text, self.year);
        push_two_digits(&mut text, self.month);
        push_two_digits(&mut text, self.day);
        text
    }
}

impl FromStr for Date {
    type Err = ParseDateError;

    /// Reads a date written as `YYYYMMDD`.
    fn from_str(s: &str) -> (parsed: Result<Date, ParseDateError>)
        ensures
            match parsed {
                Ok(date) => DateView::parse(s@) == Some(date@),
                Err(_) => DateView::parse(s@) is None,
            },
    {
        let digits = match digit_values(s) {
            Some(digits) => digits,
            None => {
                return Err(ParseDateError {});
            },
        };
        if digits.len() != 8 {
            return Err(ParseDateError {});
        }
        let year: u16 = (digits[0] * 10 + digits[1]) as u16 * 100 + (digits[2] * 10
            + digits[3]) as u16;
        let month: u8 = digits[4] * 10 + digits[5];
        let day: u8 = digits[6] * 10 + digits[7];
        if !Date::is_valid(year, month, day) {
            return Err(ParseDateError {});
        }
        Ok(Date { year, month, day })
    }
}

impl PartialOrd for Date {
    /// Orders dates by year, then month, then day.
    fn partial_cmp(&self, other: &Date) -> (order: Option<Ordering>) {
        if self.year < other.year {
            Some(Ordering::Less)
        } else if self.year > other.year {
            Some(Ordering::Greater)
        } else if self.month < other.month {
            Some(Ordering::Less)
        } else if self.month > other.month {
            Some(Ordering::Greater)
        } else if self.day < other.day {
            Some(Ordering::Less)
        } else if self.day > other.day {
            Some(Ordering::Greater)
        } else {
            Some(Ordering::Equal)
        }
    }
}

impl vstd::std_specs::cmp::PartialOrdSpecImpl for Date {
    open spec fn obeys_partial_cmp_spec() -> bool {
        true
    }

    open spec fn partial_cmp_spec(&self, other: &Date) -> Option<Ordering> {
        if self@.before(other@) {
            Some(Ordering::Less)
        } else if other@.before(self@) {
            Some(Ordering::Greater)
        } else {
            Some(Ordering::Equal)
        }
    }
}

/// Error type for parsing a [`Date`].
#[derive(Debug, Clone)]
pub struct ParseDateError {}

impl ParseDateError {
    /// The message of the error.
    pub fn to_string(&self) -> (message: String)
        ensures
            message@ == "Invalid date"@,
    {
        "Invalid date".to_owned()
    }
}

/// Writing a date and reading the text gives the date back.
pub proof fn lemma_date_round_trip(date: DateView)
    requires
        date.valid(),
    ensures
        DateView::parse(date.text()) == Some(date),
{
    let s = date.text();
    assert(s.subrange(0, 4) =~= four_digits(date.year));
    assert(s.subrange(4, 6) =~= two_digits(date.month));
    assert(s.subrange(6, 8) =~= two_digits(date.day));
    lemma_four_digits_read_back(date.year, s, 0);
    lemma_two_digits_read_back(date.month, s, 4);
    lemma_two_digits_read_back(date.day, s, 6);
    assert(all_digits(s));
}

/// A text that reads as a date is the text of that date: no date has a
/// second spelling.
pub proof fn lemma_date_text_canonical(s: Seq<char>)
    requires
        DateView::parse(s) is Some,
    ensures
        DateView::parse(s)->0.valid(),
        DateView::parse(s)->0.text() == s,
{
    lemma_four_digits_written_back(s, 0);
    lemma_two_digits_written_back(s, 4);
    lemma_two_digits_written_back(s, 6);
}

/// What is not read as a date: a text whose length is not eight, a text with
/// a character that is no digit, and digits that name no day.
pub proof fn lemma_date_rejected(s: Seq<char>)
    ensures
        s.len() != 8 ==> DateView::parse(s) is None,
        (exists|i: int| 0 <= i < s.len() && !is_digit(#[trigger] s[i])) ==> DateView::parse(s)
            is None,
        !(1 <= two_digit_number(s, 4) <= 12) ==> DateView::parse(s) is None,
        !(1 <= two_digit_number(s, 6) <= month_length(
            four_digit_number(s, 0),
            two_digit_number(s, 4),
        )) ==> DateView::parse(s) is None,
{
}

/// Two dates are equal exactly when they name the same day.
pub proof fn lemma_date_equality(a: Date, b: Date)
    ensures
        (a == b) == (a@ == b@),
{
}

/// The order of dates is a strict total order: no date is before itself, of
/// two different dates exactly one is before the other, and a date before a
/// second that is before a third is before the third.
pub proof fn lemma_date_order_total(a: DateView, b: DateView, c: DateView)
    ensures
        !a.before(a),
        a.before(b) ==> !b.before(a),
        a != b ==> a.before(b) || b.before(a),
        a.before(b) && b.before(c) ==> a.before(c),
{
}

/// The text of an earlier date stands before the text of a later one.
proof fn lemma_earlier_date_has_earlier_text(a: DateView, b: DateView)
    requires
        a.valid(),
        b.valid(),
        a.before(b),
    ensures
        text_before(a.text(), b.text()),
{
    let (year_a, year_b) = (four_digits(a.year), four_digits(b.year));
    let (month_a, month_b) = (two_digits(a.month), two_digits(b.month));
    let (day_a, day_b) = (two_digits(a.day), two_digits(b.day));
    if a.year < b.year {
        lemma_four_digits_ordered(a.year, b.year);
    } else if a.month < b.month {
        lemma_two_digits_ordered(a.month, b.month);
    } else {
        lemma_two_digits_ordered(a.day, b.day);
    }
    lemma_text_before_concat(year_a, year_b, month_a, month_b);
    lemma_text_before_concat(year_a + month_a, year_b + month_b, day_a, day_b);
}

/// Dates are ordered as their texts are in the dictionary.
pub proof fn lemma_date_order_is_text_order(a: DateView, b: DateView)
    requires
        a.valid(),
        b.valid(),
    ensures
        a.before(b) <==> text_before(a.text(), b.text()),
{
    lemma_text_before_asymmetric(a.text(), b.text());
    if a.before(b) {
        lemma_earlier_date_has_earlier_text(a, b);
    } else if b.before(a) {
        lemma_earlier_date_has_earlier_text(b, a);
    } else {
        assert(a == b);
    }
}

/// The text of a valid date can stand as a value.
pub proof fn lemma_date_text_is_value(date: DateView)
    requires
        date.valid(),
    ensures
        is_value_text(date.text()),
{
    lemma_date_round_trip(date);
    lemma_digits_are_value_text(date.text());
}

} // verus!
