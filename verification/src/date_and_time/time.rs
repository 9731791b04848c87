//! Times of day in UTC, written `HHMMSSZ`.

use crate::content_line::{is_value_char, is_value_text, lemma_digits_are_value_text};
use crate::text::{
    all_digits, digit_values, is_digit, lemma_text_before_asymmetric, lemma_text_before_concat,
    lemma_two_digits_ordered, lemma_two_digits_read_back, lemma_two_digits_written_back,
    push_two_digits, text_before, two_digit_number, two_digits,
};
use std::cmp::Ordering;
use std::str::FromStr;
use vstd::prelude::*;

verus! {

/// The byte of the letter `Z` in ASCII, which marks a time as one in UTC.
const UTC_MARK: u8 = 90;

/// A time of day as three numbers.
pub struct TimeView {
    pub hour: int,
    pub minute: int,
    pub second: int,
}

impl TimeView {
    /// Whether the three numbers name a second of the day. There is no
    /// second 60: leap seconds are not represented.
    pub open spec fn valid(self) -> bool {
        &&& 0 <= self.hour <= 23
        &&& 0 <= self.minute <= 59
        &&& 0 <= self.second <= 59
    }

    /// The seven characters `HHMMSSZ` that write the time.
    pub open spec fn text(self) -> Seq<char> {
        two_digits(self.hour) + two_digits(self.minute) + two_digits(self.second) + seq!['Z']
    }

    /// The numbers that the first six characters write, whether or not they
    /// name a second of the day.
    pub open spec fn read(s: Seq<char>) -> TimeView {
        TimeView {
            hour: two_digit_number(s, 0),
            minute: two_digit_number(s, 2),
            second: two_digit_number(s, 4),
        }
    }

    /// The time that `s` writes: `s` is six digits and the letter `Z`, and
    /// the digits name a second of the day.
    pub open spec fn parse(s: Seq<char>) -> Option<TimeView> {
        if s.len() == 7 && all_digits(s.subrange(0, 6)) && s[6] == 'Z' && Self::read(s).valid() {
            Some(Self::read(s))
        } else {
            None
        }
    }

    /// Whether `self` is earlier in the day than `other`: the order by hour,
    /// then minute, then second.
    pub open spec fn before(self, other: TimeView) -> bool {
        ||| self.hour < other.hour
        ||| self.hour == other.hour && self.minute < other.minute
        ||| self.hour == other.hour && self.minute == other.minute && self.second < other.second
    }
}

/// Represents a time as specified in
/// [RFC 5545 section 3.3.12](https://tools.ietf.org/html/rfc5545#section-3.3.12).
///
/// [RFC 5545](https://tools.ietf.org/html/rfc5545#section-3.3.12) specifies that a time may be in
/// either local time or UTC time. Only UTC time is represented.
#[derive(Debug, Clone, Copy, PartialEq, Eq, Structural, Ord, Hash)]
pub struct Time {
    hour: u8,
    minute: u8,
    second: u8,
}

impl View for Time {
    type V = TimeView;

    closed spec fn view(&self) -> TimeView {
        TimeView {
            hour: self.hour as int,
            minute: self.minute as int,
            second: self.second as int,
        }
    }
}

impl Time {
    /// Every `Time` names a second of the day.
    #[verifier::type_invariant]
    pub open spec fn well_formed(self) -> bool {
        self@.valid()
    }

    /// Whether the three numbers name a second of the day, that is, whether
    /// [`Time::new_utc`] accepts them.
    pub fn is_valid(hour: u8, minute: u8, second: u8) -> (valid: bool)
        ensures
            valid == (TimeView {
                hour: hour as int,
                minute: minute as int,
                second: second as int,
            }).valid(),
    {
        hour <= 23 && minute <= 59 && second <= 59
    }

    /// Create a new `Time`.
    ///
    /// The hour is at most 23, the minute and the second at most 59.
    pub fn new_utc(hour: u8, minute: u8, second: u8) -> (time: Time)
        requires
            (TimeView { hour: hour as int, minute: minute as int, second: second as int }).valid(),
        ensures
            time@ == (TimeView {
                hour: hour as int,
                minute: minute as int,
                second: second as int,
            }),
    {
        Time { hour, minute, second }
    }

    /// Get the hour.
    pub fn hour(&self) -> (hour: u8)
        ensures
            hour == self@.hour,
            self@.valid(),
    {
        proof {
            use_type_invariant(self);
        }
        self.hour
    }

    /// Get the minute.
    pub fn minute(&self) -> (minute: u8)
        ensures
            minute == self@.minute,
            self@.valid(),
    {
        proof {
            use_type_invariant(self);
        }
        self.minute
    }

    /// Get the second.
    pub fn second(&self) -> (second: u8)
        ensures
            second == self@.second,
            self@.valid(),
    {
        proof {
            use_type_invariant(self);
        }
        self.second
    }

    /// The time as `HHMMSSZ`.
    pub fn to_string(&self) -> (text: String)
        ensures
            text@ == self@.text(),
    {
        proof {
            use_type_invariant(self);
        }
        let mut text = String::new();
        push_two_digits(&mut text, self.hour);
        push_two_digits(&mut text, self.minute);
        push_two_digits(&mut text, self.second);
        proof {
            reveal_strlit("Z");
        }
        text.append("Z");
        text
    }
}

impl FromStr for Time {
    type Err = ParseTimeError;

    /// Reads a time written as `HHMMSSZ`.
    fn from_str(s: &str) -> (parsed: Result<Time, ParseTimeError>)
        ensures
            match parsed {
                Ok(time) => TimeView::parse(s@) == Some(time@),
                Err(_) => TimeView::parse(s@) is None,
            },
    {
        if !s.is_ascii() {
            proof {
                lemma_not_ascii_rejected(s@);
            }
            return Err(ParseTimeError {});
        }
        proof {
            vstd::string::is_ascii_spec_bytes(s);
        }
        let bytes = s.as_bytes();
        if bytes.len() != 7 {
            return Err(ParseTimeError {});
        }
        if bytes[6] != UTC_MARK {
            return Err(ParseTimeError {});
        }
        let digits = match digit_values(s.substring_ascii(0, 6)) {
            Some(digits) => digits,
            None => {
                return Err(ParseTimeError {});
            },
        };
        let hour: u8 = digits[0] * 10 + digits[1];
        let minute: u8 = digits[2] * 10 + digits[3];
        let second: u8 = digits[4] * 10 + digits[5];
        if !Time::is_valid(hour, minute, second) {
            return Err(ParseTimeError {});
        }
        Ok(Time { hour, minute, second })
    }
}

impl PartialOrd for Time {
    /// Orders times by hour, then minute, then second.
    fn partial_cmp(&self, other: &Time) -> (order: Option<Ordering>) {
        if self.hour < other.hour {
            Some(Ordering::Less)
        } else if self.hour > other.hour {
            Some(Ordering::Greater)
        } else if self.minute < other.minute {
            Some(Ordering::Less)
        } else if self.minute > other.minute {
            Some(Ordering::Greater)
        } else if self.second < other.second {
            Some(Ordering::Less)
        } else if self.second > other.second {
            Some(Ordering::Greater)
        } else {
            Some(Ordering::Equal)
        }
    }
}

impl vstd::std_specs::cmp::PartialOrdSpecImpl for Time {
    open spec fn obeys_partial_cmp_spec() -> bool {
        true
    }

    open spec fn partial_cmp_spec(&self, other: &Time) -> Option<Ordering> {
        if self@.before(other@) {
            Some(Ordering::Less)
        } else if other@.before(self@) {
            Some(Ordering::Greater)
        } else {
            Some(Ordering::Equal)
        }
    }
}

/// Error type for parsing a [`Time`].
#[derive(Debug, Clone)]
pub struct ParseTimeError {}

impl ParseTimeError {
    /// The message of the error.
    pub fn to_string(&self) -> (message: String)
        ensures
            message@ == "Invalid time"@,
    {
        "Invalid time".to_owned()
    }
}

/// A text with a character outside ASCII is no time.
proof fn lemma_not_ascii_rejected(s: Seq<char>)
    requires
        !vstd::utf8::is_ascii_chars(s),
    ensures
        TimeView::parse(s) is None,
{
    let i = choose|i: int| 0 <= i < s.len() && !('\0' <= #[trigger] s[i] <= '\u{7f}');
    if s.len() == 7 {
        if i < 6 {
            assert(s.subrange(0, 6)[i] == s[i]);
            assert(!is_digit(s.subrange(0, 6)[i]));
        }
    }
}

/// Writing a time and reading the text gives the time back.
pub proof fn lemma_time_round_trip(time: TimeView)
    requires
        time.valid(),
    ensures
        TimeView::parse(time.text()) == Some(time),
{
    let s = time.text();
    assert(s.subrange(0, 2) =~= two_digits(time.hour));
    assert(s.subrange(2, 4) =~= two_digits(time.minute));
    assert(s.subrange(4, 6) =~= two_digits(time.second));
    lemma_two_digits_read_back(time.hour, s, 0);
    lemma_two_digits_read_back(time.minute, s, 2);
    lemma_two_digits_read_back(time.second, s, 4);
    assert(all_digits(s.subrange(0, 6)));
}

/// A text that reads as a time is the text of that time: no time has a
/// second spelling.
pub proof fn lemma_time_text_canonical(s: Seq<char>)
    requires
        TimeView::parse(s) is Some,
    ensures
        TimeView::parse(s)->0.valid(),
        TimeView::parse(s)->0.text() == s,
{
    let digits = s.subrange(0, 6);
    assert(is_digit(digits[0]) && is_digit(digits[1]) && is_digit(digits[2]) && is_digit(
        digits[3],
    ) && is_digit(digits[4]) && is_digit(digits[5]));
    lemma_two_digits_written_back(s, 0);
    lemma_two_digits_written_back(s, 2);
    lemma_two_digits_written_back(s, 4);
}

/// What is not read as a time: a text whose length is not seven, a text
/// with a character among the first six that is no digit, a text that does
/// not end in `Z` (a local time, or one with an offset from UTC), and digits
/// that name no second of the day.
pub proof fn lemma_time_rejected(s: Seq<char>)
    ensures
        s.len() != 7 ==> TimeView::parse(s) is None,
        (exists|i: int| 0 <= i < 6 && i < s.len() && !is_digit(#[trigger] s[i]))
            ==> TimeView::parse(s) is None,
        s.len() == 7 && s[6] != 'Z' ==> TimeView::parse(s) is None,
        two_digit_number(s, 0) > 23 ==> TimeView::parse(s) is None,
        two_digit_number(s, 2) > 59 ==> TimeView::parse(s) is None,
        two_digit_number(s, 4) > 59 ==> TimeView::parse(s) is None,
{
    if s.len() == 7 && exists|i: int| 0 <= i < 6 && i < s.len() && !is_digit(#[trigger] s[i]) {
        let i = choose|i: int| 0 <= i < 6 && i < s.len() && !is_digit(#[trigger] s[i]);
        assert(s.subrange(0, 6)[i] == s[i]);
    }
}

/// Two times are equal exactly when they name the same second of the day.
pub proof fn lemma_time_equality(a: Time, b: Time)
    ensures
        (a == b) == (a@ == b@),
{
}

/// The order of times is a strict total order: no time is before itself, of
/// two different times exactly one is before the other, and a time before a
/// second that is before a third is before the third.
pub proof fn lemma_time_order_total(a: TimeView, b: TimeView, c: TimeView)
    ensures
        !a.before(a),
        a.before(b) ==> !b.before(a),
        a != b ==> a.before(b) || b.before(a),
        a.before(b) && b.before(c) ==> a.before(c),
{
}

/// The text of an earlier time stands before the text of a later one.
proof fn lemma_earlier_time_has_earlier_text(a: TimeView, b: TimeView)
    requires
        a.valid(),
        b.valid(),
        a.before(b),
    ensures
        text_before(a.text(), b.text()),
{
    let (hour_a, hour_b) = (two_digits(a.hour), two_digits(b.hour));
    let (minute_a, minute_b) = (two_digits(a.minute), two_digits(b.minute));
    let (second_a, second_b) = (two_digits(a.second), two_digits(b.second));
    if a.hour < b.hour {
        lemma_two_digits_ordered(a.hour, b.hour);
    } else if a.minute < b.minute {
        lemma_two_digits_ordered(a.minute, b.minute);
    } else {
        lemma_two_digits_ordered(a.second, b.second);
    }
    lemma_text_before_concat(hour_a, hour_b, minute_a, minute_b);
    lemma_text_before_concat(hour_a + minute_a, hour_b + minute_b, second_a, second_b);
    lemma_text_before_concat(
        hour_a + minute_a + second_a,
        hour_b + minute_b + second_b,
        seq!['Z'],
        seq!['Z'],
    );
}

/// Times are ordered as their texts are in the dictionary.
pub proof fn lemma_time_order_is_text_order(a: TimeView, b: TimeView)
    requires
        a.valid(),
        b.valid(),
    ensures
        a.before(b) <==> text_before(a.text(), b.text()),
{
    lemma_text_before_asymmetric(a.text(), b.text());
    if a.before(b) {
        lemma_earlier_time_has_earlier_text(a, b);
    } else if b.before(a) {
        lemma_earlier_time_has_earlier_text(b, a);
    } else {
        assert(a == b);
    }
}

/// The text of a valid time can stand as a value.
pub proof fn lemma_time_text_is_value(time: TimeView)
    requires
        time.valid(),
    ensures
        is_value_text(time.text()),
{
    lemma_time_round_trip(time);
    let s = time.text();
    lemma_digits_are_value_text(s.subrange(0, 6));
    assert forall|i: int| 0 <= i < s.len() implies is_value_char(#[trigger] s[i]) by {
        if i < 6 {
            assert(s[i] == s.subrange(0, 6)[i]);
        }
    }
}

} // verus!
