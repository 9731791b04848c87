//! A date together with a time of day, written `YYYYMMDDTHHMMSSZ`.

use crate::content_line::{is_value_text, lemma_value_text_concat};
use crate::date_and_time::date::{
    lemma_date_equality, lemma_date_order_is_text_order, lemma_date_order_total,
    lemma_date_round_trip, lemma_date_text_canonical, lemma_date_text_is_value, Date, DateView,
};
use crate::date_and_time::time::{
    lemma_time_equality, lemma_time_order_is_text_order, lemma_time_order_total,
    lemma_time_round_trip, lemma_time_text_canonical, lemma_time_text_is_value, Time, TimeView,
};
use crate::text::{
    all_digits, is_digit, lemma_text_before_asymmetric, lemma_text_before_concat, text_before,
};
use std::cmp::Ordering;
use std::str::FromStr;
use vstd::std_specs::cmp::PartialOrdSpec;
use vstd::prelude::*;

verus! {

/// The byte of the letter `T` in ASCII, which parts the date from the time.
const SEPARATOR: u8 = 84;

/// A date and a time of day as numbers.
pub struct DateTimeView {
    pub date: DateView,
    pub time: TimeView,
}

impl DateTimeView {
    /// Whether both parts are valid.
    pub open spec fn valid(self) -> bool {
        self.date.valid() && self.time.valid()
    }

    /// The sixteen characters `YYYYMMDDTHHMMSSZ`: the date, the letter `T`,
    /// the time.
    pub open spec fn text(self) -> Seq<char> {
        self.date.text() + seq!['T'] + self.time.text()
    }

    /// The date-time that `s` writes: a date, the letter `T`, and a time. A
    /// date holds no `T`, so the `T` that parts them is the first of `s`.
    pub open spec fn parse(s: Seq<char>) -> Option<DateTimeView> {
        if s.len() == 16 && s[8] == 'T' && DateView::parse(s.subrange(0, 8)) is Some
            && TimeView::parse(s.subrange(9, 16)) is Some {
            Some(
                DateTimeView {
                    date: DateView::parse(s.subrange(0, 8))->0,
                    time: TimeView::parse(s.subrange(9, 16))->0,
                },
            )
        } else {
            None
        }
    }

    /// Whether `self` is earlier than `other`: on an earlier day, or on the
    /// same day at an earlier time.
    pub open spec fn before(self, other: DateTimeView) -> bool {
        self.date.before(other.date) || (self.date == other.date && self.time.before(other.time))
    }
}

/// Represents a date and time as specified in
/// [RFC 5545 section 3.3.5](https://tools.ietf.org/html/rfc5545#section-3.3.5).
#[derive(Debug, Clone, Copy, PartialEq, Eq, Structural, Ord, Hash)]
pub struct DateTime {
    /// Date component.
    pub date: Date,
    /// Time component.
    pub time: Time,
}

impl View for DateTime {
    type V = DateTimeView;

    open spec fn view(&self) -> DateTimeView {
        DateTimeView { date: self.date@, time: self.time@ }
    }
}

impl DateTime {
    /// The date-time as `YYYYMMDDTHHMMSSZ`.
    pub fn to_string(&self) -> (text: String)
        ensures
            text@ == self@.text(),
    {
        let mut text = self.date.to_string();
        proof {
            reveal_strlit("T");
        }
        text.append("T");
        let time = self.time.to_string();
        text.append(time.as_str());
        text
    }
}

/// The place of the first `T` among `bytes`, or their number where there is
/// none.
fn first_separator(bytes: &[u8]) -> (at: usize)
    ensures
        at <= bytes@.len(),
        forall|j: int| 0 <= j < at ==> #[trigger] bytes@[j] != SEPARATOR,
        at < bytes@.len() ==> bytes@[at as int] == SEPARATOR,
{
    let mut at: usize = 0;
    while at < bytes.len()
        invariant
            at <= bytes@.len(),
            forall|j: int| 0 <= j < at ==> #[trigger] bytes@[j] != SEPARATOR,
        decreases bytes@.len() - at,
    {
        if bytes[at] == SEPARATOR {
            return at;
        }
        at += 1;
    }
    at
}

impl FromStr for DateTime {
    type Err = ParseDateTimeError;

    /// Reads a date-time written as `YYYYMMDDTHHMMSSZ`: the text is split at
    /// its first `T`, and the two halves are read as a date and as a time.
    fn from_str(s: &str) -> (parsed: Result<DateTime, ParseDateTimeError>)
        ensures
            match parsed {
                Ok(date_time) => DateTimeView::parse(s@) == Some(date_time@),
                Err(_) => DateTimeView::parse(s@) is None,
            },
    {
        if !s.is_ascii() {
            proof {
                lemma_not_ascii_rejected(s@);
            }
            return Err(ParseDateTimeError {});
        }
        proof {
            vstd::string::is_ascii_spec_bytes(s);
        }
        let bytes = s.as_bytes();
        let at = first_separator(bytes);
        if at == bytes.len() {
            assert(s@.len() == 16 ==> s@[8] != 'T') by {
                if s@.len() == 16 {
                    assert(bytes@[8] != SEPARATOR);
                }
            }
            return Err(ParseDateTimeError {});
        }
        proof {
            assert forall|j: int| 0 <= j < at implies #[trigger] s@[j] != 'T' by {
                assert(bytes@[j] != SEPARATOR);
            }
            lemma_split_at_first_separator(s@, at as int);
        }
        let date = match Date::from_str(s.substring_ascii(0, at)) {
            Ok(date) => date,
            Err(_) => {
                return Err(ParseDateTimeError {});
            },
        };
        let time = match Time::from_str(s.substring_ascii(at + 1, bytes.len())) {
            Ok(time) => time,
            Err(_) => {
                return Err(ParseDateTimeError {});
            },
        };
        Ok(DateTime { date, time })
    }
}

impl PartialOrd for DateTime {
    /// Orders date-times by date, then by time.
    fn partial_cmp(&self, other: &DateTime) -> (order: Option<Ordering>) {
        if self.date < other.date {
            Some(Ordering::Less)
        } else if self.date > other.date {
            Some(Ordering::Greater)
        } else {
            self.time.partial_cmp(&other.time)
        }
    }
}

impl vstd::std_specs::cmp::PartialOrdSpecImpl for DateTime {
    open spec fn obeys_partial_cmp_spec() -> bool {
        true
    }

    open spec fn partial_cmp_spec(&self, other: &DateTime) -> Option<Ordering> {
        if self@.before(other@) {
            Some(Ordering::Less)
        } else if other@.before(self@) {
            Some(Ordering::Greater)
        } else {
            Some(Ordering::Equal)
        }
    }
}

/// Error type for parsing a [`DateTime`].
#[derive(Debug, Clone)]
pub struct ParseDateTimeError {}

impl ParseDateTimeError {
    /// The message of the error.
    pub fn to_string(&self) -> (message: String)
        ensures
            message@ == "Invalid date-time"@,
    {
        "Invalid date-time".to_owned()
    }
}

/// A text with a character outside ASCII is no date-time.
proof fn lemma_not_ascii_rejected(s: Seq<char>)
    requires
        !vstd::utf8::is_ascii_chars(s),
    ensures
        DateTimeView::parse(s) is None,
{
    let i = choose|i: int| 0 <= i < s.len() && !('\0' <= #[trigger] s[i] <= '\u{7f}');
    if s.len() == 16 {
        if i < 8 {
            assert(s.subrange(0, 8)[i] == s[i]);
            assert(!is_digit(s.subrange(0, 8)[i]));
        } else if 9 <= i < 15 {
            let time = s.subrange(9, 16);
            assert(time.subrange(0, 6)[i - 9] == s[i]);
            assert(!is_digit(time.subrange(0, 6)[i - 9]));
        } else if i == 15 {
            assert(s.subrange(9, 16)[6] == s[15]);
        }
    }
}

/// Where the first `T` of `s` stands at `at`, `s` is a date-time exactly
/// when what stands before it is a date and what stands after it is a time.
proof fn lemma_split_at_first_separator(s: Seq<char>, at: int)
    requires
        0 <= at < s.len(),
        s[at] == 'T',
        forall|j: int| 0 <= j < at ==> #[trigger] s[j] != 'T',
    ensures
        DateTimeView::parse(s) == match (
            DateView::parse(s.subrange(0, at)),
            TimeView::parse(s.subrange(at + 1, s.len() as int)),
        ) {
            (Some(date), Some(time)) => Some(DateTimeView { date, time }),
            _ => None,
        },
{
    let date = DateView::parse(s.subrange(0, at));
    let time = TimeView::parse(s.subrange(at + 1, s.len() as int));
    if DateTimeView::parse(s) is Some {
        let head = s.subrange(0, 8);
        assert(all_digits(head));
        if at < 8 {
            assert(head[at] == s[at]);
            assert(!is_digit(head[at]));
        }
        assert(at == 8);
    } else if date is Some && time is Some {
        assert(s.subrange(0, at).len() == 8);
        assert(s.subrange(at + 1, s.len() as int).len() == 7);
    }
}

/// Writing a date-time and reading the text gives the date-time back.
pub proof fn lemma_date_time_round_trip(date_time: DateTimeView)
    requires
        date_time.valid(),
    ensures
        DateTimeView::parse(date_time.text()) == Some(date_time),
{
    let s = date_time.text();
    assert(s.subrange(0, 8) =~= date_time.date.text());
    assert(s.subrange(9, 16) =~= date_time.time.text());
    lemma_date_round_trip(date_time.date);
    lemma_time_round_trip(date_time.time);
}

/// A text that reads as a date-time is the text of that date-time.
pub proof fn lemma_date_time_text_canonical(s: Seq<char>)
    requires
        DateTimeView::parse(s) is Some,
    ensures
        DateTimeView::parse(s)->0.valid(),
        DateTimeView::parse(s)->0.text() == s,
{
    lemma_date_text_canonical(s.subrange(0, 8));
    lemma_time_text_canonical(s.subrange(9, 16));
    assert(s =~= s.subrange(0, 8) + seq!['T'] + s.subrange(9, 16));
}

/// What is not read as a date-time: a text without a `T` after the eighth
/// character, and a text whose part before that `T` is no date or whose part
/// after it is no time. The latter holds of every time that does not end in
/// `Z`, so of every local time and of every offset from UTC.
pub proof fn lemma_date_time_rejected(s: Seq<char>)
    ensures
        (forall|i: int| 0 <= i < s.len() ==> #[trigger] s[i] != 'T') ==> DateTimeView::parse(s)
            is None,
        s.len() > 8 && s[8] != 'T' ==> DateTimeView::parse(s) is None,
        DateView::parse(s.subrange(0, 8)) is None ==> DateTimeView::parse(s) is None,
        TimeView::parse(s.subrange(9, s.len() as int)) is None ==> DateTimeView::parse(s) is None,
        s.len() > 0 && s.last() != 'Z' ==> DateTimeView::parse(s) is None,
{
    if s.len() == 16 {
        assert(s.subrange(9, 16)[6] == s[15]);
    }
}

/// The order of date-times is the order of their dates and, where the dates
/// are equal, the order of their times.
pub proof fn lemma_date_time_order_lexicographic(a: DateTime, b: DateTime)
    ensures
        a.partial_cmp_spec(&b) == if a.date.partial_cmp_spec(&b.date) == Some(Ordering::Equal) {
            a.time.partial_cmp_spec(&b.time)
        } else {
            a.date.partial_cmp_spec(&b.date)
        },
{
}

/// Two date-times are equal exactly when their dates and their times are.
pub proof fn lemma_date_time_equality(a: DateTime, b: DateTime)
    ensures
        (a == b) == (a@ == b@),
{
    lemma_date_equality(a.date, b.date);
    lemma_time_equality(a.time, b.time);
}

/// The order of date-times is a strict total order: no date-time is before
/// itself, of two different date-times exactly one is before the other, and
/// a date-time before a second that is before a third is before the third.
pub proof fn lemma_date_time_order_total(a: DateTimeView, b: DateTimeView, c: DateTimeView)
    ensures
        !a.before(a),
        a.before(b) ==> !b.before(a),
        a != b ==> a.before(b) || b.before(a),
        a.before(b) && b.before(c) ==> a.before(c),
{
    lemma_date_order_total(a.date, b.date, c.date);
    lemma_time_order_total(a.time, b.time, c.time);
}

/// The text of an earlier date-time stands before the text of a later one.
proof fn lemma_earlier_date_time_has_earlier_text(a: DateTimeView, b: DateTimeView)
    requires
        a.valid(),
        b.valid(),
        a.before(b),
    ensures
        text_before(a.text(), b.text()),
{
    let (date_a, date_b) = (a.date.text(), b.date.text());
    assert(date_a.len() == 8 && date_b.len() == 8);
    if a.date.before(b.date) {
        lemma_date_order_is_text_order(a.date, b.date);
        lemma_text_before_concat(date_a, date_b, seq!['T'], seq!['T']);
    } else {
        lemma_time_order_is_text_order(a.time, b.time);
    }
    lemma_text_before_concat(
        date_a + seq!['T'],
        date_b + seq!['T'],
        a.time.text(),
        b.time.text(),
    );
}

/// Date-times are ordered as their texts are in the dictionary: to sort
/// the texts is to sort the moments.
pub proof fn lemma_date_time_order_is_text_order(a: DateTimeView, b: DateTimeView)
    requires
        a.valid(),
        b.valid(),
    ensures
        a.before(b) <==> text_before(a.text(), b.text()),
{
    lemma_text_before_asymmetric(a.text(), b.text());
    if a.before(b) {
        lemma_earlier_date_time_has_earlier_text(a, b);
    } else if b.before(a) {
        lemma_earlier_date_time_has_earlier_text(b, a);
    } else {
        lemma_date_order_total(a.date, b.date, a.date);
        lemma_time_order_total(a.time, b.time, a.time);
        assert(a == b);
    }
}

/// The text of a valid date-time can stand as a value.
pub proof fn lemma_date_time_text_is_value(date_time: DateTimeView)
    requires
        date_time.valid(),
    ensures
        is_value_text(date_time.text()),
{
    lemma_date_text_is_value(date_time.date);
    lemma_time_text_is_value(date_time.time);
    lemma_value_text_concat(date_time.date.text(), seq!['T']);
    lemma_value_text_concat(date_time.date.text() + seq!['T'], date_time.time.text());
}

} // verus!
