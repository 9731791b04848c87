//! Events, the one kind of component a calendar holds.

use crate::content_line::{
    is_name_text, is_value_char, is_value_text, lemma_begin_and_end_are_names, line, line_views,
    ContentLine, ContentLineView, TextValue,
};
use crate::date_and_time::date_time::{lemma_date_time_text_is_value, DateTime, DateTimeView};
use crate::recurrence_rule::{lemma_rule_text_is_value, RecurrenceRule, RecurrenceRuleView};
use crate::start_date_time::{StartDateTime, StartDateTimeView};
use crate::text::is_digit;
use vstd::prelude::*;

verus! {

/// Whether `c` is a digit of a number written to the base sixteen, with the
/// letters in lower case.
pub open spec fn is_lower_hex(c: char) -> bool {
    is_digit(c) || ('a' <= c && c <= 'f')
}

/// Whether `s` is the text of a random (version 4) UUID:
/// `xxxxxxxx-xxxx-4xxx-yxxx-xxxxxxxxxxxx`, where each `x` is a digit to the
/// base sixteen in lower case and `y` is one of `8`, `9`, `a` and `b`.
pub open spec fn is_uuid_text(s: Seq<char>) -> bool {
    &&& s.len() == 36
    &&& forall|i: int|
        0 <= i < 36 ==> if i == 8 || i == 13 || i == 18 || i == 23 {
            #[trigger] s[i] == '-'
        } else {
            is_lower_hex(s[i])
        }
    &&& s[14] == '4'
    &&& (s[19] == '8' || s[19] == '9' || s[19] == 'a' || s[19] == 'b')
}

/// Draws a random UUID with `uuid::Uuid::new_v4` and hands back its text.
///
/// `new_v4` takes 128 random bits from the operating system and sets the
/// version to 4 and the variant to that of RFC 9562. The text is the one
/// that `Display` gives: the 32 digits to the base sixteen, in lower case,
/// in groups of 8, 4, 4, 4 and 12 with a hyphen between them. Nothing is
/// said of the random digits. `new_v4` panics where the operating system
/// hands out no random bits.
#[verifier::external_body]
fn random_uuid_text() -> (text: String)
    ensures
        is_uuid_text(text@),
{
    uuid::Uuid::new_v4().to_string()
}

/// An event as numbers and texts.
pub struct EventView {
    pub uid: Seq<char>,
    pub date_time: DateTimeView,
    pub start_date_time: StartDateTimeView,
    pub description: Option<Seq<char>>,
    pub location: Option<Seq<char>>,
    pub summary: Option<Seq<char>>,
    pub recurrence_rule: Option<RecurrenceRuleView>,
}

/// The content line of a property that an event may lack: no line where
/// the property is not set.
pub open spec fn optional_line(name: Seq<char>, value: Option<Seq<char>>) -> Seq<ContentLineView> {
    match value {
        Some(value) => seq![line(name, value)],
        None => Seq::<ContentLineView>::empty(),
    }
}

impl EventView {
    /// The content lines of the event, in the order in which they are
    /// written: the begin of the event, `UID`, `DTSTAMP`, `DTSTART`, then
    /// `DESCRIPTION`, `LOCATION`, `SUMMARY` and `RRULE`, each only where it is
    /// set, and the end of the event.
    pub open spec fn lines(self) -> Seq<ContentLineView> {
        seq![
            line("BEGIN"@, "VEVENT"@),
            line("UID"@, self.uid),
            line("DTSTAMP"@, self.date_time.text()),
            self.start_date_time.content_line(),
        ] + optional_line("DESCRIPTION"@, self.description) + optional_line(
            "LOCATION"@,
            self.location,
        ) + optional_line("SUMMARY"@, self.summary) + optional_line(
            "RRULE"@,
            match self.recurrence_rule {
                Some(rule) => Some(rule.text()),
                None => None,
            },
        ) + seq![line("END"@, "VEVENT"@)]
    }
}

/// Represents an event component of a calendar.
///
/// See [RFC 5545 section 3.6.1 - Event
/// Component](https://tools.ietf.org/html/rfc5545#section-3.6.1)
#[derive(Debug, Clone)]
pub struct Event {
    /// Corresponds to the `UID` property.
    uid: TextValue,
    /// Corresponds to the `DTSTAMP` property.
    date_time: DateTime,
    /// Corresponds to the `DTSTART` property.
    start_date_time: StartDateTime,
    /// Corresponds to the `DESCRIPTION` property.
    description: Option<TextValue>,
    /// Corresponds to the `LOCATION` property.
    location: Option<TextValue>,
    /// Corresponds to the `SUMMARY` property.
    summary: Option<TextValue>,
    /// Corresponds to the `RRULE` property.
    recurrence_rule: Option<RecurrenceRule>,
}

/// The text of a value that may be missing.
spec fn optional_text(value: Option<TextValue>) -> Option<Seq<char>> {
    match value {
        Some(value) => Some(value@),
        None => None,
    }
}

impl View for Event {
    type V = EventView;

    closed spec fn view(&self) -> EventView {
        EventView {
            uid: self.uid@,
            date_time: self.date_time@,
            start_date_time: self.start_date_time@,
            description: optional_text(self.description),
            location: optional_text(self.location),
            summary: optional_text(self.summary),
            recurrence_rule: match self.recurrence_rule {
                Some(rule) => Some(rule@),
                None => None,
            },
        }
    }
}

impl Event {
    /// Create a new [`Event`].
    ///
    /// The `UID` property is set to a random UUID (version 4), drawn anew
    /// for every event. Nothing else is set.
    #[must_use]
    pub fn new(start_date_time: StartDateTime, date_time: DateTime) -> (event: Event)
        ensures
            is_uuid_text(event@.uid),
            event@ == (EventView {
                uid: event@.uid,
                date_time: date_time@,
                start_date_time: start_date_time@,
                description: None,
                location: None,
                summary: None,
                recurrence_rule: None,
            }),
    {
        let text = random_uuid_text();
        proof {
            lemma_uuid_text_is_value(text@);
        }
        Event::with_uid(TextValue::new(text.as_str()).unwrap(), start_date_time, date_time)
    }

    /// Create a new [`Event`] with the given identifier and nothing else
    /// set.
    #[must_use]
    pub fn with_uid(uid: TextValue, start_date_time: StartDateTime, date_time: DateTime) -> (event:
        Event)
        ensures
            event@ == (EventView {
                uid: uid@,
                date_time: date_time@,
                start_date_time: start_date_time@,
                description: None,
                location: None,
                summary: None,
                recurrence_rule: None,
            }),
    {
        Event {
            uid,
            date_time,
            start_date_time,
            description: None,
            location: None,
            summary: None,
            recurrence_rule: None,
        }
    }

    /// The identifier of the event. It is set when the event is created and
    /// no method changes it.
    pub fn uid(&self) -> (uid: &str)
        ensures
            uid@ == self@.uid,
            is_value_text(uid@),
    {
        self.uid.as_str()
    }

    /// Set the description of the event.
    ///
    /// The description holds no control character other than the horizontal
    /// tab and does not begin with a space or a tab.
    pub fn set_description(&mut self, description: &str)
        requires
            is_value_text(description@),
        ensures
            final(self)@ == (EventView { description: Some(description@), ..old(self)@ }),
    {
        self.description = Some(TextValue::new(description).unwrap());
    }

    /// Set the location of the event.
    ///
    /// The location holds no control character other than the horizontal
    /// tab and does not begin with a space or a tab.
    pub fn set_location(&mut self, location: &str)
        requires
            is_value_text(location@),
        ensures
            final(self)@ == (EventView { location: Some(location@), ..old(self)@ }),
    {
        self.location = Some(TextValue::new(location).unwrap());
    }

    /// Set the summary for the event.
    ///
    /// The summary holds no control character other than the horizontal
    /// tab and does not begin with a space or a tab.
    pub fn set_summary(&mut self, summary: &str)
        requires
            is_value_text(summary@),
        ensures
            final(self)@ == (EventView { summary: Some(summary@), ..old(self)@ }),
    {
        self.summary = Some(TextValue::new(summary).unwrap());
    }

    /// Set a recurrence rule for the event.
    pub fn set_recurrence_rule(&mut self, recurrence_rule: RecurrenceRule)
        ensures
            final(self)@ == (EventView { recurrence_rule: Some(recurrence_rule@), ..old(self)@ }),
    {
        self.recurrence_rule = Some(recurrence_rule);
    }

    /// The content lines of the event, in the order in which they are
    /// written.
    pub fn content_lines(&self) -> (lines: Vec<ContentLine>)
        ensures
            line_views(lines@) == self@.lines(),
    {
        proof {
            lemma_begin_and_end_are_names();
            lemma_event_names();
            reveal_strlit("VEVENT");
            use_type_invariant(&self.date_time.date);
            use_type_invariant(&self.date_time.time);
            lemma_date_time_text_is_value(self.date_time@);
        }
        let mut lines: Vec<ContentLine> = Vec::new();
        lines.push(ContentLine::new("BEGIN", "VEVENT".to_owned()));
        lines.push(ContentLine::new("UID", self.uid.as_str().to_owned()));
        lines.push(ContentLine::new("DTSTAMP", self.date_time.to_string()));
        lines.push(self.start_date_time.content_line());
        if let Some(description) = &self.description {
            lines.push(ContentLine::new("DESCRIPTION", description.as_str().to_owned()));
        }
        if let Some(location) = &self.location {
            lines.push(ContentLine::new("LOCATION", location.as_str().to_owned()));
        }
        if let Some(summary) = &self.summary {
            lines.push(ContentLine::new("SUMMARY", summary.as_str().to_owned()));
        }
        if let Some(recurrence_rule) = &self.recurrence_rule {
            let text = recurrence_rule.to_string();
            proof {
                lemma_rule_text_is_value(recurrence_rule@);
            }
            lines.push(ContentLine::new("RRULE", text));
        }
        lines.push(ContentLine::new("END", "VEVENT".to_owned()));
        lines
    }
}

/// The names of the properties of an event can stand as names of content
/// lines.
proof fn lemma_event_names()
    ensures
        is_name_text("UID"@),
        is_name_text("DTSTAMP"@),
        is_name_text("DESCRIPTION"@),
        is_name_text("LOCATION"@),
        is_name_text("SUMMARY"@),
        is_name_text("RRULE"@),
{
    reveal_strlit("UID");
    reveal_strlit("DTSTAMP");
    reveal_strlit("DESCRIPTION");
    reveal_strlit("LOCATION");
    reveal_strlit("SUMMARY");
    reveal_strlit("RRULE");
}

/// The text of a UUID can stand as a value.
pub proof fn lemma_uuid_text_is_value(s: Seq<char>)
    requires
        is_uuid_text(s),
    ensures
        is_value_text(s),
{
    assert forall|i: int| 0 <= i < s.len() implies is_value_char(#[trigger] s[i]) by {
        if !(i == 8 || i == 13 || i == 18 || i == 23) {
            assert(is_lower_hex(s[i]));
        }
    }
}

} // verus!
