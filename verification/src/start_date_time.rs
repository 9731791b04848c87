//! The start of an event: a whole day, or a moment of a day.

use crate::content_line::{is_name_text, is_value_text, line, ContentLine, ContentLineView};
use crate::date_and_time::date::{lemma_date_text_is_value, Date, DateView};
use crate::date_and_time::date_time::{lemma_date_time_text_is_value, DateTime, DateTimeView};
use vstd::prelude::*;

verus! {

/// The start of an event as numbers: a day, or a day and a time.
pub enum StartDateTimeView {
    Date(DateView),
    DateTime(DateTimeView),
}

impl StartDateTimeView {
    /// Whether the day, and the time where there is one, are valid.
    pub open spec fn valid(self) -> bool {
        match self {
            StartDateTimeView::Date(date) => date.valid(),
            StartDateTimeView::DateTime(date_time) => date_time.valid(),
        }
    }

    /// The text of the start: that of the date, or that of the date-time.
    pub open spec fn text(self) -> Seq<char> {
        match self {
            StartDateTimeView::Date(date) => date.text(),
            StartDateTimeView::DateTime(date_time) => date_time.text(),
        }
    }

    /// The `DTSTART` line of the start.
    pub open spec fn content_line(self) -> ContentLineView {
        line("DTSTART"@, self.text())
    }
}

/// The start of an event: either a date, for an event that takes the whole
/// day, or a date-time.
#[derive(Debug, Clone, Eq, PartialEq, Structural)]
pub struct StartDateTime {
    value: DateAndMaybeTime,
}

#[derive(Debug, Clone, Eq, PartialEq, Structural)]
enum DateAndMaybeTime {
    Date(Date),
    DateTime(DateTime),
}

impl View for StartDateTime {
    type V = StartDateTimeView;

    closed spec fn view(&self) -> StartDateTimeView {
        match self.value {
            DateAndMaybeTime::Date(date) => StartDateTimeView::Date(date@),
            DateAndMaybeTime::DateTime(date_time) => StartDateTimeView::DateTime(date_time@),
        }
    }
}

impl StartDateTime {
    /// The text of the start: `YYYYMMDD` for a date, `YYYYMMDDTHHMMSSZ` for
    /// a date-time.
    pub fn to_string(&self) -> (text: String)
        ensures
            text@ == self@.text(),
            self@.valid(),
    {
        match &self.value {
            DateAndMaybeTime::Date(date) => {
                proof {
                    use_type_invariant(date);
                }
                date.to_string()
            },
            DateAndMaybeTime::DateTime(date_time) => {
                proof {
                    use_type_invariant(&date_time.date);
                    use_type_invariant(&date_time.time);
                }
                date_time.to_string()
            },
        }
    }

    /// The `DTSTART` content line of the start.
    pub fn content_line(&self) -> (content_line: ContentLine)
        ensures
            content_line@ == self@.content_line(),
    {
        let text = self.to_string();
        proof {
            lemma_start_text_is_value(self@);
            lemma_dtstart_is_name();
        }
        ContentLine::new("DTSTART", text)
    }
}

impl From<Date> for StartDateTime {
    /// The start of an event that takes the whole of the day `date`.
    fn from(date: Date) -> (start: StartDateTime)
        ensures
            start@ == StartDateTimeView::Date(date@),
    {
        StartDateTime { value: DateAndMaybeTime::Date(date) }
    }
}

impl vstd::std_specs::convert::FromSpecImpl<Date> for StartDateTime {
    open spec fn obeys_from_spec() -> bool {
        true
    }

    closed spec fn from_spec(date: Date) -> StartDateTime {
        StartDateTime { value: DateAndMaybeTime::Date(date) }
    }
}

impl From<DateTime> for StartDateTime {
    /// The start of an event that begins at `date_time`.
    fn from(date_time: DateTime) -> (start: StartDateTime)
        ensures
            start@ == StartDateTimeView::DateTime(date_time@),
    {
        StartDateTime { value: DateAndMaybeTime::DateTime(date_time) }
    }
}

impl vstd::std_specs::convert::FromSpecImpl<DateTime> for StartDateTime {
    open spec fn obeys_from_spec() -> bool {
        true
    }

    closed spec fn from_spec(date_time: DateTime) -> StartDateTime {
        StartDateTime { value: DateAndMaybeTime::DateTime(date_time) }
    }
}

/// `DTSTART` can stand as the name of a content line.
proof fn lemma_dtstart_is_name()
    ensures
        is_name_text("DTSTART"@),
{
    reveal_strlit("DTSTART");
}

/// The text of a valid start can stand as a value.
pub proof fn lemma_start_text_is_value(start: StartDateTimeView)
    requires
        start.valid(),
    ensures
        is_value_text(start.text()),
{
    match start {
        StartDateTimeView::Date(date) => lemma_date_text_is_value(date),
        StartDateTimeView::DateTime(date_time) => lemma_date_time_text_is_value(date_time),
    }
}

} // verus!
