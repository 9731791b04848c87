//! Calendar data and its serialization into the content lines of the
//! iCalendar format.
//!
//! A [`Calendar`] holds [`Component`]s, of which the [`Event`] is the one
//! kind. Dates and times are the value types [`Date`], [`Time`] and
//! [`DateTime`]; each carries its validity as a type invariant, and each has a
//! textual form that a spec function over `Seq<char>` fixes. Formatting and
//! parsing are proved against those spec functions, and so is the order in
//! which a calendar emits its content lines.
//!
//! Folding long lines and ending them is the work of the `ical_vcard` crate,
//! and the identifier of an event comes from the `uuid` crate. What is
//! assumed of the two is stated where they are called, in
//! [`content_line`] and in [`event`].

pub mod calendar;
pub mod content_line;
pub mod date_and_time;
pub mod event;
pub mod recurrence_rule;
pub mod start_date_time;
pub mod text;

pub use calendar::{Calendar, Component, DEFAULT_PRODUCT_IDENTIFIER};
pub use content_line::{write_lines, ContentLine, InvalidTextValue, TextValue};
pub use date_and_time::{
    days_in_month, is_leap_year, Date, DateTime, ParseDateError, ParseDateTimeError,
    ParseTimeError, Time,
};
pub use event::Event;
pub use recurrence_rule::{RecurrenceFrequency, RecurrenceRule};
pub use start_date_time::StartDateTime;
