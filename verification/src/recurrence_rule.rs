//! Recurrence rules: a frequency and, optionally, the last moment to which
//! the rule applies.

use crate::content_line::{is_value_text, lemma_value_text_concat};
use crate::date_and_time::date_time::{lemma_date_time_text_is_value, DateTime, DateTimeView};
use crate::text::same_text;
use std::str::FromStr;
use vstd::prelude::*;

verus! {

/// The frequency of a recurrence rule.
///
/// This is used to specify how often a recurrence rule should repeat.
#[derive(Debug, Clone, Copy, PartialEq, Eq, Structural)]
pub enum RecurrenceFrequency {
    /// Repeat in intervals measured in years.
    Yearly,
    /// Repeat in intervals measured in months.
    Monthly,
    /// Repeat in intervals measured in weeks.
    Weekly,
    /// Repeat in intervals measured in days.
    Daily,
    /// Repeat in intervals measured in hours.
    Hourly,
    /// Repeat in intervals measured in minutes.
    Minutely,
    /// Repeat in intervals measured in seconds.
    Secondly,
}

impl RecurrenceFrequency {
    /// The word that writes the frequency.
    pub open spec fn text(self) -> Seq<char> {
        match self {
            RecurrenceFrequency::Yearly => "YEARLY"@,
            RecurrenceFrequency::Monthly => "MONTHLY"@,
            RecurrenceFrequency::Weekly => "WEEKLY"@,
            RecurrenceFrequency::Daily => "DAILY"@,
            RecurrenceFrequency::Hourly => "HOURLY"@,
            RecurrenceFrequency::Minutely => "MINUTELY"@,
            RecurrenceFrequency::Secondly => "SECONDLY"@,
        }
    }

    /// The frequency that `s` writes, where it is the word of one.
    pub open spec fn parse(s: Seq<char>) -> Option<RecurrenceFrequency> {
        if s == "YEARLY"@ {
            Some(RecurrenceFrequency::Yearly)
        } else if s == "MONTHLY"@ {
            Some(RecurrenceFrequency::Monthly)
        } else if s == "WEEKLY"@ {
            Some(RecurrenceFrequency::Weekly)
        } else if s == "DAILY"@ {
            Some(RecurrenceFrequency::Daily)
        } else if s == "HOURLY"@ {
            Some(RecurrenceFrequency::Hourly)
        } else if s == "MINUTELY"@ {
            Some(RecurrenceFrequency::Minutely)
        } else if s == "SECONDLY"@ {
            Some(RecurrenceFrequency::Secondly)
        } else {
            None
        }
    }

    /// The word of the frequency, in capitals.
    pub fn to_string(&self) -> (text: String)
        ensures
            text@ == self.text(),
    {
        match self {
            RecurrenceFrequency::Yearly => "YEARLY".to_owned(),
            RecurrenceFrequency::Monthly => "MONTHLY".to_owned(),
            RecurrenceFrequency::Weekly => "WEEKLY".to_owned(),
            RecurrenceFrequency::Daily => "DAILY".to_owned(),
            RecurrenceFrequency::Hourly => "HOURLY".to_owned(),
            RecurrenceFrequency::Minutely => "MINUTELY".to_owned(),
            RecurrenceFrequency::Secondly => "SECONDLY".to_owned(),
        }
    }
}

impl FromStr for RecurrenceFrequency {
    type Err = ();

    /// Reads the word of a frequency, in capitals.
    fn from_str(s: &str) -> (parsed: Result<RecurrenceFrequency, ()>)
        ensures
            match parsed {
                Ok(frequency) => RecurrenceFrequency::parse(s@) == Some(frequency),
                Err(_) => RecurrenceFrequency::parse(s@) is None,
            },
    {
        if same_text(s, "YEARLY") {
            Ok(RecurrenceFrequency::Yearly)
        } else if same_text(s, "MONTHLY") {
            Ok(RecurrenceFrequency::Monthly)
        } else if same_text(s, "WEEKLY") {
            Ok(RecurrenceFrequency::Weekly)
        } else if same_text(s, "DAILY") {
            Ok(RecurrenceFrequency::Daily)
        } else if same_text(s, "HOURLY") {
            Ok(RecurrenceFrequency::Hourly)
        } else if same_text(s, "MINUTELY") {
            Ok(RecurrenceFrequency::Minutely)
        } else if same_text(s, "SECONDLY") {
            Ok(RecurrenceFrequency::Secondly)
        } else {
            Err(())
        }
    }
}

/// A recurrence rule as numbers and words.
pub struct RecurrenceRuleView {
    pub freq: RecurrenceFrequency,
    pub until: Option<DateTimeView>,
}

impl RecurrenceRuleView {
    /// Whether the end of the rule, where it has one, is a valid date-time.
    pub open spec fn valid(self) -> bool {
        match self.until {
            Some(until) => until.valid(),
            None => true,
        }
    }

    /// The text of the rule: `FREQ=` and the word of the frequency, then,
    /// where the rule has an end, `;UNTIL=` and the end as a date-time.
    pub open spec fn text(self) -> Seq<char> {
        "FREQ="@ + self.freq.text() + match self.until {
            Some(until) => ";UNTIL="@ + until.text(),
            None => Seq::<char>::empty(),
        }
    }
}

/// Represents a recurrence rule as specified in
/// [RFC 5545 section 3.3.10](https://tools.ietf.org/html/rfc5545#section-3.3.10).
#[derive(Debug, Clone, PartialEq, Eq, Structural)]
pub struct RecurrenceRule {
    freq: RecurrenceFrequency,
    until: Option<DateTime>,
}

impl View for RecurrenceRule {
    type V = RecurrenceRuleView;

    closed spec fn view(&self) -> RecurrenceRuleView {
        RecurrenceRuleView {
            freq: self.freq,
            until: match self.until {
                Some(until) => Some(until@),
                None => None,
            },
        }
    }
}

impl RecurrenceRule {
    /// Create a new recurrence rule with the specified frequency.
    pub fn new(freq: RecurrenceFrequency) -> (rule: RecurrenceRule)
        ensures
            rule@ == (RecurrenceRuleView { freq, until: None }),
    {
        RecurrenceRule { freq, until: None }
    }

    /// Set the end date (inclusive) of the recurrence rule.
    pub fn until(&self, until: DateTime) -> (rule: RecurrenceRule)
        ensures
            rule@ == (RecurrenceRuleView { freq: self@.freq, until: Some(until@) }),
    {
        RecurrenceRule { freq: self.freq, until: Some(until) }
    }

    /// The rule as `FREQ=<frequency>`, followed by `;UNTIL=<date-time>`
    /// where the rule has an end.
    pub fn to_string(&self) -> (text: String)
        ensures
            text@ == self@.text(),
            self@.valid(),
    {
        proof {
            if let Some(until) = self.until {
                use_type_invariant(&until.date);
                use_type_invariant(&until.time);
            }
        }
        let mut text = "FREQ=".to_owned();
        let freq = self.freq.to_string();
        text.append(freq.as_str());
        if let Some(until) = self.until {
            text.append(";UNTIL=");
            let end = until.to_string();
            text.append(end.as_str());
        }
        text
    }
}

/// Every frequency is read back from its own word, and a word that reads as
/// a frequency is the word of that frequency.
pub proof fn lemma_frequency_round_trip(frequency: RecurrenceFrequency, s: Seq<char>)
    ensures
        RecurrenceFrequency::parse(frequency.text()) == Some(frequency),
        RecurrenceFrequency::parse(s) == Some(frequency) ==> s == frequency.text(),
{
    reveal_strlit("YEARLY");
    reveal_strlit("MONTHLY");
    reveal_strlit("WEEKLY");
    reveal_strlit("DAILY");
    reveal_strlit("HOURLY");
    reveal_strlit("MINUTELY");
    reveal_strlit("SECONDLY");
    assert("YEARLY"@[0] == 'Y' && "MONTHLY"@[1] == 'O' && "WEEKLY"@[0] == 'W' && "DAILY"@[0] == 'D'
        && "HOURLY"@[0] == 'H' && "MINUTELY"@[1] == 'I' && "SECONDLY"@[0] == 'S');
}

/// The word of every frequency can stand as a value.
pub proof fn lemma_frequency_text_is_value(frequency: RecurrenceFrequency)
    ensures
        is_value_text(frequency.text()),
{
    reveal_strlit("YEARLY");
    reveal_strlit("MONTHLY");
    reveal_strlit("WEEKLY");
    reveal_strlit("DAILY");
    reveal_strlit("HOURLY");
    reveal_strlit("MINUTELY");
    reveal_strlit("SECONDLY");
}

/// The text of a valid recurrence rule can stand as a value.
pub proof fn lemma_rule_text_is_value(rule: RecurrenceRuleView)
    requires
        rule.valid(),
    ensures
        is_value_text(rule.text()),
{
    reveal_strlit("FREQ=");
    reveal_strlit(";UNTIL=");
    lemma_frequency_text_is_value(rule.freq);
    lemma_value_text_concat("FREQ="@, rule.freq.text());
    if let Some(until) = rule.until {
        lemma_date_time_text_is_value(until);
        lemma_value_text_concat(";UNTIL="@, until.text());
        lemma_value_text_concat("FREQ="@ + rule.freq.text(), ";UNTIL="@ + until.text());
    }
}

} // verus!
