use ical_writer::{
    Calendar, Component, ContentLine, Date, DateTime, Event, RecurrenceFrequency, RecurrenceRule,
    StartDateTime, TextValue, Time, DEFAULT_PRODUCT_IDENTIFIER,
};

fn new_year_2021() -> DateTime {
    DateTime {
        date: Date::new(2021, 1, 1),
        time: Time::new_utc(0, 0, 0),
    }
}

fn sample_event(uid: &str) -> Event {
    Event::with_uid(
        TextValue::new(uid).unwrap(),
        StartDateTime::from(Date::new(2021, 1, 1)),
        new_year_2021(),
    )
}

fn pairs(lines: &[ContentLine]) -> Vec<(String, String)> {
    lines
        .iter()
        .map(|content_line| {
            (
                content_line.name().to_owned(),
                content_line.value().to_owned(),
            )
        })
        .collect()
}

fn pair(name: &str, value: &str) -> (String, String) {
    (name.to_owned(), value.to_owned())
}

fn is_uuid_text(text: &str) -> bool {
    let bytes = text.as_bytes();
    bytes.len() == 36
        && bytes.iter().enumerate().all(|(i, &b)| match i {
            8 | 13 | 18 | 23 => b == b'-',
            14 => b == b'4',
            19 => matches!(b, b'8' | b'9' | b'a' | b'b'),
            _ => b.is_ascii_digit() || (b'a'..=b'f').contains(&b),
        })
}

#[test]
fn default_product_identifier() {
    assert_eq!(
        DEFAULT_PRODUCT_IDENTIFIER,
        "nicolabruhin.com : ical_writer 0.1.0"
    );
    assert_eq!(Calendar::new().product_identifier(), DEFAULT_PRODUCT_IDENTIFIER);
}

#[test]
fn set_product_identifier() {
    let mut calendar = Calendar::new();
    calendar.set_product_identifier("-//Example Corp.//Calendar 1.0//EN");
    assert_eq!(
        calendar.product_identifier(),
        "-//Example Corp.//Calendar 1.0//EN"
    );
    calendar
        .set_product_identifier("first")
        .set_product_identifier("second");
    assert_eq!(calendar.product_identifier(), "second");
}

#[test]
fn empty_calendar() {
    let calendar = Calendar::new();
    assert!(calendar.components().is_empty());
    assert_eq!(
        pairs(&calendar.content_lines()),
        vec![
            pair("BEGIN", "VCALENDAR"),
            pair("PRODID", DEFAULT_PRODUCT_IDENTIFIER),
            pair("VERSION", "2.0"),
            pair("END", "VCALENDAR"),
        ]
    );
    let mut sink = Vec::new();
    calendar.write(&mut sink).unwrap();
    assert_eq!(
        String::from_utf8(sink).unwrap(),
        "BEGIN:VCALENDAR\r\n\
         PRODID:nicolabruhin.com : ical_writer 0.1.0\r\n\
         VERSION:2.0\r\n\
         END:VCALENDAR\r\n"
    );
}

#[test]
fn calendar_with_one_event() {
    let mut calendar = Calendar::new();
    calendar.add_component(Event::new(
        StartDateTime::from(Date::new(2021, 1, 1)),
        new_year_2021(),
    ));

    let mut sink = Vec::new();
    calendar.write(&mut sink).unwrap();
    let text = String::from_utf8(sink).unwrap();
    let lines = text.split("\r\n").collect::<Vec<_>>();

    assert_eq!(lines.len(), 10);
    assert_eq!(lines[0], "BEGIN:VCALENDAR");
    assert_eq!(lines[1], format!("PRODID:{DEFAULT_PRODUCT_IDENTIFIER}"));
    assert_eq!(lines[2], "VERSION:2.0");
    assert_eq!(lines[3], "BEGIN:VEVENT");
    assert!(lines[4].starts_with("UID:"));
    assert!(is_uuid_text(&lines[4]["UID:".len()..]));
    assert_eq!(lines[5], "DTSTAMP:20210101T000000Z");
    assert_eq!(lines[6], "DTSTART:20210101");
    assert_eq!(lines[7], "END:VEVENT");
    assert_eq!(lines[8], "END:VCALENDAR");
    assert_eq!(lines[9], "");
}

#[test]
fn calendar_with_one_event_of_a_given_identifier() {
    let mut calendar = Calendar::new();
    calendar.add_component(sample_event("19970610T172345Z-AF23B2@example.com"));
    let mut sink = Vec::new();
    calendar.write(&mut sink).unwrap();
    assert_eq!(
        String::from_utf8(sink).unwrap(),
        "BEGIN:VCALENDAR\r\n\
         PRODID:nicolabruhin.com : ical_writer 0.1.0\r\n\
         VERSION:2.0\r\n\
         BEGIN:VEVENT\r\n\
         UID:19970610T172345Z-AF23B2@example.com\r\n\
         DTSTAMP:20210101T000000Z\r\n\
         DTSTART:20210101\r\n\
         END:VEVENT\r\n\
         END:VCALENDAR\r\n"
    );
}

#[test]
fn written_calendar_is_read_back_by_the_parser() {
    let mut event = sample_event("an-id");
    event.set_description(&"long ".repeat(40));
    let mut calendar = Calendar::new();
    calendar.add_component(event);

    let mut sink = Vec::new();
    calendar.write(&mut sink).unwrap();
    let parsed = ical_vcard::Parser::new(sink.as_slice())
        .map(|content_line| {
            let content_line = content_line.unwrap();
            (
                content_line.name().to_owned(),
                content_line.value().to_owned(),
            )
        })
        .collect::<Vec<_>>();
    assert_eq!(parsed, pairs(&calendar.content_lines()));
    assert_eq!(parsed[7], pair("DESCRIPTION", &"long ".repeat(40)));
}

#[test]
fn event_lines_without_optional_properties() {
    let event = sample_event("id-1");
    assert_eq!(event.uid(), "id-1");
    assert_eq!(
        pairs(&event.content_lines()),
        vec![
            pair("BEGIN", "VEVENT"),
            pair("UID", "id-1"),
            pair("DTSTAMP", "20210101T000000Z"),
            pair("DTSTART", "20210101"),
            pair("END", "VEVENT"),
        ]
    );
}

#[test]
fn event_lines_with_every_property() {
    let mut event = Event::with_uid(
        TextValue::new("id-2").unwrap(),
        StartDateTime::from(DateTime {
            date: Date::new(2021, 3, 4),
            time: Time::new_utc(5, 6, 7),
        }),
        new_year_2021(),
    );
    // set in another order than the one in which they are written
    event.set_recurrence_rule(RecurrenceRule::new(RecurrenceFrequency::Weekly).until(DateTime {
        date: Date::new(1998, 1, 19),
        time: Time::new_utc(7, 0, 0),
    }));
    event.set_summary("Summary; with, punctuation");
    event.set_location("Somewhere\tfar");
    event.set_description("A description");
    assert_eq!(
        pairs(&event.content_lines()),
        vec![
            pair("BEGIN", "VEVENT"),
            pair("UID", "id-2"),
            pair("DTSTAMP", "20210101T000000Z"),
            pair("DTSTART", "20210304T050607Z"),
            pair("DESCRIPTION", "A description"),
            pair("LOCATION", "Somewhere\tfar"),
            pair("SUMMARY", "Summary; with, punctuation"),
            pair("RRULE", "FREQ=WEEKLY;UNTIL=19980119T070000Z"),
            pair("END", "VEVENT"),
        ]
    );
}

#[test]
fn event_lines_with_some_properties() {
    let mut event = sample_event("id-3");
    event.set_location("Here");
    event.set_recurrence_rule(RecurrenceRule::new(RecurrenceFrequency::Yearly));
    assert_eq!(
        pairs(&event.content_lines()),
        vec![
            pair("BEGIN", "VEVENT"),
            pair("UID", "id-3"),
            pair("DTSTAMP", "20210101T000000Z"),
            pair("DTSTART", "20210101"),
            pair("LOCATION", "Here"),
            pair("RRULE", "FREQ=YEARLY"),
            pair("END", "VEVENT"),
        ]
    );
}

#[test]
fn event_setters_replace_and_keep_the_identifier() {
    let mut event = sample_event("kept");
    event.set_summary("first");
    event.set_summary("second");
    event.set_description("d");
    event.set_location("l");
    event.set_recurrence_rule(RecurrenceRule::new(RecurrenceFrequency::Daily));
    event.set_recurrence_rule(RecurrenceRule::new(RecurrenceFrequency::Hourly));
    assert_eq!(event.uid(), "kept");
    let lines = pairs(&event.content_lines());
    assert_eq!(lines.len(), 9);
    assert_eq!(lines[1], pair("UID", "kept"));
    assert_eq!(lines[6], pair("SUMMARY", "second"));
    assert_eq!(lines[7], pair("RRULE", "FREQ=HOURLY"));
}

#[test]
fn new_event_has_a_random_uuid() {
    let event = Event::new(StartDateTime::from(Date::new(2021, 1, 1)), new_year_2021());
    assert!(is_uuid_text(event.uid()), "{}", event.uid());
    let lines = pairs(&event.content_lines());
    assert_eq!(lines.len(), 5);
    assert_eq!(lines[1], pair("UID", event.uid()));
    assert_eq!(event.clone().uid(), event.uid());
}

#[test]
fn new_events_have_distinct_identifiers() {
    let mut seen = std::collections::HashSet::new();
    for _ in 0..200 {
        let event = Event::new(StartDateTime::from(Date::new(2021, 1, 1)), new_year_2021());
        assert!(is_uuid_text(event.uid()));
        assert!(seen.insert(event.uid().to_owned()));
    }
}

#[test]
fn start_date_time_text() {
    assert_eq!(
        StartDateTime::from(Date::new(2021, 1, 1)).to_string(),
        "20210101"
    );
    assert_eq!(
        StartDateTime::from(new_year_2021()).to_string(),
        "20210101T000000Z"
    );
    let content_line = StartDateTime::from(Date::new(1998, 1, 19)).content_line();
    assert_eq!(content_line.name(), "DTSTART");
    assert_eq!(content_line.value(), "19980119");
    assert_eq!(
        StartDateTime::from(Date::new(2021, 1, 1)),
        StartDateTime::from(Date::new(2021, 1, 1))
    );
    assert_ne!(
        StartDateTime::from(Date::new(2021, 1, 1)),
        StartDateTime::from(new_year_2021())
    );
}

#[test]
fn components_are_kept_in_the_order_in_which_they_were_added() {
    let mut calendar = Calendar::new();
    calendar
        .add_component(sample_event("first"))
        .add_component(Component::Event(sample_event("second")))
        .add_component(sample_event("third"));
    let uids = calendar
        .components()
        .iter()
        .map(|component| match component {
            Component::Event(event) => event.uid().to_owned(),
        })
        .collect::<Vec<_>>();
    assert_eq!(uids, ["first", "second", "third"]);

    let mut lines = vec![
        pair("BEGIN", "VCALENDAR"),
        pair("PRODID", DEFAULT_PRODUCT_IDENTIFIER),
        pair("VERSION", "2.0"),
    ];
    for component in calendar.components() {
        lines.extend(pairs(&component.content_lines()));
    }
    lines.push(pair("END", "VCALENDAR"));
    assert_eq!(pairs(&calendar.content_lines()), lines);
    assert_eq!(lines.len(), 4 + 3 * 5);
    assert_eq!(lines[4], pair("UID", "first"));
    assert_eq!(lines[9], pair("UID", "second"));
    assert_eq!(lines[14], pair("UID", "third"));
}

#[test]
fn add_appends_the_component() {
    let mut calendar = Calendar::new();
    calendar
        .add(Component::Event(sample_event("first")))
        .add(Component::from(sample_event("second")));
    calendar.add_component(sample_event("third"));
    let uids = calendar
        .components()
        .iter()
        .map(|component| match component {
            Component::Event(event) => event.uid().to_owned(),
        })
        .collect::<Vec<_>>();
    assert_eq!(uids, ["first", "second", "third"]);
    assert_eq!(calendar.product_identifier(), DEFAULT_PRODUCT_IDENTIFIER);
}

#[test]
fn write_keeps_blanks_inside_a_value() {
    let mut event = sample_event("id");
    event.set_summary("a  b\tc ");
    let mut calendar = Calendar::new();
    calendar.add_component(event);
    let mut sink = Vec::new();
    assert!(calendar.write(&mut sink).is_ok());
    let text = String::from_utf8(sink).unwrap();
    assert!(text.contains("\r\nSUMMARY:a  b\tc \r\n"));
}

#[test]
fn write_uses_the_product_identifier_that_was_set() {
    let mut calendar = Calendar::new();
    calendar.set_product_identifier("-//ABC Corporation//NONSGML My Product//EN");
    let mut sink = Vec::new();
    calendar.write(&mut sink).unwrap();
    assert_eq!(
        String::from_utf8(sink).unwrap(),
        "BEGIN:VCALENDAR\r\n\
         PRODID:-//ABC Corporation//NONSGML My Product//EN\r\n\
         VERSION:2.0\r\n\
         END:VCALENDAR\r\n"
    );
}

#[test]
fn write_twice_writes_the_same_twice() {
    let mut calendar = Calendar::new();
    calendar.add_component(sample_event("same"));
    let mut once = Vec::new();
    calendar.write(&mut once).unwrap();
    let mut twice = Vec::new();
    calendar.write(&mut twice).unwrap();
    calendar.write(&mut twice).unwrap();
    assert_eq!(twice, [once.clone(), once].concat());
}

#[test]
fn write_is_the_lines_written_one_by_one() {
    let mut event = sample_event("id");
    event.set_description(&"a long description ".repeat(10));
    let mut calendar = Calendar::new();
    calendar.add_component(event);

    let mut whole = Vec::new();
    calendar.write(&mut whole).unwrap();
    let mut by_line = Vec::new();
    for content_line in calendar.content_lines() {
        ical_writer::write_lines(&[content_line], &mut by_line).unwrap();
    }
    assert_eq!(whole, by_line);
}
