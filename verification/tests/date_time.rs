use ical_writer::{Date, DateTime, ParseDateTimeError, Time};

#[test]
fn date_time_parse() {
    assert_eq!(
        "19980119T070000Z".parse::<DateTime>().unwrap(),
        DateTime {
            date: Date::new(1998, 1, 19),
            time: Time::new_utc(7, 0, 0),
        }
    );
    // Invalid for this implementation, but technically valid
    assert!("19980118T230000".parse::<DateTime>().is_err());
    assert!("19980119T230000-0800".parse::<DateTime>().is_err());
}

#[test]
fn date_time_display() {
    assert_eq!(
        DateTime {
            date: Date::new(1998, 1, 19),
            time: Time::new_utc(7, 0, 0),
        }
        .to_string(),
        "19980119T070000Z"
    );
}

#[test]
fn date_time_round_trip() {
    for &(year, month, day, hour, minute, second) in &[
        (0u16, 1u8, 1u8, 0u8, 0u8, 0u8),
        (9999, 12, 31, 23, 59, 59),
        (2020, 2, 29, 12, 30, 45),
        (1998, 1, 19, 7, 0, 0),
    ] {
        let date_time = DateTime {
            date: Date::new(year, month, day),
            time: Time::new_utc(hour, minute, second),
        };
        let text = date_time.to_string();
        assert_eq!(text.len(), 16);
        assert_eq!(text.parse::<DateTime>().unwrap(), date_time);
    }
}

#[test]
fn date_time_parse_gives_back_the_text() {
    for text in ["00000101T000000Z", "99991231T235959Z", "20240229T123456Z"] {
        assert_eq!(text.parse::<DateTime>().unwrap().to_string(), text);
    }
}

#[test]
fn date_time_parse_rejects() {
    // no T between the date and the time
    assert!("".parse::<DateTime>().is_err());
    assert!("19980119070000Z".parse::<DateTime>().is_err());
    assert!("19980119 070000Z".parse::<DateTime>().is_err());
    assert!("19980119t070000Z".parse::<DateTime>().is_err());
    // more than one T
    assert!("19980119TT070000Z".parse::<DateTime>().is_err());
    assert!("19980119T070000ZT".parse::<DateTime>().is_err());
    assert!("1998T119T070000Z".parse::<DateTime>().is_err());
    // a half that is no date or no time
    assert!("T070000Z".parse::<DateTime>().is_err());
    assert!("19980119T".parse::<DateTime>().is_err());
    assert!("19980230T070000Z".parse::<DateTime>().is_err());
    assert!("19980119T240000Z".parse::<DateTime>().is_err());
    assert!("1998011T9070000Z".parse::<DateTime>().is_err());
    // local time, and offsets from UTC
    assert!("19980118T230000".parse::<DateTime>().is_err());
    assert!("19980119T230000-0800".parse::<DateTime>().is_err());
    assert!("19980119T230000+0100".parse::<DateTime>().is_err());
    assert!("19980119T230000z".parse::<DateTime>().is_err());
    // characters outside ASCII
    assert!("19980119T07000\u{e9}".parse::<DateTime>().is_err());
    assert!("1998011\u{663}T070000Z".parse::<DateTime>().is_err());
}

#[test]
fn date_time_order_is_by_date_then_time() {
    let date_times = [
        DateTime {
            date: Date::new(2021, 1, 1),
            time: Time::new_utc(23, 59, 59),
        },
        DateTime {
            date: Date::new(2021, 1, 2),
            time: Time::new_utc(0, 0, 0),
        },
        DateTime {
            date: Date::new(2021, 1, 2),
            time: Time::new_utc(0, 0, 1),
        },
        DateTime {
            date: Date::new(2021, 2, 1),
            time: Time::new_utc(0, 0, 0),
        },
        DateTime {
            date: Date::new(2022, 1, 1),
            time: Time::new_utc(0, 0, 0),
        },
    ];
    for i in 0..date_times.len() {
        for j in 0..date_times.len() {
            let (a, b) = (date_times[i], date_times[j]);
            assert_eq!(a < b, i < j);
            assert_eq!(a > b, i > j);
            assert_eq!(a == b, i == j);
            assert_eq!(a.partial_cmp(&b), Some(i.cmp(&j)));
            assert_eq!(a.cmp(&b), i.cmp(&j));
            let by_parts = if a.date == b.date {
                a.time.partial_cmp(&b.time)
            } else {
                a.date.partial_cmp(&b.date)
            };
            assert_eq!(a.partial_cmp(&b), by_parts);
        }
    }
}

#[test]
fn date_time_error_message() {
    let error: ParseDateTimeError = "x".parse::<DateTime>().unwrap_err();
    assert_eq!(error.to_string(), "Invalid date-time");
}

#[test]
fn date_times_are_ordered_as_their_texts() {
    let date_times = [
        DateTime {
            date: Date::new(999, 12, 31),
            time: Time::new_utc(23, 59, 59),
        },
        DateTime {
            date: Date::new(1000, 1, 1),
            time: Time::new_utc(0, 0, 0),
        },
        DateTime {
            date: Date::new(2021, 9, 30),
            time: Time::new_utc(9, 59, 59),
        },
        DateTime {
            date: Date::new(2021, 9, 30),
            time: Time::new_utc(10, 0, 0),
        },
        DateTime {
            date: Date::new(2021, 10, 1),
            time: Time::new_utc(0, 0, 0),
        },
    ];
    for a in date_times {
        for b in date_times {
            assert_eq!(a < b, a.to_string() < b.to_string());
            assert_eq!(a.date < b.date, a.date.to_string() < b.date.to_string());
            assert_eq!(a.time < b.time, a.time.to_string() < b.time.to_string());
        }
    }
}
