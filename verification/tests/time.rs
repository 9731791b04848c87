use ical_writer::{ParseTimeError, Time};

#[test]
fn time_parse() {
    assert_eq!(
        "235959Z".parse::<Time>().unwrap(),
        Time::new_utc(23, 59, 59)
    );
    assert_eq!("000000Z".parse::<Time>().unwrap(), Time::new_utc(0, 0, 0));
    assert_eq!("120000Z".parse::<Time>().unwrap(), Time::new_utc(12, 0, 0));
    assert_eq!(
        "123456Z".parse::<Time>().unwrap(),
        Time::new_utc(12, 34, 56)
    );
    assert!("240000Z".parse::<Time>().is_err());
    assert!("006000Z".parse::<Time>().is_err());
    assert!("000060Z".parse::<Time>().is_err());
    assert!("235960Z".parse::<Time>().is_err());
    assert!("123456".parse::<Time>().is_err());
}

#[test]
fn time_display() {
    assert_eq!(Time::new_utc(23, 59, 59).to_string(), "235959Z");
    assert_eq!(Time::new_utc(0, 0, 0).to_string(), "000000Z");
    assert_eq!(Time::new_utc(12, 0, 0).to_string(), "120000Z");
    assert_eq!(Time::new_utc(12, 34, 56).to_string(), "123456Z");
}

#[test]
fn time_compare() {
    assert_eq!(Time::new_utc(23, 4, 5), Time::new_utc(23, 4, 5));
    assert!(Time::new_utc(13, 0, 1) > Time::new_utc(12, 0, 3));
    assert!(Time::new_utc(17, 20, 35) < Time::new_utc(17, 35, 20));
}

#[test]
fn time_fields_out_of_range_are_invalid() {
    assert!(!Time::is_valid(24, 0, 0));
    assert!(!Time::is_valid(0, 60, 0));
    assert!(!Time::is_valid(0, 0, 60));
    assert!(!Time::is_valid(23, 59, 60));
    assert!(Time::is_valid(23, 59, 59));
    assert!(Time::is_valid(0, 0, 0));
}

#[test]
fn time_getters() {
    let time = Time::new_utc(7, 8, 9);
    assert_eq!(time.hour(), 7);
    assert_eq!(time.minute(), 8);
    assert_eq!(time.second(), 9);
}

#[test]
fn time_round_trip_over_every_second_of_the_day() {
    for hour in 0u8..24 {
        for minute in 0u8..60 {
            for second in 0u8..60 {
                let time = Time::new_utc(hour, minute, second);
                let text = time.to_string();
                assert_eq!(text.len(), 7);
                assert_eq!(text.parse::<Time>().unwrap(), time);
            }
        }
    }
}

#[test]
fn time_parse_gives_back_the_text() {
    for text in ["000000Z", "235959Z", "070809Z"] {
        assert_eq!(text.parse::<Time>().unwrap().to_string(), text);
    }
}

#[test]
fn time_parse_rejects() {
    // wrong length
    assert!("".parse::<Time>().is_err());
    assert!("12345Z".parse::<Time>().is_err());
    assert!("1234567Z".parse::<Time>().is_err());
    // characters that are no digits
    assert!("12345aZ".parse::<Time>().is_err());
    assert!("-23456Z".parse::<Time>().is_err());
    assert!("12345\u{e9}".parse::<Time>().is_err());
    // no Z at the end: local time, or an offset from UTC
    assert!("1234567".parse::<Time>().is_err());
    assert!("123456z".parse::<Time>().is_err());
    assert!("123456+".parse::<Time>().is_err());
    assert!("230000-0800".parse::<Time>().is_err());
    // fields out of range
    assert!("240000Z".parse::<Time>().is_err());
    assert!("236000Z".parse::<Time>().is_err());
    assert!("235960Z".parse::<Time>().is_err());
    assert!("995959Z".parse::<Time>().is_err());
}

#[test]
fn time_order_is_by_hour_then_minute_then_second() {
    let times = [
        Time::new_utc(0, 59, 59),
        Time::new_utc(1, 0, 0),
        Time::new_utc(1, 0, 1),
        Time::new_utc(1, 1, 0),
        Time::new_utc(2, 0, 0),
    ];
    for i in 0..times.len() {
        for j in 0..times.len() {
            assert_eq!(times[i] < times[j], i < j);
            assert_eq!(times[i] > times[j], i > j);
            assert_eq!(times[i] == times[j], i == j);
            assert_eq!(times[i].partial_cmp(&times[j]), Some(i.cmp(&j)));
            assert_eq!(times[i].cmp(&times[j]), i.cmp(&j));
        }
    }
}

#[test]
fn time_error_message() {
    let error: ParseTimeError = "x".parse::<Time>().unwrap_err();
    assert_eq!(error.to_string(), "Invalid time");
}
