use miami_room::Date;
use miami_room::ParseError;
use miami_room::Time;

#[test]
fn test_time_adding() {
    let expected = Time { hour: 13, minute: 20 };

    let actual = Time { hour: 10, minute: 30 }.add(&Time { hour: 2, minute: 50 });
    assert_eq!(actual, expected);
}

#[test]
fn test_time_new_as_minutes() {
    assert_eq!(Time::new(0, 0).unwrap().as_minutes(), 0);
    assert_eq!(Time::new(10, 30).unwrap().as_minutes(), 630);
    assert_eq!(Time::new(23, 59).unwrap().as_minutes(), 1439);
}

#[test]
fn test_time_new_rejects_out_of_range() {
    assert_eq!(Time::new(24, 0), Err(ParseError::InvalidTime));
    assert_eq!(Time::new(0, 60), Err(ParseError::InvalidTime));
    assert_eq!(Time::new(255, 255), Err(ParseError::InvalidTime));
}

#[test]
fn test_time_add_commutes() {
    let pairs = [
        (Time { hour: 10, minute: 30 }, Time { hour: 2, minute: 50 }),
        (Time { hour: 0, minute: 0 }, Time { hour: 23, minute: 59 }),
        (Time { hour: 7, minute: 45 }, Time { hour: 7, minute: 45 }),
    ];
    for (a, b) in pairs {
        assert_eq!(a.add(&b), b.add(&a));
    }
}

#[test]
fn test_time_add_past_midnight_keeps_raw_hours() {
    let late = Time { hour: 23, minute: 30 }.add(&Time { hour: 1, minute: 0 });
    assert_eq!(late, Time { hour: 24, minute: 30 });
    assert_eq!(late.as_minutes(), 24 * 60 + 30);
}

#[test]
fn test_date_new_validates_fields() {
    assert_eq!(
        Date::new(2016, 5, 8),
        Ok(Date { year: 2016, month: 5, day: 8 })
    );
    assert_eq!(Date::new(2016, 0, 8), Err(ParseError::InvalidDate));
    assert_eq!(Date::new(2016, 13, 8), Err(ParseError::InvalidDate));
    assert_eq!(Date::new(2016, 5, 0), Err(ParseError::InvalidDate));
    assert_eq!(Date::new(2016, 5, 32), Err(ParseError::InvalidDate));
    // The day bound is a flat 31, not calendar-aware.
    assert_eq!(
        Date::new(2016, 2, 31),
        Ok(Date { year: 2016, month: 2, day: 31 })
    );
}
