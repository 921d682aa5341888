use miami_room::Date;
use miami_room::KingStudyRoom;
use miami_room::ParseError;
use miami_room::Time;
use miami_room::TimeRange;

#[test]
fn test_label_parses_number_and_capacity() {
    let room = KingStudyRoom::from_str("King Study Room 204 - 4 Person").unwrap();
    assert_eq!(room.room_number, 204);
    assert_eq!(room.person_capacity, 4);
}

#[test]
fn test_label_pattern_found_anywhere_in_the_text() {
    let room = KingStudyRoom::from_str("2nd floor: King Study Room 17 - 12 Person (west wing)")
        .unwrap();
    assert_eq!(room.room_number, 17);
    assert_eq!(room.person_capacity, 12);
}

#[test]
fn test_label_mismatch_is_reported() {
    let err = KingStudyRoom::from_str("Some Other Room").err().unwrap();
    assert_eq!(err, ParseError::NameDoesNotMatch);
    let err = KingStudyRoom::from_str("King Study Room x - 4 Person").err().unwrap();
    assert_eq!(err, ParseError::NameDoesNotMatch);
}

#[test]
fn test_label_unrepresentable_number_is_reported() {
    let err = KingStudyRoom::from_str("King Study Room 99999 - 4 Person").err().unwrap();
    assert_eq!(err, ParseError::NoNumber);
    let err = KingStudyRoom::from_str("King Study Room 204 - 999 Person").err().unwrap();
    assert_eq!(err, ParseError::NoCapacity);
}

#[test]
fn test_stamp_parses_date_and_time() {
    let (date, time) = TimeRange::parse_stamp("201605080830").unwrap();
    assert_eq!(date, Date { year: 2016, month: 5, day: 8 });
    assert_eq!(time, Time { hour: 8, minute: 30 });
}

#[test]
fn test_stamp_ignores_trailing_suffix() {
    let (date, time) = TimeRange::parse_stamp("2016050808300055xyz").unwrap();
    assert_eq!(date, Date { year: 2016, month: 5, day: 8 });
    assert_eq!(time, Time { hour: 8, minute: 30 });
}

#[test]
fn test_stamp_rejects_bad_fields() {
    // Month 99 fails date validation whatever follows it.
    assert_eq!(TimeRange::parse_stamp("20160599083000garbage"), None);
    // Hour and minute out of range.
    assert_eq!(TimeRange::parse_stamp("201605082430"), None);
    assert_eq!(TimeRange::parse_stamp("201605080860"), None);
    // Non-digit inside a field, and an input shorter than twelve characters.
    assert_eq!(TimeRange::parse_stamp("2016O5080830"), None);
    assert_eq!(TimeRange::parse_stamp("20160508"), None);
    assert_eq!(TimeRange::parse_stamp(""), None);
}

#[test]
fn test_contains_time_is_half_open() {
    let range = TimeRange::new(
        Time { hour: 8, minute: 0 },
        Time { hour: 8, minute: 30 },
    );
    assert!(range.contains_time(&Time { hour: 8, minute: 0 }));
    assert!(range.contains_time(&Time { hour: 8, minute: 15 }));
    assert!(!range.contains_time(&Time { hour: 8, minute: 30 }));
    assert!(!range.contains_time(&Time { hour: 7, minute: 59 }));
}

#[test]
fn test_length_minutes() {
    let range = TimeRange::new(
        Time { hour: 8, minute: 0 },
        Time { hour: 9, minute: 45 },
    );
    assert_eq!(range.length_minutes(), 105);
}
