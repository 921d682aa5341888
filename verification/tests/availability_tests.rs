use miami_room::Date;
use miami_room::KingStudyRoom;
use miami_room::Schedule;
use miami_room::Time;
use miami_room::TimeRange;
use miami_room::merge::merge_contiguous;

fn room_with_slots(label: &str, stamps: &[&str]) -> KingStudyRoom {
    let mut room = KingStudyRoom::from_str(label).unwrap();
    for stamp in stamps {
        room.add_slot(stamp);
    }
    room
}

fn range(sh: u8, sm: u8, eh: u8, em: u8) -> TimeRange {
    TimeRange::new(Time { hour: sh, minute: sm }, Time { hour: eh, minute: em })
}

#[test]
fn test_merge_drops_isolated_short_slot() {
    // Adjacent slots 08:00-08:30 and 08:30-09:00 merge into one hour; the
    // isolated 09:30-10:00 slot is below the threshold and is dropped.
    let room = room_with_slots(
        "King Study Room 204 - 4 Person",
        &["201605080800", "201605080830", "201605080930"],
    );
    let ranges = room.find_available_ranges(60);
    assert_eq!(ranges, vec![range(8, 0, 9, 0)]);
}

#[test]
fn test_merge_trailing_block_bypasses_threshold() {
    // The block still open when the list ends is emitted even though it is
    // shorter than the threshold.
    let room = room_with_slots(
        "King Study Room 204 - 4 Person",
        &["201605080800", "201605080830"],
    );
    let ranges = room.find_available_ranges(90);
    assert_eq!(ranges, vec![range(8, 0, 9, 0)]);
}

#[test]
fn test_merge_strict_policy_holds_every_block_to_the_threshold() {
    let slots = vec![range(8, 0, 8, 30), range(8, 30, 9, 0)];
    assert_eq!(merge_contiguous(&slots, 90, false), vec![]);
    assert_eq!(merge_contiguous(&slots, 60, false), vec![range(8, 0, 9, 0)]);
}

#[test]
fn test_merge_policies_differ_after_a_gap() {
    let slots = vec![range(8, 0, 8, 30), range(9, 0, 10, 0)];
    // The strict policy opens a new block at the range past the gap; the
    // lenient policy lets a block open only at the range after a gap's
    // close, so the block after the gap is lost.
    assert_eq!(
        merge_contiguous(&slots, 30, false),
        vec![range(8, 0, 8, 30), range(9, 0, 10, 0)]
    );
    assert_eq!(merge_contiguous(&slots, 30, true), vec![range(8, 0, 8, 30)]);
}

#[test]
fn test_merge_spans_dates_independently() {
    // Slots on different dates never merge, even when their times abut.
    let room = room_with_slots(
        "King Study Room 204 - 4 Person",
        &["201605080800", "201605080830", "201605090830", "201605090900"],
    );
    let ranges = room.find_available_ranges(60);
    assert_eq!(ranges, vec![range(8, 0, 9, 0), range(8, 30, 9, 30)]);
}

#[test]
fn test_is_available_half_open_lookup() {
    let room = room_with_slots("King Study Room 204 - 4 Person", &["201605081630"]);
    let date = Date { year: 2016, month: 5, day: 8 };
    assert!(room.is_available(&date, &Time { hour: 16, minute: 30 }));
    assert!(room.is_available(&date, &Time { hour: 16, minute: 59 }));
    assert!(!room.is_available(&date, &Time { hour: 17, minute: 0 }));
    assert!(!room.is_available(&date, &Time { hour: 16, minute: 29 }));
    let other = Date { year: 2016, month: 5, day: 9 };
    assert!(!room.is_available(&other, &Time { hour: 16, minute: 30 }));
}

#[test]
fn test_is_available_is_repeatable() {
    let room = room_with_slots("King Study Room 204 - 4 Person", &["201605081630"]);
    let date = Date { year: 2016, month: 5, day: 8 };
    let time = Time { hour: 16, minute: 45 };
    let first = room.is_available(&date, &time);
    let second = room.is_available(&date, &time);
    assert_eq!(first, second);
    assert!(first);
}

#[test]
fn test_add_slot_keeps_dates_list_sorted() {
    let room = room_with_slots(
        "King Study Room 204 - 4 Person",
        &["201605080930", "201605080800", "201605080830", "201605080800"],
    );
    let date = Date { year: 2016, month: 5, day: 8 };
    let slots = room.slots_for(&date).unwrap();
    let starts: Vec<u32> = slots.iter().map(|s| s.start.as_minutes()).collect();
    let mut sorted = starts.clone();
    sorted.sort();
    assert_eq!(starts, sorted);
    assert_eq!(slots.len(), 4);
}

#[test]
fn test_add_slot_ignores_malformed_reference() {
    let mut room = KingStudyRoom::from_str("King Study Room 204 - 4 Person").unwrap();
    room.add_slot("20160599083000");
    room.add_slot("junk");
    let date = Date { year: 2016, month: 5, day: 8 };
    assert!(room.slots_for(&date).is_none());
    assert_eq!(room.find_available_ranges(30), vec![]);
}

#[test]
fn test_schedule_point_query_keeps_room_order() {
    let first = room_with_slots("King Study Room 204 - 4 Person", &["201605081630"]);
    let second = room_with_slots("King Study Room 205 - 8 Person", &["201605081700"]);
    let third = room_with_slots("King Study Room 206 - 2 Person", &["201605081630"]);
    let schedule = Schedule::from_rooms(vec![first, second, third]);
    let date = Date { year: 2016, month: 5, day: 8 };
    let free = schedule.all_available_at_datetime(&date, &Time { hour: 16, minute: 30 });
    let numbers: Vec<u16> = free.iter().map(|room| room.room_number).collect();
    assert_eq!(numbers, vec![204, 206]);
}

#[test]
fn test_schedule_range_query_reports_each_room() {
    let first = room_with_slots(
        "King Study Room 204 - 4 Person",
        &["201605080800", "201605080830"],
    );
    let second = room_with_slots("King Study Room 205 - 8 Person", &["201605080930"]);
    let schedule = Schedule::from_rooms(vec![first, second]);
    let results = schedule.find_available_ranges(60);
    assert_eq!(results.len(), 2);
    assert_eq!(results[0].0, 204);
    assert_eq!(results[0].1, vec![range(8, 0, 9, 0)]);
    assert_eq!(results[1].0, 205);
    // The lone slot is still open when its date's list ends, so it is
    // emitted by the trailing rule despite being under the threshold.
    assert_eq!(results[1].1, vec![range(9, 30, 10, 0)]);
}
