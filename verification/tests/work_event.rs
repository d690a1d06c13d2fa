use chrono::{NaiveDate, NaiveDateTime};
use session_auth::work_event::{CreateWorkEvent, DeleteEvents, RawWorkEvent, WorkEvent};

fn at(day: u32, hour: u32) -> NaiveDateTime {
    NaiveDate::from_ymd_opt(2018, 6, day).unwrap().and_hms_opt(hour, 30, 0).unwrap()
}

#[test]
fn into_work_event_takes_span_record_and_time() {
    let asked = CreateWorkEvent { record_id: 1, start_time: at(1, 9), end_time: at(1, 17) };
    let now = at(2, 8);
    let event: WorkEvent = asked.into_work_event(5, &now);
    assert_eq!(event.record_id, 5);
    assert_eq!(event.start_time, at(1, 9));
    assert_eq!(event.end_time, at(1, 17));
    assert_eq!(event.create_time, now);
    assert_eq!(event.update_time, now);
}

#[test]
fn into_work_event_leaves_the_request_as_it_is() {
    let asked = CreateWorkEvent { record_id: -3, start_time: at(3, 1), end_time: at(3, 0) };
    let first = asked.into_work_event(i32::MAX, &at(4, 0));
    let second = asked.into_work_event(i32::MIN, &at(5, 0));
    assert_eq!(asked.record_id, -3);
    assert_eq!(first.record_id, i32::MAX);
    assert_eq!(second.record_id, i32::MIN);
    assert_eq!(first.start_time, second.start_time);
    assert_eq!(first.end_time, at(3, 0));
    assert_ne!(first.create_time, second.create_time);
}

#[test]
fn work_event_types_are_plain_values() {
    let raw = RawWorkEvent { id: 1, record_id: 2, start_time: at(1, 1), end_time: at(1, 2) };
    let copy = raw;
    assert_eq!(raw.id, copy.id);
    assert_eq!(format!("{:?}", DeleteEvents), "DeleteEvents");
}
