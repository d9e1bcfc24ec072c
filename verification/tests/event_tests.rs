use eventcast::event::{Attr, Event, EventList, parse_u64};

fn record(fields: &[(&str, Attr)]) -> Vec<(String, Attr)> {
    fields.iter().map(|(k, v)| (k.to_string(), clone_attr(v))).collect()
}

fn clone_attr(a: &Attr) -> Attr {
    match a {
        Attr::S(s) => Attr::S(s.clone()),
        Attr::N(s) => Attr::N(s.clone()),
        Attr::Other => Attr::Other,
    }
}

fn full_record() -> Vec<(String, Attr)> {
    record(&[
        ("id", Attr::S("abc".to_string())),
        ("title", Attr::S("Lab".to_string())),
        ("description", Attr::S("Weekly sync".to_string())),
        ("datetime", Attr::S("2030-01-01 10:00".to_string())),
        ("timestamp", Attr::N("1893492000".to_string())),
        ("building", Attr::S("F3".to_string())),
        ("room", Attr::S("P3".to_string())),
    ])
}

#[test]
fn parse_u64_reads_decimal_text() {
    assert_eq!(parse_u64("0"), Some(0));
    assert_eq!(parse_u64("1893492000"), Some(1893492000));
    assert_eq!(parse_u64("18446744073709551615"), Some(u64::MAX));
}

#[test]
fn parse_u64_rejects_anything_else() {
    assert_eq!(parse_u64(""), None);
    assert_eq!(parse_u64("12a"), None);
    assert_eq!(parse_u64("+5"), None);
    assert_eq!(parse_u64("-5"), None);
    assert_eq!(parse_u64("18446744073709551616"), None);
}

#[test]
fn from_hashmap_decodes_a_full_record() {
    let ev = Event::from_hashmap(&full_record()).unwrap();
    assert_eq!(ev.id, "abc");
    assert_eq!(ev.title, "Lab");
    assert_eq!(ev.description, "Weekly sync");
    assert_eq!(ev.datetime, "2030-01-01 10:00");
    assert_eq!(ev.timestamp, 1893492000);
    assert_eq!(ev.building, "F3");
    assert_eq!(ev.room, "P3");
}

#[test]
fn from_hashmap_rejects_missing_or_malformed_fields() {
    let mut missing = full_record();
    missing.retain(|(k, _)| k != "room");
    assert!(Event::from_hashmap(&missing).is_none());

    let mut wrong_shape = full_record();
    for f in wrong_shape.iter_mut() {
        if f.0 == "timestamp" {
            f.1 = Attr::S("1893492000".to_string());
        }
    }
    assert!(Event::from_hashmap(&wrong_shape).is_none());

    let mut bad_number = full_record();
    for f in bad_number.iter_mut() {
        if f.0 == "timestamp" {
            f.1 = Attr::N("-12".to_string());
        }
    }
    assert!(Event::from_hashmap(&bad_number).is_none());
}

fn event(id: &str, building: &str, room: &str, ts: u64) -> Event {
    Event {
        id: id.to_string(),
        title: format!("event {}", id),
        description: String::new(),
        timestamp: ts,
        datetime: String::new(),
        building: building.to_string(),
        room: room.to_string(),
    }
}

#[test]
fn get_future_events_keeps_strictly_later_ones() {
    let list = EventList::new(vec![
        event("a", "F3", "P3", 100),
        event("b", "F3", "P5", 10),
        event("c", "F9", "P1", 11),
    ]);
    let future = list.get_future_events(10);
    let ids: Vec<&str> = future.iter().map(|e| e.id.as_str()).collect();
    assert_eq!(ids, vec!["a", "c"]);
}

#[test]
fn get_future_events_drops_events_at_now() {
    let list = EventList::new(vec![event("a", "F3", "P3", 10)]);
    assert!(list.get_future_events(10).is_empty());
    assert_eq!(list.get_future_events(9).len(), 1);
}
