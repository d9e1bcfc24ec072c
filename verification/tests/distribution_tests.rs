use eventcast::distribution::sort_events_by_timestamp;
use eventcast::event::{Event, EventList};

fn event(id: &str, building: &str, room: &str, ts: u64) -> Event {
    Event {
        id: id.to_string(),
        title: format!("event {}", id),
        description: String::new(),
        timestamp: ts,
        datetime: String::new(),
        building: building.to_string(),
        room: room.to_string(),
    }
}

fn sample() -> EventList {
    EventList::new(vec![
        event("a", "F3", "P3", 100),
        event("b", "F3", "P5", 50),
        event("c", "F9", "P1", 200),
        event("d", "F3", "P3", 5),
        event("e", "F3", "P3", 100),
    ])
}

#[test]
fn sort_orders_by_timestamp() {
    let sorted = sort_events_by_timestamp(vec![
        event("a", "F3", "P3", 100),
        event("b", "F3", "P3", 50),
        event("c", "F3", "P3", 75),
    ]);
    let ts: Vec<u64> = sorted.iter().map(|e| e.timestamp).collect();
    assert_eq!(ts, vec![50, 75, 100]);
}

#[test]
fn past_events_are_excluded_from_every_group() {
    let list = sample();
    for p in list.building_publications(10) {
        for e in &p.events {
            assert!(e.timestamp > 10);
            assert_ne!(e.id, "d");
        }
    }
    for p in list.room_publications(10) {
        for e in &p.events {
            assert!(e.timestamp > 10);
            assert_ne!(e.id, "d");
        }
    }
}

#[test]
fn future_events_fall_in_exactly_one_building_group() {
    let list = sample();
    let pubs = list.building_publications(10);
    let topics: Vec<&str> = pubs.iter().map(|p| p.topic.as_str()).collect();
    assert_eq!(topics.len(), 2);
    assert!(topics.contains(&"F3"));
    assert!(topics.contains(&"F9"));
    for id in ["a", "b", "c", "e"] {
        let holding: Vec<&str> = pubs
            .iter()
            .filter(|p| p.events.iter().any(|e| e.id == id))
            .map(|p| p.topic.as_str())
            .collect();
        assert_eq!(holding.len(), 1, "event {} must sit in exactly one group", id);
    }
}

#[test]
fn future_events_fall_in_exactly_one_room_group() {
    let list = sample();
    let pubs = list.room_publications(10);
    let topics: Vec<&str> = pubs.iter().map(|p| p.topic.as_str()).collect();
    assert_eq!(topics.len(), 3);
    assert!(topics.contains(&"F3/P3"));
    assert!(topics.contains(&"F3/P5"));
    assert!(topics.contains(&"F9/P1"));
    for id in ["a", "b", "c", "e"] {
        let holding: Vec<&str> = pubs
            .iter()
            .filter(|p| p.events.iter().any(|e| e.id == id))
            .map(|p| p.topic.as_str())
            .collect();
        assert_eq!(holding.len(), 1, "event {} must sit in exactly one group", id);
    }
}

#[test]
fn group_timestamps_never_decrease() {
    let list = sample();
    for p in list.building_publications(0).into_iter().chain(list.room_publications(0)) {
        for w in p.events.windows(2) {
            assert!(w[0].timestamp <= w[1].timestamp);
        }
    }
}

#[test]
fn topics_are_urlencoded_as_a_whole() {
    let list = EventList::new(vec![event("a", "Main Hall", "R/2", 100)]);
    let buildings = list.building_publications(10);
    assert_eq!(buildings[0].topic, "Main Hall");
    assert_eq!(buildings[0].encoded_topic, "Main+Hall");
    let rooms = list.room_publications(10);
    assert_eq!(rooms[0].topic, "Main Hall/R/2");
    assert_eq!(rooms[0].encoded_topic, "Main+Hall%2FR%2F2");
}

#[test]
fn empty_store_publishes_nothing() {
    let list = EventList::new(vec![]);
    assert!(list.building_publications(0).is_empty());
    assert!(list.room_publications(0).is_empty());
}

#[test]
fn sort_keeps_all_events_with_equal_timestamps() {
    let sorted = sort_events_by_timestamp(vec![
        event("a", "F3", "P3", 50),
        event("b", "F3", "P3", 50),
        event("c", "F3", "P3", 20),
    ]);
    assert_eq!(sorted.len(), 3);
    assert_eq!(sorted[0].timestamp, 20);
    assert_eq!(sorted[1].timestamp, 50);
    assert_eq!(sorted[2].timestamp, 50);
    let mut ids: Vec<&str> = sorted.iter().map(|e| e.id.as_str()).collect();
    ids.sort();
    assert_eq!(ids, vec!["a", "b", "c"]);
}
