use eventcast::event::EventList;
use eventcast::gateway::{GatewayStep, command_response, gateway_step, unauthorized_response};
use eventcast::json::Json;

fn obj(fields: Vec<(&str, Json)>) -> Json {
    Json::Obj(fields.into_iter().map(|(k, v)| (k.to_string(), v)).collect())
}

fn s(text: &str) -> Json {
    Json::Str(text.to_string())
}

fn field(custom_id: &str, value: Option<&str>) -> Json {
    let mut members = vec![("type", Json::UInt(4)), ("custom_id", s(custom_id))];
    if let Some(v) = value {
        members.push(("value", s(v)));
    }
    obj(members)
}

fn row(fields: Vec<Json>) -> Json {
    obj(vec![("type", Json::UInt(1)), ("components", Json::Arr(fields))])
}

fn modal_payload(modal_id: &str, rows: Vec<Json>) -> Json {
    obj(vec![
        ("type", Json::UInt(5)),
        ("data", obj(vec![("custom_id", s(modal_id)), ("components", Json::Arr(rows))])),
    ])
}

fn submission(title: &str, description: &str, datetime: &str, room: &str) -> Json {
    modal_payload(
        "event_info",
        vec![
            row(vec![field("title", Some(title))]),
            row(vec![field("description", Some(description))]),
            row(vec![field("datetime", Some(datetime))]),
            row(vec![field("room", Some(room))]),
        ],
    )
}

#[test]
fn ping_is_acknowledged_without_store_access() {
    let step = gateway_step(&obj(vec![("type", Json::UInt(1))]));
    match step {
        GatewayStep::Respond(resp) => {
            assert_eq!(resp.status, 200);
            assert_eq!(resp.body, obj(vec![("type", Json::UInt(1))]));
        },
        _ => panic!("a handshake must only be answered"),
    }
}

#[test]
fn command_asks_for_the_registry() {
    let step = gateway_step(&obj(vec![("type", Json::UInt(2))]));
    assert!(matches!(step, GatewayStep::FetchOptions));
}

#[test]
fn command_response_holds_one_option_per_pair() {
    let pairs = vec![("F3".to_string(), "P3".to_string())];
    let resp = command_response(&pairs);
    assert_eq!(resp.status, 200);
    let expected_option = obj(vec![("label", s("F3 - P3")), ("value", s("F3 - P3"))]);
    let expected = obj(vec![
        ("type", Json::UInt(4)),
        (
            "data",
            obj(vec![
                (
                    "content",
                    s("Seleziona la stanza dove si terr\u{00e0} l'evento per procedere alla compilazione delle informazioni necessarie."),
                ),
                (
                    "components",
                    Json::Arr(vec![obj(vec![
                        ("type", Json::UInt(1)),
                        (
                            "components",
                            Json::Arr(vec![obj(vec![
                                ("type", Json::UInt(3)),
                                ("custom_id", s("selected_room")),
                                ("options", Json::Arr(vec![expected_option])),
                            ])]),
                        ),
                    ])]),
                ),
            ]),
        ),
    ]);
    assert_eq!(resp.body, expected);
}

#[test]
fn component_selection_opens_the_prefilled_modal() {
    let payload = obj(vec![
        ("type", Json::UInt(3)),
        (
            "data",
            obj(vec![
                ("custom_id", s("selected_room")),
                ("values", Json::Arr(vec![s("F3 - P3")])),
            ]),
        ),
    ]);
    match gateway_step(&payload) {
        GatewayStep::Respond(resp) => {
            assert_eq!(resp.status, 200);
            let expected = obj(vec![
                ("type", Json::UInt(9)),
                (
                    "data",
                    obj(vec![
                        ("custom_id", s("event_info")),
                        ("title", s("test")),
                        (
                            "components",
                            Json::Arr(vec![
                                row(vec![obj(vec![
                                    ("type", Json::UInt(4)),
                                    ("custom_id", s("title")),
                                    ("label", s("Titolo")),
                                    ("style", Json::UInt(1)),
                                ])]),
                                row(vec![obj(vec![
                                    ("type", Json::UInt(4)),
                                    ("custom_id", s("description")),
                                    ("label", s("Descrizione")),
                                    ("style", Json::UInt(2)),
                                ])]),
                                row(vec![obj(vec![
                                    ("type", Json::UInt(4)),
                                    ("custom_id", s("datetime")),
                                    ("label", s("Data e ora (Formato: YYYY-MM-DD HH:mm)")),
                                    ("style", Json::UInt(1)),
                                ])]),
                                row(vec![obj(vec![
                                    ("type", Json::UInt(4)),
                                    ("custom_id", s("room")),
                                    ("label", s("Stanza")),
                                    ("style", Json::UInt(1)),
                                    ("value", s("F3 - P3")),
                                ])]),
                            ]),
                        ),
                    ]),
                ),
            ]);
            assert_eq!(resp.body, expected);
        },
        _ => panic!("a selection must open the modal"),
    }
}

#[test]
fn component_with_wrong_custom_id_is_a_bad_request() {
    let payload = obj(vec![
        ("type", Json::UInt(3)),
        (
            "data",
            obj(vec![("custom_id", s("other")), ("values", Json::Arr(vec![s("F3 - P3")]))]),
        ),
    ]);
    match gateway_step(&payload) {
        GatewayStep::Respond(resp) => {
            assert_eq!(resp.status, 400);
            assert_eq!(resp.body, Json::Obj(vec![]));
        },
        _ => panic!("a malformed selection earns a bad request"),
    }
}

#[test]
fn component_with_empty_values_is_a_bad_request() {
    let payload = obj(vec![
        ("type", Json::UInt(3)),
        ("data", obj(vec![("custom_id", s("selected_room")), ("values", Json::Arr(vec![]))])),
    ]);
    match gateway_step(&payload) {
        GatewayStep::Respond(resp) => assert_eq!(resp.status, 400),
        _ => panic!("a malformed selection earns a bad request"),
    }
}

#[test]
fn valid_submission_persists_the_decoded_event() {
    let payload = submission("Lab", "Weekly sync", "2030-01-01 10:00", "F3 - P3");
    match gateway_step(&payload) {
        GatewayStep::Persist(ev, resp) => {
            assert_eq!(ev.title, "Lab");
            assert_eq!(ev.description, "Weekly sync");
            assert_eq!(ev.datetime, "2030-01-01 10:00");
            assert_eq!(ev.timestamp, 1893492000);
            assert_eq!(ev.building, "F3");
            assert_eq!(ev.room, "P3");
            assert_eq!(ev.id.chars().count(), 36);
            assert_eq!(resp.status, 200);
            let expected = obj(vec![
                ("type", Json::UInt(4)),
                ("data", obj(vec![("content", s("Evento salvato correttamente."))])),
            ]);
            assert_eq!(resp.body, expected);
        },
        _ => panic!("a valid submission must be persisted"),
    }
}

#[test]
fn persisted_timestamp_matches_chrono_parse() {
    let payload = submission("Lab", "x", "1999-12-31 23:59", "F3 - P3");
    let expected = chrono::NaiveDateTime::parse_from_str("1999-12-31 23:59", "%Y-%m-%d %H:%M")
        .unwrap()
        .and_utc()
        .timestamp() as u64;
    match gateway_step(&payload) {
        GatewayStep::Persist(ev, _) => assert_eq!(ev.timestamp, expected),
        _ => panic!("a valid submission must be persisted"),
    }
}

#[test]
fn unsplittable_room_label_is_rejected_without_persisting() {
    for room in ["F3P3", "A - B - C", "F3-P3"] {
        let payload = submission("Lab", "Weekly sync", "2030-01-01 10:00", room);
        match gateway_step(&payload) {
            GatewayStep::Respond(resp) => {
                assert_eq!(resp.status, 200);
                let expected = obj(vec![
                    ("type", Json::UInt(4)),
                    ("data", obj(vec![("content", s("Qualcosa \u{00e8} andato storto!"))])),
                ]);
                assert_eq!(resp.body, expected);
            },
            _ => panic!("an unsplittable room label must not be persisted"),
        }
    }
}

#[test]
fn wrong_modal_kind_is_a_visible_failure() {
    let payload = modal_payload("other_modal", vec![row(vec![field("title", Some("Lab"))])]);
    match gateway_step(&payload) {
        GatewayStep::Respond(resp) => assert_eq!(resp.status, 200),
        _ => panic!("a wrong modal kind earns a failure message"),
    }
}

#[test]
fn incomplete_submission_is_a_visible_failure() {
    let payload = modal_payload(
        "event_info",
        vec![
            row(vec![field("title", Some("Lab"))]),
            row(vec![field("description", Some("x"))]),
            row(vec![field("datetime", Some("2030-01-01 10:00"))]),
        ],
    );
    match gateway_step(&payload) {
        GatewayStep::Respond(resp) => assert_eq!(resp.status, 200),
        _ => panic!("an incomplete submission earns a failure message"),
    }
}

#[test]
fn unparseable_datetime_fails_the_invocation() {
    let payload = submission("Lab", "x", "not a date", "F3 - P3");
    assert!(matches!(gateway_step(&payload), GatewayStep::Fatal));
}

#[test]
fn datetime_is_checked_before_the_room_label() {
    let payload = submission("Lab", "x", "not a date", "F3P3");
    assert!(matches!(gateway_step(&payload), GatewayStep::Fatal));
}

#[test]
fn unknown_or_missing_type_tag_is_a_bad_request() {
    for payload in [
        obj(vec![("type", Json::UInt(99))]),
        obj(vec![("type", s("1"))]),
        obj(vec![]),
        Json::Arr(vec![]),
    ] {
        match gateway_step(&payload) {
            GatewayStep::Respond(resp) => {
                assert_eq!(resp.status, 400);
                assert_eq!(resp.body, Json::Obj(vec![]));
            },
            _ => panic!("an unclassifiable payload earns a bad request"),
        }
    }
}

#[test]
fn malformed_modal_shape_is_a_bad_request() {
    let no_components = obj(vec![
        ("type", Json::UInt(5)),
        ("data", obj(vec![("custom_id", s("event_info"))])),
    ]);
    let field_without_type = modal_payload(
        "event_info",
        vec![row(vec![obj(vec![("custom_id", s("title")), ("value", s("Lab"))])])],
    );
    for payload in [no_components, field_without_type] {
        match gateway_step(&payload) {
            GatewayStep::Respond(resp) => assert_eq!(resp.status, 400),
            _ => panic!("a malformed submission earns a bad request"),
        }
    }
}

#[test]
fn unauthorized_response_is_a_401() {
    let resp = unauthorized_response();
    assert_eq!(resp.status, 401);
    assert_eq!(resp.body, Json::Obj(vec![]));
}

#[test]
fn submitted_event_is_published_on_both_topics() {
    let payload = submission("Lab", "Weekly sync", "2030-01-01 10:00", "F3 - P3");
    let ev = match gateway_step(&payload) {
        GatewayStep::Persist(ev, _) => ev,
        _ => panic!("a valid submission must be persisted"),
    };
    let list = EventList::new(vec![ev]);
    let now = 1700000000;
    assert!(now < 1893492000);

    let buildings = list.building_publications(now);
    assert_eq!(buildings.len(), 1);
    assert_eq!(buildings[0].topic, "F3");
    assert_eq!(buildings[0].encoded_topic, "F3");
    assert_eq!(buildings[0].events.len(), 1);
    assert_eq!(buildings[0].events[0].timestamp, 1893492000);

    let rooms = list.room_publications(now);
    assert_eq!(rooms.len(), 1);
    assert_eq!(rooms[0].topic, "F3/P3");
    assert_eq!(rooms[0].encoded_topic, "F3%2FP3");
    assert_eq!(rooms[0].events.len(), 1);
    assert_eq!(rooms[0].events[0].building, "F3");
    assert_eq!(rooms[0].events[0].room, "P3");
}

#[test]
fn empty_string_fields_are_accepted_values() {
    let payload = submission("", "", "2030-01-01 10:00", "F3 - P3");
    match gateway_step(&payload) {
        GatewayStep::Persist(ev, _) => {
            assert_eq!(ev.title, "");
            assert_eq!(ev.description, "");
        },
        _ => panic!("an empty string is a returned value, not a missing field"),
    }
}
