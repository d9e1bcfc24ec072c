//! The interaction gateway's state machine: classifies one inbound
//! webhook payload by its integer type tag and yields either the
//! chat-formatted response to send, the request to fetch the device
//! registry, or the event to persist. The machine keeps no state of its
//! own between calls; everything is re-derived from the payload.

use vstd::prelude::*;
use vstd::string::StringExecFns;
use crate::event::Event;
use crate::json::{Json, spec_field, obj_get};
use crate::location::{location_label, room_label_parts, split_room_label};
use crate::modal::{
    ModalParse, parse_modal_event, spec_collected, spec_modal_custom_id, fields_complete,
};

verus! {

/// One HTTP response: a status code and a JSON body.
pub struct ApiResponse {
    pub status: u16,
    pub body: Json,
}

/// What the gateway asks its caller to do for one payload.
pub enum GatewayStep {
    /// Answer with this response and do nothing else.
    Respond(ApiResponse),
    /// Fetch the device registry, then answer with `command_response`
    /// built over the fetched pairs.
    FetchOptions,
    /// Persist this event; when the write succeeds, answer with the
    /// attached response, else fail the invocation.
    Persist(Event, ApiResponse),
    /// Fail this invocation: a dependency did not hold up its end.
    Fatal,
}

/// The epoch seconds that the fixed-format date-time text denotes, when
/// it parses.
pub uninterp spec fn datetime_epoch(s: Seq<char>) -> Option<i64>;

/// Relies on chrono: NaiveDateTime::parse_from_str with format
/// `%Y-%m-%d %H:%M`, then and_utc().timestamp(). The outcome is a
/// deterministic function of the characters of the input alone.
#[verifier::external_body]
fn parse_datetime_epoch(s: &str) -> (r: Option<i64>)
    ensures
        r == datetime_epoch(s@),
{
    match chrono::NaiveDateTime::parse_from_str(s, "%Y-%m-%d %H:%M") {
        Ok(dt) => Some(dt.and_utc().timestamp()),
        Err(_) => None,
    }
}

/// Relies on uuid::Uuid::new_v4 and its Display form: a fresh random
/// identifier, rendered in the 36-character hyphenated form.
#[verifier::external_body]
fn fresh_event_id() -> (r: String)
    ensures
        r@.len() == 36,
{
    uuid::Uuid::new_v4().to_string()
}

/// The payload's integer type tag, when it carries one.
pub open spec fn spec_type_tag(payload: Json) -> Option<u64> {
    match spec_field(payload, "type"@) {
        Some(Json::UInt(t)) => Some(t),
        _ => None,
    }
}

/// The room label selected in a component interaction, when the payload
/// has the expected shape: a data object whose custom id is
/// `selected_room` and whose `values` array starts with a string.
pub open spec fn spec_selected_room(payload: Json) -> Option<Seq<char>> {
    match spec_field(payload, "data"@) {
        None => None,
        Some(d) => match spec_field(d, "custom_id"@) {
            Some(Json::Str(c)) => if c@ == "selected_room"@ {
                match spec_field(d, "values"@) {
                    Some(Json::Arr(items)) => if items@.len() > 0 {
                        match items@[0] {
                            Json::Str(v) => Some(v@),
                            _ => None,
                        }
                    } else {
                        None
                    },
                    _ => None,
                }
            } else {
                None
            },
            _ => None,
        },
    }
}

/// An object with no members.
pub open spec fn is_empty_obj(j: Json) -> bool {
    j matches Json::Obj(fs) && fs@.len() == 0
}

/// The handshake acknowledgement body.
pub open spec fn is_pong_body(j: Json) -> bool {
    j matches Json::Obj(fs) && fs@.len() == 1 && fs@[0].0@ == "type"@ && fs@[0].1 == Json::UInt(1)
}

/// A chat message body: interaction response type 4 with this content.
pub open spec fn is_content_body(j: Json, content: Seq<char>) -> bool {
    j matches Json::Obj(fs) && fs@.len() == 2 && fs@[0].0@ == "type"@ && fs@[0].1 == Json::UInt(4)
        && fs@[1].0@ == "data"@ && (fs@[1].1 matches Json::Obj(ds) && ds@.len() == 1
        && ds@[0].0@ == "content"@ && (ds@[0].1 matches Json::Str(s) && s@ == content))
}

/// The generic bad-request outcome: status 400 with an empty body.
pub open spec fn is_bad_request(r: GatewayStep) -> bool {
    r matches GatewayStep::Respond(a) && a.status == 400 && is_empty_obj(a.body)
}

/// A user-facing validation failure: the chat protocol expects a 200
/// carrying a visible failure message.
pub open spec fn is_validation_failure(r: GatewayStep) -> bool {
    r matches GatewayStep::Respond(a) && a.status == 200 && is_content_body(
        a.body,
        "Qualcosa \u{00e8} andato storto!"@,
    )
}

/// One dropdown option: label and value both set to the same string.
pub open spec fn is_option_entry(j: Json, label: Seq<char>) -> bool {
    j matches Json::Obj(fs) && fs@.len() == 2 && fs@[0].0@ == "label"@ && (fs@[0].1
        matches Json::Str(a) && a@ == label) && fs@[1].0@ == "value"@ && (fs@[1].1
        matches Json::Str(b) && b@ == label)
}

/// The single-select component holding all the location options.
pub open spec fn is_select_menu(j: Json, labels: Seq<Seq<char>>) -> bool {
    j matches Json::Obj(fs) && fs@.len() == 3 && fs@[0].0@ == "type"@ && fs@[0].1 == Json::UInt(3)
        && fs@[1].0@ == "custom_id"@ && (fs@[1].1 matches Json::Str(c) && c@ == "selected_room"@)
        && fs@[2].0@ == "options"@ && (fs@[2].1 matches Json::Arr(os) && os@.len() == labels.len()
        && forall|k: int| 0 <= k < labels.len() ==> is_option_entry(#[trigger] os@[k], labels[k]))
}

/// The command response body: a message whose single component row
/// holds the room select menu.
pub open spec fn is_room_select_body(j: Json, labels: Seq<Seq<char>>) -> bool {
    j matches Json::Obj(fs) && fs@.len() == 2 && fs@[0].0@ == "type"@ && fs@[0].1 == Json::UInt(4)
        && fs@[1].0@ == "data"@ && (fs@[1].1 matches Json::Obj(ds) && ds@.len() == 2
        && ds@[0].0@ == "content"@ && (ds@[0].1 matches Json::Str(c) && c@
        == "Seleziona la stanza dove si terr\u{00e0} l'evento per procedere alla compilazione delle informazioni necessarie."@)
        && ds@[1].0@ == "components"@ && (ds@[1].1 matches Json::Arr(rows) && rows@.len() == 1 && (
        rows@[0] matches Json::Obj(rf) && rf@.len() == 2 && rf@[0].0@ == "type"@ && rf@[0].1
            == Json::UInt(1) && rf@[1].0@ == "components"@ && (rf@[1].1 matches Json::Arr(cs)
            && cs@.len() == 1 && is_select_menu(cs@[0], labels)))))
}

/// One short text input field of the modal, without a pre-filled value.
pub open spec fn is_text_field(j: Json, cid: Seq<char>, label: Seq<char>, style: u64) -> bool {
    j matches Json::Obj(fs) && fs@.len() == 4 && fs@[0].0@ == "type"@ && fs@[0].1 == Json::UInt(4)
        && fs@[1].0@ == "custom_id"@ && (fs@[1].1 matches Json::Str(c) && c@ == cid)
        && fs@[2].0@ == "label"@ && (fs@[2].1 matches Json::Str(l) && l@ == label)
        && fs@[3].0@ == "style"@ && fs@[3].1 == Json::UInt(style)
}

/// One text input field carrying a pre-filled value.
pub open spec fn is_prefilled_field(
    j: Json,
    cid: Seq<char>,
    label: Seq<char>,
    style: u64,
    value: Seq<char>,
) -> bool {
    j matches Json::Obj(fs) && fs@.len() == 5 && fs@[0].0@ == "type"@ && fs@[0].1 == Json::UInt(4)
        && fs@[1].0@ == "custom_id"@ && (fs@[1].1 matches Json::Str(c) && c@ == cid)
        && fs@[2].0@ == "label"@ && (fs@[2].1 matches Json::Str(l) && l@ == label)
        && fs@[3].0@ == "style"@ && fs@[3].1 == Json::UInt(style) && fs@[4].0@ == "value"@ && (
    fs@[4].1 matches Json::Str(v) && v@ == value)
}

/// One action row holding a single field.
pub open spec fn is_field_row(j: Json, field: Json) -> bool {
    j matches Json::Obj(fs) && fs@.len() == 2 && fs@[0].0@ == "type"@ && fs@[0].1 == Json::UInt(1)
        && fs@[1].0@ == "components"@ && (fs@[1].1 matches Json::Arr(cs) && cs@.len() == 1
        && cs@[0] == field)
}

/// The modal opened after a room was selected: four fields, the last
/// pre-filled with the selected room label and still editable.
pub open spec fn is_modal_body(j: Json, room: Seq<char>) -> bool {
    j matches Json::Obj(fs) && fs@.len() == 2 && fs@[0].0@ == "type"@ && fs@[0].1 == Json::UInt(9)
        && fs@[1].0@ == "data"@ && (fs@[1].1 matches Json::Obj(ds) && ds@.len() == 3
        && ds@[0].0@ == "custom_id"@ && (ds@[0].1 matches Json::Str(c) && c@ == "event_info"@)
        && ds@[1].0@ == "title"@ && (ds@[1].1 matches Json::Str(t) && t@ == "test"@)
        && ds@[2].0@ == "components"@ && (ds@[2].1 matches Json::Arr(rows) && rows@.len() == 4 && (
    exists|f: Json| is_field_row(#[trigger] rows@[0], f) && is_text_field(f, "title"@, "Titolo"@, 1)) && (
    exists|f: Json| is_field_row(#[trigger] rows@[1], f) && is_text_field(f, "description"@, "Descrizione"@, 2)) && (
    exists|f: Json| is_field_row(#[trigger] rows@[2], f) && is_text_field(
        f,
        "datetime"@,
        "Data e ora (Formato: YYYY-MM-DD HH:mm)"@,
        1,
    )) && (exists|f: Json| is_field_row(#[trigger] rows@[3], f) && is_prefilled_field(
        f,
        "room"@,
        "Stanza"@,
        1,
        room,
    ))))
}

/// What the gateway does with a modal submission: a malformed payload
/// is refused outright; a wrong modal kind, a missing field or an
/// unsplittable room label each earn the user-facing failure message; a
/// date-time that does not parse, or one before the epoch, fails the
/// invocation; otherwise the decoded event is handed over for
/// persistence together with the success message.
pub open spec fn spec_submit_step(payload: Json, r: GatewayStep) -> bool {
    match spec_collected(payload) {
        None => is_bad_request(r),
        Some(acc) => if spec_modal_custom_id(payload) != Some("event_info"@) {
            is_validation_failure(r)
        } else if !fields_complete(acc) {
            is_validation_failure(r)
        } else {
            match datetime_epoch(acc.datetime->0) {
                None => r is Fatal,
                Some(t) => if t < 0 {
                    r is Fatal
                } else {
                    match room_label_parts(acc.room->0) {
                        None => is_validation_failure(r),
                        Some(parts) => r matches GatewayStep::Persist(e, a) && e.title@
                            == acc.title->0 && e.description@ == acc.description->0 && e.datetime@
                            == acc.datetime->0 && e.timestamp as int == t as int && e.building@
                            == parts.0 && e.room@ == parts.1 && e.id@.len() == 36 && a.status
                            == 200 && is_content_body(a.body, "Evento salvato correttamente."@),
                    }
                },
            }
        },
    }
}

fn jstr(s: &str) -> (r: Json)
    ensures
        r matches Json::Str(v) && v@ == s@,
{
    Json::Str(String::from_str(s))
}

fn obj0() -> (r: Json)
    ensures
        r matches Json::Obj(fs) && fs@.len() == 0,
{
    let fields: Vec<(String, Json)> = Vec::new();
    Json::Obj(fields)
}

fn obj1(k1: &str, v1: Json) -> (r: Json)
    ensures
        r matches Json::Obj(fs) && fs@.len() == 1 && fs@[0].0@ == k1@ && fs@[0].1 == v1,
{
    let mut fields: Vec<(String, Json)> = Vec::new();
    fields.push((String::from_str(k1), v1));
    Json::Obj(fields)
}

fn obj2(k1: &str, v1: Json, k2: &str, v2: Json) -> (r: Json)
    ensures
        r matches Json::Obj(fs) && fs@.len() == 2 && fs@[0].0@ == k1@ && fs@[0].1 == v1
            && fs@[1].0@ == k2@ && fs@[1].1 == v2,
{
    let mut fields: Vec<(String, Json)> = Vec::new();
    fields.push((String::from_str(k1), v1));
    fields.push((String::from_str(k2), v2));
    Json::Obj(fields)
}

fn obj3(k1: &str, v1: Json, k2: &str, v2: Json, k3: &str, v3: Json) -> (r: Json)
    ensures
        r matches Json::Obj(fs) && fs@.len() == 3 && fs@[0].0@ == k1@ && fs@[0].1 == v1
            && fs@[1].0@ == k2@ && fs@[1].1 == v2 && fs@[2].0@ == k3@ && fs@[2].1 == v3,
{
    let mut fields: Vec<(String, Json)> = Vec::new();
    fields.push((String::from_str(k1), v1));
    fields.push((String::from_str(k2), v2));
    fields.push((String::from_str(k3), v3));
    Json::Obj(fields)
}

fn obj4(k1: &str, v1: Json, k2: &str, v2: Json, k3: &str, v3: Json, k4: &str, v4: Json) -> (r:
    Json)
    ensures
        r matches Json::Obj(fs) && fs@.len() == 4 && fs@[0].0@ == k1@ && fs@[0].1 == v1
            && fs@[1].0@ == k2@ && fs@[1].1 == v2 && fs@[2].0@ == k3@ && fs@[2].1 == v3
            && fs@[3].0@ == k4@ && fs@[3].1 == v4,
{
    let mut fields: Vec<(String, Json)> = Vec::new();
    fields.push((String::from_str(k1), v1));
    fields.push((String::from_str(k2), v2));
    fields.push((String::from_str(k3), v3));
    fields.push((String::from_str(k4), v4));
    Json::Obj(fields)
}

fn obj5(
    k1: &str,
    v1: Json,
    k2: &str,
    v2: Json,
    k3: &str,
    v3: Json,
    k4: &str,
    v4: Json,
    k5: &str,
    v5: Json,
) -> (r: Json)
    ensures
        r matches Json::Obj(fs) && fs@.len() == 5 && fs@[0].0@ == k1@ && fs@[0].1 == v1
            && fs@[1].0@ == k2@ && fs@[1].1 == v2 && fs@[2].0@ == k3@ && fs@[2].1 == v3
            && fs@[3].0@ == k4@ && fs@[3].1 == v4 && fs@[4].0@ == k5@ && fs@[4].1 == v5,
{
    let mut fields: Vec<(String, Json)> = Vec::new();
    fields.push((String::from_str(k1), v1));
    fields.push((String::from_str(k2), v2));
    fields.push((String::from_str(k3), v3));
    fields.push((String::from_str(k4), v4));
    fields.push((String::from_str(k5), v5));
    Json::Obj(fields)
}

fn arr1(a: Json) -> (r: Json)
    ensures
        r matches Json::Arr(items) && items@.len() == 1 && items@[0] == a,
{
    let mut items: Vec<Json> = Vec::new();
    items.push(a);
    Json::Arr(items)
}

fn arr4(a: Json, b: Json, c: Json, d: Json) -> (r: Json)
    ensures
        r matches Json::Arr(items) && items@.len() == 4 && items@[0] == a && items@[1] == b
            && items@[2] == c && items@[3] == d,
{
    let mut items: Vec<Json> = Vec::new();
    items.push(a);
    items.push(b);
    items.push(c);
    items.push(d);
    Json::Arr(items)
}

/// The handshake acknowledgement.
pub fn pong_response() -> (r: ApiResponse)
    ensures
        r.status == 200,
        is_pong_body(r.body),
{
    ApiResponse { status: 200, body: obj1("type", Json::UInt(1)) }
}

/// The generic bad-request response.
pub fn bad_request_response() -> (r: ApiResponse)
    ensures
        r.status == 400,
        is_empty_obj(r.body),
{
    ApiResponse { status: 400, body: obj0() }
}

/// The unauthorized response sent when the signature check fails.
pub fn unauthorized_response() -> (r: ApiResponse)
    ensures
        r.status == 401,
        is_empty_obj(r.body),
{
    ApiResponse { status: 401, body: obj0() }
}

fn content_response(status: u16, content: &str) -> (r: ApiResponse)
    ensures
        r.status == status,
        is_content_body(r.body, content@),
{
    ApiResponse { status, body: obj2("type", Json::UInt(4), "data", obj1("content", jstr(content))) }
}

/// The map of a pair list to its dropdown labels.
pub open spec fn pair_labels(ps: Seq<(String, String)>) -> Seq<Seq<char>> {
    ps.map_values(|p: (String, String)| location_label(p.0@, p.1@))
}

fn options_array(pairs: &Vec<(String, String)>) -> (r: Json)
    ensures
        r matches Json::Arr(os) && os@.len() == pairs@.len() && forall|k: int|
            0 <= k < pairs@.len() ==> is_option_entry(#[trigger] os@[k], pair_labels(pairs@)[k]),
{
    let mut items: Vec<Json> = Vec::new();
    let mut i: usize = 0;
    while i < pairs.len()
        invariant
            i <= pairs@.len(),
            items@.len() == i,
            forall|k: int|
                0 <= k < i ==> is_option_entry(#[trigger] items@[k], pair_labels(pairs@)[k]),
        decreases pairs@.len() - i,
    {
        let label = crate::location::make_location_label(pairs[i].0.as_str(), pairs[i].1.as_str());
        let entry = obj2("label", jstr(label.as_str()), "value", jstr(label.as_str()));
        items.push(entry);
        i += 1;
    }
    Json::Arr(items)
}

/// The response to a command invocation, built over the de-duplicated
/// location pairs read from the registry: a message holding the select
/// menu with one option per pair.
pub fn command_response(pairs: &Vec<(String, String)>) -> (r: ApiResponse)
    ensures
        r.status == 200,
        is_room_select_body(r.body, pair_labels(pairs@)),
{
    let menu = obj3(
        "type",
        Json::UInt(3),
        "custom_id",
        jstr("selected_room"),
        "options",
        options_array(pairs),
    );
    let row = obj2("type", Json::UInt(1), "components", arr1(menu));
    let data = obj2(
        "content",
        jstr(
            "Seleziona la stanza dove si terr\u{00e0} l'evento per procedere alla compilazione delle informazioni necessarie.",
        ),
        "components",
        arr1(row),
    );
    ApiResponse { status: 200, body: obj2("type", Json::UInt(4), "data", data) }
}

fn modal_response(room: &str) -> (r: ApiResponse)
    ensures
        r.status == 200,
        is_modal_body(r.body, room@),
{
    let title_field = obj4(
        "type",
        Json::UInt(4),
        "custom_id",
        jstr("title"),
        "label",
        jstr("Titolo"),
        "style",
        Json::UInt(1),
    );
    let description_field = obj4(
        "type",
        Json::UInt(4),
        "custom_id",
        jstr("description"),
        "label",
        jstr("Descrizione"),
        "style",
        Json::UInt(2),
    );
    let datetime_field = obj4(
        "type",
        Json::UInt(4),
        "custom_id",
        jstr("datetime"),
        "label",
        jstr("Data e ora (Formato: YYYY-MM-DD HH:mm)"),
        "style",
        Json::UInt(1),
    );
    let room_field = obj5(
        "type",
        Json::UInt(4),
        "custom_id",
        jstr("room"),
        "label",
        jstr("Stanza"),
        "style",
        Json::UInt(1),
        "value",
        jstr(room),
    );
    let ghost g_title = title_field;
    let ghost g_description = description_field;
    let ghost g_datetime = datetime_field;
    let ghost g_room = room_field;
    let row0 = obj2("type", Json::UInt(1), "components", arr1(title_field));
    let row1 = obj2("type", Json::UInt(1), "components", arr1(description_field));
    let row2 = obj2("type", Json::UInt(1), "components", arr1(datetime_field));
    let row3 = obj2("type", Json::UInt(1), "components", arr1(room_field));
    let ghost g_row0 = row0;
    let ghost g_row1 = row1;
    let ghost g_row2 = row2;
    let ghost g_row3 = row3;
    let rows = arr4(row0, row1, row2, row3);
    let data = obj3(
        "custom_id",
        jstr("event_info"),
        "title",
        jstr("test"),
        "components",
        rows,
    );
    let body = obj2("type", Json::UInt(9), "data", data);
    proof {
        assert(is_text_field(g_title, "title"@, "Titolo"@, 1));
        assert(is_text_field(g_description, "description"@, "Descrizione"@, 2));
        assert(is_text_field(g_datetime, "datetime"@, "Data e ora (Formato: YYYY-MM-DD HH:mm)"@, 1));
        assert(is_prefilled_field(g_room, "room"@, "Stanza"@, 1, room@));
        assert(is_field_row(g_row0, g_title));
        assert(is_field_row(g_row1, g_description));
        assert(is_field_row(g_row2, g_datetime));
        assert(is_field_row(g_row3, g_room));
    }
    ApiResponse { status: 200, body }
}

/// The selected room of a component interaction, when it carries one.
fn selected_room(payload: &Json) -> (r: Option<String>)
    ensures
        r matches Some(v) ==> spec_selected_room(*payload) == Some(v@),
        r is None <==> spec_selected_room(*payload) is None,
{
    let data = match payload {
        Json::Obj(fields) => match obj_get(fields, "data") {
            Some(d) => d,
            None => { return None; },
        },
        _ => { return None; },
    };
    let data_fields = match data {
        Json::Obj(fields) => fields,
        _ => { return None; },
    };
    match obj_get(data_fields, "custom_id") {
        Some(Json::Str(c)) => {
            if !crate::text::str_eq(c.as_str(), "selected_room") {
                return None;
            }
        },
        _ => { return None; },
    }
    match obj_get(data_fields, "values") {
        Some(Json::Arr(items)) => {
            if items.len() > 0 {
                match &items[0] {
                    Json::Str(v) => Some(v.clone()),
                    _ => None,
                }
            } else {
                None
            }
        },
        _ => None,
    }
}

/// Drives one webhook call of the interaction flow.
///
/// The payload is classified purely by its own fields: a handshake is
/// acknowledged; a command invocation asks for the registry; a room
/// selection opens the pre-filled modal; a modal submission is parsed,
/// validated and turned into the event to persist; everything else —
/// a missing or non-integer type tag, an unknown tag, or a payload of
/// the wrong shape — earns the generic bad-request outcome, with no
/// side effect requested.
pub fn gateway_step(payload: &Json) -> (r: GatewayStep)
    ensures
        spec_type_tag(*payload) is None ==> is_bad_request(r),
        spec_type_tag(*payload) == Some(1u64) ==> (r matches GatewayStep::Respond(a) && a.status
            == 200 && is_pong_body(a.body)),
        spec_type_tag(*payload) == Some(2u64) ==> r is FetchOptions,
        spec_type_tag(*payload) == Some(3u64) ==> match spec_selected_room(*payload) {
            Some(room) => r matches GatewayStep::Respond(a) && a.status == 200 && is_modal_body(
                a.body,
                room,
            ),
            None => is_bad_request(r),
        },
        spec_type_tag(*payload) == Some(5u64) ==> spec_submit_step(*payload, r),
        spec_type_tag(*payload) matches Some(t) ==> ((t != 1 && t != 2 && t != 3 && t != 5)
            ==> is_bad_request(r)),
{
    let tag: Option<u64> = match payload {
        Json::Obj(fields) => match obj_get(fields, "type") {
            Some(Json::UInt(t)) => Some(*t),
            _ => None,
        },
        _ => None,
    };
    match tag {
        Some(1u64) => GatewayStep::Respond(pong_response()),
        Some(2u64) => GatewayStep::FetchOptions,
        Some(3u64) => match selected_room(payload) {
            Some(room) => GatewayStep::Respond(modal_response(room.as_str())),
            None => GatewayStep::Respond(bad_request_response()),
        },
        Some(5u64) => match parse_modal_event(payload) {
            ModalParse::Malformed => GatewayStep::Respond(bad_request_response()),
            ModalParse::WrongModalKind => GatewayStep::Respond(
                content_response(200, "Qualcosa \u{00e8} andato storto!"),
            ),
            ModalParse::Incomplete => GatewayStep::Respond(
                content_response(200, "Qualcosa \u{00e8} andato storto!"),
            ),
            ModalParse::Complete(ed) => match parse_datetime_epoch(ed.datetime.as_str()) {
                None => GatewayStep::Fatal,
                Some(t) => if t < 0 {
                    GatewayStep::Fatal
                } else {
                    match split_room_label(ed.room.as_str()) {
                        None => GatewayStep::Respond(
                            content_response(200, "Qualcosa \u{00e8} andato storto!"),
                        ),
                        Some((building, room)) => {
                            let id = fresh_event_id();
                            let ev = Event {
                                id,
                                title: ed.title,
                                description: ed.description,
                                timestamp: t as u64,
                                datetime: ed.datetime,
                                building,
                                room,
                            };
                            GatewayStep::Persist(
                                ev,
                                content_response(200, "Evento salvato correttamente."),
                            )
                        },
                    }
                },
            },
        },
        _ => GatewayStep::Respond(bad_request_response()),
    }
}

} // verus!
