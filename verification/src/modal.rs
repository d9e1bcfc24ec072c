//! The modal parser/validator: walks the submitted modal's field
//! groups, collects the four expected field values, and classifies the
//! submission.

use vstd::prelude::*;
use crate::json::{Json, spec_obj_get, spec_field, obj_get};
use crate::text::str_eq;

verus! {

/// The four collected field values; `None` marks a field that was never
/// returned (an empty string is a returned value).
pub struct FieldsV {
    pub title: Option<Seq<char>>,
    pub description: Option<Seq<char>>,
    pub datetime: Option<Seq<char>>,
    pub room: Option<Seq<char>>,
}

/// The plain record of a complete submission, for the caller to
/// interpret; no date parsing and no persistence happens here.
pub struct EventData {
    pub title: String,
    pub description: String,
    pub datetime: String,
    pub room: String,
}

/// How one submission is classified.
pub enum ModalParse {
    /// All four fields were returned.
    Complete(EventData),
    /// The modal's own custom id is not the expected one.
    WrongModalKind,
    /// A well-shaped modal in which some expected field never came back.
    Incomplete,
    /// The payload does not have the shape of a modal submission.
    Malformed,
}

/// Nothing collected yet.
pub open spec fn empty_fields() -> FieldsV {
    FieldsV { title: None, description: None, datetime: None, room: None }
}

/// True when all four fields were returned.
pub open spec fn fields_complete(f: FieldsV) -> bool {
    &&& f.title is Some
    &&& f.description is Some
    &&& f.datetime is Some
    &&& f.room is Some
}

/// An optional text member as the walk reads it: absent and null both
/// mean "no value"; any non-string value is a shape violation.
pub open spec fn spec_opt_text(v: Option<Json>) -> Option<Option<Seq<char>>> {
    match v {
        None => Some(None),
        Some(Json::Null) => Some(None),
        Some(Json::Str(s)) => Some(Some(s@)),
        Some(_) => None,
    }
}

/// The (custom id, value) reading of one field of a field group, or
/// `None` when the field is not an object, lacks a numeric type tag, or
/// carries a non-text custom id or value.
pub open spec fn spec_field_entry(f: Json) -> Option<(Option<Seq<char>>, Option<Seq<char>>)> {
    match f {
        Json::Obj(fs) => if spec_obj_get(fs@, "type"@) matches Some(Json::UInt(_)) {
            match (spec_opt_text(spec_obj_get(fs@, "custom_id"@)), spec_opt_text(
                spec_obj_get(fs@, "value"@),
            )) {
                (Some(k), Some(v)) => Some((k, v)),
                _ => None,
            }
        } else {
            None
        },
        _ => None,
    }
}

/// Applies one read field to the collected values: a recognised custom
/// id stores the field's value (also when that value is absent), every
/// other field is ignored.
pub open spec fn apply_entry(acc: FieldsV, key: Option<Seq<char>>, value: Option<Seq<char>>) -> FieldsV {
    match key {
        None => acc,
        Some(k) => if k == "title"@ {
            FieldsV { title: value, ..acc }
        } else if k == "description"@ {
            FieldsV { description: value, ..acc }
        } else if k == "datetime"@ {
            FieldsV { datetime: value, ..acc }
        } else if k == "room"@ {
            FieldsV { room: value, ..acc }
        } else {
            acc
        },
    }
}

/// Folds the fields of one field group, left to right; `None` on the
/// first shape violation.
pub open spec fn spec_fold_fields(acc: FieldsV, fs: Seq<Json>) -> Option<FieldsV>
    decreases fs.len(),
{
    if fs.len() == 0 {
        Some(acc)
    } else {
        match spec_field_entry(fs.first()) {
            None => None,
            Some((k, v)) => spec_fold_fields(apply_entry(acc, k, v), fs.drop_first()),
        }
    }
}

/// The fields of one field group row: the row must be an object with a
/// numeric type tag and an array of components.
pub open spec fn spec_row_fields(row: Json) -> Option<Seq<Json>> {
    match row {
        Json::Obj(fs) => if spec_obj_get(fs@, "type"@) matches Some(Json::UInt(_)) {
            match spec_obj_get(fs@, "components"@) {
                Some(Json::Arr(items)) => Some(items@),
                _ => None,
            }
        } else {
            None
        },
        _ => None,
    }
}

/// Folds all field group rows, left to right.
pub open spec fn spec_fold_rows(acc: FieldsV, rows: Seq<Json>) -> Option<FieldsV>
    decreases rows.len(),
{
    if rows.len() == 0 {
        Some(acc)
    } else {
        match spec_row_fields(rows.first()) {
            None => None,
            Some(fs) => match spec_fold_fields(acc, fs) {
                None => None,
                Some(acc2) => spec_fold_rows(acc2, rows.drop_first()),
            },
        }
    }
}

/// The modal's own custom id, when the payload carries a data object
/// with a text custom id.
pub open spec fn spec_modal_custom_id(payload: Json) -> Option<Seq<char>> {
    match spec_field(payload, "data"@) {
        Some(d) => match spec_field(d, "custom_id"@) {
            Some(Json::Str(s)) => Some(s@),
            _ => None,
        },
        None => None,
    }
}

/// The field group rows of the payload's data object, when present as
/// an array.
pub open spec fn spec_modal_rows(payload: Json) -> Option<Seq<Json>> {
    match spec_field(payload, "data"@) {
        Some(d) => match spec_field(d, "components"@) {
            Some(Json::Arr(items)) => Some(items@),
            _ => None,
        },
        None => None,
    }
}

/// What the walk over a well-shaped submission collects; `None` exactly
/// on the malformed payloads.
pub open spec fn spec_collected(payload: Json) -> Option<FieldsV> {
    if spec_modal_custom_id(payload) is Some && spec_modal_rows(payload) is Some {
        spec_fold_rows(empty_fields(), spec_modal_rows(payload)->0)
    } else {
        None
    }
}

/// The view of the four collected exec values.
pub open spec fn fields_v(
    title: Option<String>,
    description: Option<String>,
    datetime: Option<String>,
    room: Option<String>,
) -> FieldsV {
    FieldsV {
        title: match title {
            Some(s) => Some(s@),
            None => None,
        },
        description: match description {
            Some(s) => Some(s@),
            None => None,
        },
        datetime: match datetime {
            Some(s) => Some(s@),
            None => None,
        },
        room: match room {
            Some(s) => Some(s@),
            None => None,
        },
    }
}

/// Reads one optional text member of a field object. The `bool` is
/// false on a shape violation.
fn get_opt_text(fs: &Vec<(String, Json)>, key: &str) -> (r: (bool, Option<String>))
    ensures
        r.0 <==> spec_opt_text(spec_obj_get(fs@, key@)) is Some,
        r.0 ==> spec_opt_text(spec_obj_get(fs@, key@)) == Some(
            match r.1 {
                Some(s) => Some(s@),
                None => None,
            },
        ),
{
    match obj_get(fs, key) {
        None => (true, None),
        Some(Json::Null) => (true, None),
        Some(Json::Str(s)) => (true, Some(s.clone())),
        Some(_) => (false, None),
    }
}

/// True when the object carries a numeric type tag, as every component
/// of the wire format must.
fn has_uint_type(fs: &Vec<(String, Json)>) -> (r: bool)
    ensures
        r == (spec_obj_get(fs@, "type"@) matches Some(Json::UInt(_))),
{
    match obj_get(fs, "type") {
        Some(Json::UInt(_)) => true,
        _ => false,
    }
}

/// Parses and validates one modal submission payload.
///
/// The payload is malformed exactly when the walk finds a shape
/// violation; a well-shaped submission under a foreign modal id is
/// `WrongModalKind`; one in which a field never came back is
/// `Incomplete`; otherwise all four collected values are returned.
pub fn parse_modal_event(payload: &Json) -> (r: ModalParse)
    ensures
        r is Malformed <==> spec_collected(*payload) is None,
        spec_collected(*payload) is Some && spec_modal_custom_id(*payload) != Some("event_info"@)
            ==> r is WrongModalKind,
        spec_collected(*payload) matches Some(acc) ==> ((spec_modal_custom_id(*payload) == Some(
            "event_info"@,
        ) && !fields_complete(acc)) ==> r is Incomplete),
        spec_collected(*payload) matches Some(acc) ==> ((spec_modal_custom_id(*payload) == Some(
            "event_info"@,
        ) && fields_complete(acc)) ==> (r matches ModalParse::Complete(ed) && ed.title@
            == acc.title->0 && ed.description@ == acc.description->0 && ed.datetime@
            == acc.datetime->0 && ed.room@ == acc.room->0)),
{
    let data = match payload {
        Json::Obj(fields) => match obj_get(fields, "data") {
            Some(d) => d,
            None => { return ModalParse::Malformed; },
        },
        _ => { return ModalParse::Malformed; },
    };
    let data_fields = match data {
        Json::Obj(fields) => fields,
        _ => { return ModalParse::Malformed; },
    };
    let modal_id = match obj_get(data_fields, "custom_id") {
        Some(Json::Str(s)) => s,
        _ => { return ModalParse::Malformed; },
    };
    let rows = match obj_get(data_fields, "components") {
        Some(Json::Arr(items)) => items,
        _ => { return ModalParse::Malformed; },
    };
    let ghost rows_seq = rows@;
    assert(spec_modal_rows(*payload) == Some(rows_seq));
    assert(spec_modal_custom_id(*payload) == Some(modal_id@));

    let mut title: Option<String> = None;
    let mut description: Option<String> = None;
    let mut datetime: Option<String> = None;
    let mut room: Option<String> = None;
    let mut i: usize = 0;
    proof {
        assert(rows_seq.skip(0) =~= rows_seq);
    }
    while i < rows.len()
        invariant
            i <= rows_seq.len(),
            rows@ == rows_seq,
            spec_modal_rows(*payload) == Some(rows_seq),
            spec_modal_custom_id(*payload) is Some,
            spec_fold_rows(empty_fields(), rows_seq) == spec_fold_rows(
                fields_v(title, description, datetime, room),
                rows_seq.skip(i as int),
            ),
        decreases rows_seq.len() - i,
    {
        proof {
            assert(rows_seq.skip(i as int).first() == rows_seq[i as int]);
            assert(rows_seq.skip(i as int).drop_first() =~= rows_seq.skip(i as int + 1));
        }
        let row_fields = match &rows[i] {
            Json::Obj(fs) => fs,
            _ => { return ModalParse::Malformed; },
        };
        if !has_uint_type(row_fields) {
            return ModalParse::Malformed;
        }
        let fields = match obj_get(row_fields, "components") {
            Some(Json::Arr(items)) => items,
            _ => { return ModalParse::Malformed; },
        };
        let ghost fields_seq = fields@;
        assert(spec_row_fields(rows_seq[i as int]) == Some(fields_seq));
        let ghost acc_at_row = fields_v(title, description, datetime, room);
        let mut j: usize = 0;
        proof {
            assert(fields_seq.skip(0) =~= fields_seq);
        }
        while j < fields.len()
            invariant
                j <= fields_seq.len(),
                fields@ == fields_seq,
                spec_modal_rows(*payload) == Some(rows_seq),
                spec_modal_custom_id(*payload) is Some,
                spec_fold_fields(acc_at_row, fields_seq) == spec_fold_fields(
                    fields_v(title, description, datetime, room),
                    fields_seq.skip(j as int),
                ),
                spec_fold_rows(empty_fields(), rows_seq) == match spec_fold_fields(
                    acc_at_row,
                    fields_seq,
                ) {
                    None => None,
                    Some(acc2) => spec_fold_rows(acc2, rows_seq.skip(i as int + 1)),
                },
            decreases fields_seq.len() - j,
        {
            proof {
                assert(fields_seq.skip(j as int).first() == fields_seq[j as int]);
                assert(fields_seq.skip(j as int).drop_first() =~= fields_seq.skip(j as int + 1));
            }
            let entry_fields = match &fields[j] {
                Json::Obj(fs) => fs,
                _ => { return ModalParse::Malformed; },
            };
            if !has_uint_type(entry_fields) {
                return ModalParse::Malformed;
            }
            let (key_ok, key) = get_opt_text(entry_fields, "custom_id");
            if !key_ok {
                return ModalParse::Malformed;
            }
            let (value_ok, value) = get_opt_text(entry_fields, "value");
            if !value_ok {
                return ModalParse::Malformed;
            }
            match &key {
                Some(k) => {
                    if str_eq(k.as_str(), "title") {
                        title = value;
                    } else if str_eq(k.as_str(), "description") {
                        description = value;
                    } else if str_eq(k.as_str(), "datetime") {
                        datetime = value;
                    } else if str_eq(k.as_str(), "room") {
                        room = value;
                    }
                },
                None => {},
            }
            j += 1;
        }
        proof {
            assert(fields_seq.skip(fields_seq.len() as int) =~= Seq::<Json>::empty());
        }
        i += 1;
    }
    proof {
        assert(rows_seq.skip(rows_seq.len() as int) =~= Seq::<Json>::empty());
    }
    if !str_eq(modal_id.as_str(), "event_info") {
        return ModalParse::WrongModalKind;
    }
    match (title, description, datetime, room) {
        (Some(title), Some(description), Some(datetime), Some(room)) => ModalParse::Complete(
            EventData { title, description, datetime, room },
        ),
        _ => ModalParse::Incomplete,
    }
}

} // verus!
