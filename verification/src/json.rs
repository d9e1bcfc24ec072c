//! A plain model of the JSON values that the webhook carries: the
//! gateway classifies and validates inbound payloads over this type and
//! builds its responses as values of it; the surrounding process only
//! converts between this type and its wire encoding.

use vstd::prelude::*;
use crate::text::str_eq;

verus! {

/// One JSON value.
///
/// A number is kept only as far as the protocol reads it: a
/// non-negative integer fitting `u64` is `UInt`, every other number is
/// `OtherNum`. An object keeps its members in order; keys are unique as
/// produced by the wire decoder, and lookups take the first match.
#[derive(Debug, PartialEq, Eq)]
pub enum Json {
    Null,
    Bool(bool),
    UInt(u64),
    OtherNum,
    Str(String),
    Arr(Vec<Json>),
    Obj(Vec<(String, Json)>),
}

/// The first member stored under `key`, if any.
pub open spec fn spec_obj_get(fields: Seq<(String, Json)>, key: Seq<char>) -> Option<Json>
    decreases fields.len(),
{
    if fields.len() == 0 {
        None
    } else if fields.first().0@ == key {
        Some(fields.first().1)
    } else {
        spec_obj_get(fields.drop_first(), key)
    }
}

/// The member stored under `key` of an object value; `None` on any
/// other value or when the key is absent.
pub open spec fn spec_field(j: Json, key: Seq<char>) -> Option<Json> {
    match j {
        Json::Obj(fields) => spec_obj_get(fields@, key),
        _ => None,
    }
}

/// Looks a member up by key.
pub fn obj_get<'a>(fields: &'a Vec<(String, Json)>, key: &str) -> (r: Option<&'a Json>)
    ensures
        r matches Some(j) ==> spec_obj_get(fields@, key@) == Some(*j),
        r is None <==> spec_obj_get(fields@, key@) is None,
{
    let mut i: usize = 0;
    proof {
        assert(fields@.skip(0) =~= fields@);
    }
    while i < fields.len()
        invariant
            i <= fields@.len(),
            spec_obj_get(fields@, key@) == spec_obj_get(fields@.skip(i as int), key@),
        decreases fields@.len() - i,
    {
        proof {
            assert(fields@.skip(i as int).first() == fields@[i as int]);
            assert(fields@.skip(i as int).drop_first() =~= fields@.skip(i as int + 1));
        }
        if str_eq(fields[i].0.as_str(), key) {
            return Some(&fields[i].1);
        }
        i += 1;
    }
    None
}

} // verus!
