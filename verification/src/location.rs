//! Location labels: the `"<building> - <room>"` encoding used for the
//! dropdown options, its decoding back into the two labels, and the
//! de-duplicated option set built from the device registry.

use vstd::prelude::*;
use vstd::string::StrSliceExecFns;
use vstd::string::StringExecFns;
use crate::text::str_eq;

verus! {

/// The literal separator of a location label.
pub open spec fn sep_seq() -> Seq<char> {
    seq![' ', '-', ' ']
}

/// The label that encodes a building and a room.
pub open spec fn location_label(building: Seq<char>, room: Seq<char>) -> Seq<char> {
    building + sep_seq() + room
}

/// True when the separator occurs at position `i`.
pub open spec fn sep_at(s: Seq<char>, i: int) -> bool {
    &&& 0 <= i
    &&& i + 3 <= s.len()
    &&& s[i] == ' '
    &&& s[i + 1] == '-'
    &&& s[i + 2] == ' '
}

/// The position of the first separator occurrence at or after `i`, if any.
pub open spec fn first_sep_from(s: Seq<char>, i: int) -> Option<int>
    decreases s.len() - i,
{
    if i < 0 || i + 3 > s.len() {
        None
    } else if sep_at(s, i) {
        Some(i)
    } else {
        first_sep_from(s, i + 1)
    }
}

/// Splitting a label on the separator, left to right and without
/// overlaps, yields exactly two parts when one occurrence exists and the
/// remainder after it holds no further one; the parts are what stands
/// before and after that occurrence.
pub open spec fn room_label_parts(s: Seq<char>) -> Option<(Seq<char>, Seq<char>)> {
    match first_sep_from(s, 0) {
        None => None,
        Some(i) => if first_sep_from(s, i + 3) is Some {
            None
        } else {
            Some((s.take(i), s.skip(i + 3)))
        },
    }
}

/// A found position really carries the separator and lies at or after
/// the start of the scan.
proof fn lemma_first_sep_from_some(s: Seq<char>, from: int, j: int)
    requires
        first_sep_from(s, from) == Some(j),
    ensures
        sep_at(s, j),
        from <= j,
    decreases s.len() - from,
{
    if !(from < 0 || from + 3 > s.len()) && !sep_at(s, from) {
        lemma_first_sep_from_some(s, from + 1, j);
    }
}

/// Scans for the first separator occurrence at or after `from`.
fn find_sep(label: &str, from: usize) -> (r: Option<usize>)
    requires
        from <= label@.len(),
    ensures
        r matches Some(j) ==> first_sep_from(label@, from as int) == Some(j as int),
        r is None <==> first_sep_from(label@, from as int) is None,
{
    let n = label.unicode_len();
    let mut j = from;
    while n - j >= 3
        invariant
            from <= j <= n,
            n == label@.len(),
            first_sep_from(label@, from as int) == first_sep_from(label@, j as int),
        decreases n - j,
    {
        if label.get_char(j) == ' ' && label.get_char(j + 1) == '-' && label.get_char(j + 2) == ' '
        {
            return Some(j);
        }
        j += 1;
    }
    None
}

/// Decodes a dropdown label back into its building and room, exactly
/// when splitting it on the separator gives two parts.
pub fn split_room_label(label: &str) -> (r: Option<(String, String)>)
    ensures
        r matches Some(p) ==> (room_label_parts(label@) matches Some(q) && p.0@ == q.0 && p.1@
            == q.1),
        r is None <==> room_label_parts(label@) is None,
{
    let n = label.unicode_len();
    match find_sep(label, 0) {
        None => None,
        Some(i) => {
            proof {
                lemma_first_sep_from_some(label@, 0, i as int);
            }
            match find_sep(label, i + 3) {
            Some(_) => None,
            None => {
                let building = label.substring_char(0, i).to_owned();
                let room = label.substring_char(i + 3, n).to_owned();
                proof {
                    assert(label@.subrange(0, i as int) =~= label@.take(i as int));
                    assert(label@.subrange(i as int + 3, n as int) =~= label@.skip(i as int + 3));
                }
                Some((building, room))
            },
        }
        },
    }
}

/// Encodes a building and a room as one dropdown label.
pub fn make_location_label(building: &str, room: &str) -> (r: String)
    ensures
        r@ == location_label(building@, room@),
{
    let s = String::from_str(building).concat(" - ").concat(room);
    proof {
        reveal_strlit(" - ");
        assert(" - "@ =~= sep_seq());
    }
    s
}

/// One registry entry, reduced to the two location attributes the option
/// builder reads; either may be absent.
pub struct Device {
    pub building: Option<String>,
    pub room: Option<String>,
}

/// True when a device carries exactly this building and room.
pub open spec fn device_has(d: Device, b: Seq<char>, rm: Seq<char>) -> bool {
    &&& d.building matches Some(db) && db@ == b
    &&& d.room matches Some(dr) && dr@ == rm
}

/// True when some registry device carries this building and room.
pub open spec fn some_device_has(devices: Seq<Device>, b: Seq<char>, rm: Seq<char>) -> bool {
    exists|k: int| 0 <= k < devices.len() && device_has(#[trigger] devices[k], b, rm)
}

/// True when the pair list holds this building and room.
pub open spec fn pairs_contain(ps: Seq<(String, String)>, b: Seq<char>, rm: Seq<char>) -> bool {
    exists|i: int| 0 <= i < ps.len() && ps[i].0@ == b && ps[i].1@ == rm
}

/// Membership test on the pair list.
fn pairs_has(ps: &Vec<(String, String)>, b: &str, rm: &str) -> (r: bool)
    ensures
        r == pairs_contain(ps@, b@, rm@),
{
    let mut i: usize = 0;
    while i < ps.len()
        invariant
            i <= ps@.len(),
            forall|k: int| 0 <= k < i ==> !(ps@[k].0@ == b@ && ps@[k].1@ == rm@),
        decreases ps@.len() - i,
    {
        if str_eq(ps[i].0.as_str(), b) && str_eq(ps[i].1.as_str(), rm) {
            return true;
        }
        i += 1;
    }
    false
}

/// The distinct (building, room) pairs announced by the registry: one
/// pair for every device that carries both attributes, de-duplicated, in
/// order of first appearance.
pub fn location_pairs(devices: &Vec<Device>) -> (r: Vec<(String, String)>)
    ensures
        forall|i: int, j: int|
            0 <= i < j < r@.len() ==> !(r@[i].0@ == r@[j].0@ && r@[i].1@ == r@[j].1@),
        forall|i: int|
            #![trigger r@[i]]
            0 <= i < r@.len() ==> some_device_has(devices@, r@[i].0@, r@[i].1@),
        forall|k: int, b: Seq<char>, rm: Seq<char>|
            0 <= k < devices@.len() && #[trigger] device_has(devices@[k], b, rm) ==> pairs_contain(
                r@,
                b,
                rm,
            ),
{
    let mut pairs: Vec<(String, String)> = Vec::new();
    let mut d: usize = 0;
    while d < devices.len()
        invariant
            d <= devices@.len(),
            forall|i: int, j: int|
                0 <= i < j < pairs@.len() ==> !(pairs@[i].0@ == pairs@[j].0@ && pairs@[i].1@
                    == pairs@[j].1@),
            forall|i: int|
                #![trigger pairs@[i]]
                0 <= i < pairs@.len() ==> some_device_has(devices@, pairs@[i].0@, pairs@[i].1@),
            forall|k: int, b: Seq<char>, rm: Seq<char>|
                0 <= k < d && #[trigger] device_has(devices@[k], b, rm) ==> pairs_contain(
                    pairs@,
                    b,
                    rm,
                ),
        decreases devices@.len() - d,
    {
        let dev = &devices[d];
        match (&dev.building, &dev.room) {
            (Some(b), Some(rm)) => {
                if !pairs_has(&pairs, b.as_str(), rm.as_str()) {
                    let ghost old_pairs = pairs@;
                    pairs.push((b.clone(), rm.clone()));
                    proof {
                        assert(device_has(devices@[d as int], b@, rm@));
                        assert(some_device_has(devices@, b@, rm@));
                        assert forall|bb: Seq<char>, rr: Seq<char>|
                            pairs_contain(old_pairs, bb, rr) implies pairs_contain(
                            pairs@,
                            bb,
                            rr,
                        ) by {
                            let i = choose|i: int|
                                0 <= i < old_pairs.len() && old_pairs[i].0@ == bb
                                    && old_pairs[i].1@ == rr;
                            assert(pairs@[i].0@ == bb && pairs@[i].1@ == rr);
                        }
                        assert(pairs@[pairs@.len() - 1].0@ == b@ && pairs@[pairs@.len() - 1].1@
                            == rm@);
                    }
                } else {
                    proof {
                        assert(device_has(devices@[d as int], b@, rm@));
                    }
                }
            },
            _ => {},
        }
        d += 1;
    }
    pairs
}

/// The dropdown labels of a pair list, in order.
pub fn labels_of_pairs(pairs: &Vec<(String, String)>) -> (r: Vec<String>)
    ensures
        r@.len() == pairs@.len(),
        forall|i: int|
            0 <= i < r@.len() ==> r@[i]@ == location_label(pairs@[i].0@, pairs@[i].1@),
{
    let mut out: Vec<String> = Vec::new();
    let mut i: usize = 0;
    while i < pairs.len()
        invariant
            i <= pairs@.len(),
            out@.len() == i,
            forall|k: int| 0 <= k < i ==> out@[k]@ == location_label(pairs@[k].0@, pairs@[k].1@),
        decreases pairs@.len() - i,
    {
        out.push(make_location_label(pairs[i].0.as_str(), pairs[i].1.as_str()));
        i += 1;
    }
    out
}

} // verus!
