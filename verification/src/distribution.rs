//! The distribution job's pure half: filter the stored events to the
//! future, group them by building and by (building, room), order each
//! group by timestamp, and yield one publication per topic. The caller
//! performs the sends; a failed send must not keep it from attempting
//! the remaining topics.

use vstd::prelude::*;
use vstd::multiset::Multiset;
use vstd::seq_lib::lemma_multiset_commutative;
use vstd::string::StringExecFns;
use vstd::utf8::encode_utf8;
use crate::event::{Event, EventList};
use crate::text::str_eq;

verus! {

/// Timestamps never decrease along the group.
pub open spec fn sorted_by_ts(s: Seq<Event>) -> bool {
    forall|i: int, j: int| 0 <= i <= j < s.len() ==> s[i].timestamp <= s[j].timestamp
}

/// Membership in one building's future group.
pub open spec fn building_pred(now: u64, b: Seq<char>) -> spec_fn(Event) -> bool {
    |e: Event| e.timestamp > now && e.building@ == b
}

/// The future events of one building.
pub open spec fn building_filter(events: Seq<Event>, now: u64, b: Seq<char>) -> Seq<Event> {
    events.filter(building_pred(now, b))
}

/// Membership in one room's future group.
pub open spec fn room_pred(now: u64, b: Seq<char>, rm: Seq<char>) -> spec_fn(Event) -> bool {
    |e: Event| e.timestamp > now && e.building@ == b && e.room@ == rm
}

/// The future events of one room of one building.
pub open spec fn room_filter(events: Seq<Event>, now: u64, b: Seq<char>, rm: Seq<char>) -> Seq<
    Event,
> {
    events.filter(room_pred(now, b, rm))
}

/// True when some stored event is in the future and in this building.
pub open spec fn some_future_building(events: Seq<Event>, now: u64, b: Seq<char>) -> bool {
    exists|k: int|
        0 <= k < events.len() && (#[trigger] events[k]).timestamp > now && events[k].building@ == b
}

/// True when some stored event is in the future and in this room.
pub open spec fn some_future_room(events: Seq<Event>, now: u64, b: Seq<char>, rm: Seq<char>) -> bool {
    exists|k: int|
        0 <= k < events.len() && (#[trigger] events[k]).timestamp > now && events[k].building@ == b
            && events[k].room@ == rm
}

/// True when the key list holds this building.
pub open spec fn keys_contain(ks: Seq<String>, b: Seq<char>) -> bool {
    exists|i: int| 0 <= i < ks.len() && (#[trigger] ks[i])@ == b
}

/// True when the pair key list holds this (building, room).
pub open spec fn pair_keys_contain(ks: Seq<(String, String)>, b: Seq<char>, rm: Seq<char>) -> bool {
    exists|i: int| 0 <= i < ks.len() && (#[trigger] ks[i]).0@ == b && ks[i].1@ == rm
}

/// Inserting anywhere adds exactly one occurrence.
proof fn lemma_insert_multiset(s: Seq<Event>, pos: int, e: Event)
    requires
        0 <= pos <= s.len(),
    ensures
        s.insert(pos, e).to_multiset() =~= s.to_multiset().insert(e),
{
    broadcast use vstd::seq_lib::group_to_multiset_ensures;

    let a = s.subrange(0, pos);
    let b = s.subrange(pos, s.len() as int);
    lemma_multiset_commutative(a.push(e), b);
    lemma_multiset_commutative(a, b);
    assert(s =~= a + b);
    assert(a.push(e).to_multiset() =~= a.to_multiset().insert(e));
    assert(a.to_multiset().insert(e).add(b.to_multiset()) =~= a.to_multiset().add(
        b.to_multiset(),
    ).insert(e));
}

/// Puts one event where it keeps the order.
fn insert_sorted(out: &mut Vec<Event>, e: Event)
    requires
        sorted_by_ts(old(out)@),
    ensures
        sorted_by_ts(final(out)@),
        final(out)@.to_multiset() == old(out)@.to_multiset().insert(e),
{
    let mut k: usize = 0;
    while k < out.len() && out[k].timestamp <= e.timestamp
        invariant
            k <= out@.len(),
            out@ == old(out)@,
            forall|m: int| 0 <= m < k ==> out@[m].timestamp <= e.timestamp,
        decreases out@.len() - k,
    {
        k += 1;
    }
    let ghost s = out@;
    proof {
        s.insert_ensures(k as int, e);
        lemma_insert_multiset(s, k as int, e);
    }
    out.insert(k, e);
    proof {
        let t = out@;
        assert forall|i: int, j: int| 0 <= i <= j < t.len() implies t[i].timestamp
            <= t[j].timestamp by {
            let ki = k as int;
            if i < ki {
                assert(t[i] == s[i]);
            }
            if j < ki {
                assert(t[j] == s[j]);
            }
            if i > ki {
                assert(t[i] == s[i - 1]);
            }
            if j > ki {
                assert(t[j] == s[j - 1]);
            }
            if i == ki {
                assert(t[i] == e);
            }
            if j == ki {
                assert(t[j] == e);
            }
            if i < ki && j == ki {
                assert(s[i].timestamp <= e.timestamp);
            }
            if i == ki && j > ki {
                assert(ki < s.len());
                assert(e.timestamp < s[ki].timestamp);
                assert(s[ki].timestamp <= s[j - 1].timestamp);
            }
            if i < ki && j > ki {
                assert(s[i].timestamp <= s[j - 1].timestamp);
            }
        }
    }
}

/// Orders events ascending by timestamp; what comes out is exactly what
/// went in. Events of equal timestamp may come out in any order.
pub fn sort_events_by_timestamp(events: Vec<Event>) -> (r: Vec<Event>)
    ensures
        sorted_by_ts(r@),
        r@.to_multiset() == events@.to_multiset(),
{
    broadcast use vstd::seq_lib::group_to_multiset_ensures;

    let mut out: Vec<Event> = Vec::new();
    let mut i: usize = 0;
    proof {
        assert(events@.take(0) =~= Seq::<Event>::empty());
        assert(Seq::<Event>::empty().to_multiset() =~= Multiset::<Event>::empty()) by {
            Seq::<Event>::empty().to_multiset_ensures();
        }
        assert(out@.to_multiset() =~= events@.take(0).to_multiset());
    }
    while i < events.len()
        invariant
            i <= events@.len(),
            sorted_by_ts(out@),
            out@.to_multiset() == events@.take(i as int).to_multiset(),
        decreases events@.len() - i,
    {
        proof {
            broadcast use vstd::seq_lib::group_to_multiset_ensures;

            assert(events@.take(i as int + 1) =~= events@.take(i as int).push(events@[i as int]));
        }
        insert_sorted(&mut out, events[i].clone());
        i += 1;
    }
    proof {
        assert(events@.take(events@.len() as int) =~= events@);
    }
    out
}

/// The future events of one building, in stored order.
fn events_with_building(events: &Vec<Event>, now: u64, b: &str) -> (r: Vec<Event>)
    ensures
        r@ == building_filter(events@, now, b@),
{
    let mut out: Vec<Event> = Vec::new();
    let mut i: usize = 0;
    proof {
        assert(building_filter(events@.take(0), now, b@) =~= Seq::<Event>::empty()) by {
            reveal(Seq::filter);
        }
    }
    while i < events.len()
        invariant
            i <= events@.len(),
            out@ == building_filter(events@.take(i as int), now, b@),
        decreases events@.len() - i,
    {
        proof {
            let pred = building_pred(now, b@);
            let t = events@.take(i as int + 1);
            assert(t.drop_last() =~= events@.take(i as int));
            assert(t.last() == events@[i as int]);
            reveal(Seq::filter);
            assert(building_filter(t, now, b@) == if pred(events@[i as int]) {
                building_filter(events@.take(i as int), now, b@).push(events@[i as int])
            } else {
                building_filter(events@.take(i as int), now, b@)
            });
        }
        if events[i].timestamp > now && str_eq(events[i].building.as_str(), b) {
            out.push(events[i].clone());
        }
        i += 1;
    }
    proof {
        assert(events@.take(events@.len() as int) =~= events@);
    }
    out
}

/// The future events of one room, in stored order.
fn events_with_room(events: &Vec<Event>, now: u64, b: &str, rm: &str) -> (r: Vec<Event>)
    ensures
        r@ == room_filter(events@, now, b@, rm@),
{
    let mut out: Vec<Event> = Vec::new();
    let mut i: usize = 0;
    proof {
        assert(room_filter(events@.take(0), now, b@, rm@) =~= Seq::<Event>::empty()) by {
            reveal(Seq::filter);
        }
    }
    while i < events.len()
        invariant
            i <= events@.len(),
            out@ == room_filter(events@.take(i as int), now, b@, rm@),
        decreases events@.len() - i,
    {
        proof {
            let pred = room_pred(now, b@, rm@);
            let t = events@.take(i as int + 1);
            assert(t.drop_last() =~= events@.take(i as int));
            assert(t.last() == events@[i as int]);
            reveal(Seq::filter);
            assert(room_filter(t, now, b@, rm@) == if pred(events@[i as int]) {
                room_filter(events@.take(i as int), now, b@, rm@).push(events@[i as int])
            } else {
                room_filter(events@.take(i as int), now, b@, rm@)
            });
        }
        if events[i].timestamp > now && str_eq(events[i].building.as_str(), b) && str_eq(
            events[i].room.as_str(),
            rm,
        ) {
            out.push(events[i].clone());
        }
        i += 1;
    }
    proof {
        assert(events@.take(events@.len() as int) =~= events@);
    }
    out
}

/// The distinct buildings of the future events, first seen first.
fn distinct_future_buildings(events: &Vec<Event>, now: u64) -> (r: Vec<String>)
    ensures
        forall|i: int, j: int| 0 <= i < j < r@.len() ==> r@[i]@ != r@[j]@,
        forall|i: int|
            0 <= i < r@.len() ==> some_future_building(events@, now, (#[trigger] r@[i])@),
        forall|k: int|
            0 <= k < events@.len() && (#[trigger] events@[k]).timestamp > now ==> keys_contain(
                r@,
                events@[k].building@,
            ),
{
    let mut keys: Vec<String> = Vec::new();
    let mut k: usize = 0;
    while k < events.len()
        invariant
            k <= events@.len(),
            forall|i: int, j: int| 0 <= i < j < keys@.len() ==> keys@[i]@ != keys@[j]@,
            forall|i: int|
                0 <= i < keys@.len() ==> some_future_building(events@, now, (#[trigger] keys@[i])@),
            forall|m: int|
                0 <= m < k && (#[trigger] events@[m]).timestamp > now ==> keys_contain(
                    keys@,
                    events@[m].building@,
                ),
        decreases events@.len() - k,
    {
        if events[k].timestamp > now {
            let b = &events[k].building;
            let mut found = false;
            let mut i: usize = 0;
            while i < keys.len()
                invariant
                    i <= keys@.len(),
                    found ==> keys_contain(keys@, b@),
                    !found ==> forall|m: int| 0 <= m < i ==> keys@[m]@ != b@,
                decreases keys@.len() - i,
            {
                if str_eq(keys[i].as_str(), b.as_str()) {
                    found = true;
                    proof {
                        assert((keys@[i as int])@ == b@);
                    }
                }
                i += 1;
            }
            if !found {
                let ghost old_keys = keys@;
                keys.push(b.clone());
                proof {
                    assert((keys@[keys@.len() - 1])@ == b@);
                    assert forall|bb: Seq<char>| keys_contain(old_keys, bb) implies keys_contain(
                        keys@,
                        bb,
                    ) by {
                        let m = choose|m: int| 0 <= m < old_keys.len() && (old_keys[m])@ == bb;
                        assert((keys@[m])@ == bb);
                    }
                    assert(some_future_building(events@, now, b@));
                }
            }
        }
        k += 1;
    }
    keys
}

/// The distinct (building, room) pairs of the future events, first seen
/// first.
fn distinct_future_rooms(events: &Vec<Event>, now: u64) -> (r: Vec<(String, String)>)
    ensures
        forall|i: int, j: int|
            0 <= i < j < r@.len() ==> !(r@[i].0@ == r@[j].0@ && r@[i].1@ == r@[j].1@),
        forall|i: int|
            #![trigger r@[i]]
            0 <= i < r@.len() ==> some_future_room(events@, now, r@[i].0@, r@[i].1@),
        forall|k: int|
            0 <= k < events@.len() && (#[trigger] events@[k]).timestamp > now ==> pair_keys_contain(
                r@,
                events@[k].building@,
                events@[k].room@,
            ),
{
    let mut keys: Vec<(String, String)> = Vec::new();
    let mut k: usize = 0;
    while k < events.len()
        invariant
            k <= events@.len(),
            forall|i: int, j: int|
                0 <= i < j < keys@.len() ==> !(keys@[i].0@ == keys@[j].0@ && keys@[i].1@
                    == keys@[j].1@),
            forall|i: int|
                #![trigger keys@[i]]
                0 <= i < keys@.len() ==> some_future_room(events@, now, keys@[i].0@, keys@[i].1@),
            forall|m: int|
                0 <= m < k && (#[trigger] events@[m]).timestamp > now ==> pair_keys_contain(
                    keys@,
                    events@[m].building@,
                    events@[m].room@,
                ),
        decreases events@.len() - k,
    {
        if events[k].timestamp > now {
            let b = &events[k].building;
            let rm = &events[k].room;
            let mut found = false;
            let mut i: usize = 0;
            while i < keys.len()
                invariant
                    i <= keys@.len(),
                    found ==> pair_keys_contain(keys@, b@, rm@),
                    !found ==> forall|m: int|
                        0 <= m < i ==> !((#[trigger] keys@[m]).0@ == b@ && keys@[m].1@ == rm@),
                decreases keys@.len() - i,
            {
                if str_eq(keys[i].0.as_str(), b.as_str()) && str_eq(
                    keys[i].1.as_str(),
                    rm.as_str(),
                ) {
                    found = true;
                    proof {
                        assert(keys@[i as int].0@ == b@ && keys@[i as int].1@ == rm@);
                    }
                }
                i += 1;
            }
            if !found {
                let ghost old_keys = keys@;
                keys.push((b.clone(), rm.clone()));
                proof {
                    assert(keys@[keys@.len() - 1].0@ == b@ && keys@[keys@.len() - 1].1@ == rm@);
                    assert forall|bb: Seq<char>, rr: Seq<char>|
                        pair_keys_contain(old_keys, bb, rr) implies pair_keys_contain(
                        keys@,
                        bb,
                        rr,
                    ) by {
                        let m = choose|m: int|
                            0 <= m < old_keys.len() && (old_keys[m]).0@ == bb && old_keys[m].1@
                                == rr;
                        assert(keys@[m].0@ == bb && keys@[m].1@ == rr);
                    }
                    assert(some_future_room(events@, now, b@, rm@));
                }
            }
        }
        k += 1;
    }
    keys
}


/// True of the bytes that form-urlencoding passes through unchanged:
/// ASCII alphanumerics and `*`, `-`, `.`, `_`.
pub open spec fn urlencode_keeps(b: u8) -> bool {
    ||| b == 0x2A
    ||| b == 0x2D
    ||| b == 0x2E
    ||| 0x30 <= b <= 0x39
    ||| 0x41 <= b <= 0x5A
    ||| b == 0x5F
    ||| 0x61 <= b <= 0x7A
}

/// The upper-case hex digit of a value below sixteen.
pub open spec fn hex_upper_char(n: u8) -> char {
    if n < 10 {
        (0x30 + n) as char
    } else {
        (0x37 + n) as char
    }
}

/// How one byte is form-urlencoded: kept, a space as `+`, anything
/// else as `%XX` with upper-case hex.
pub open spec fn urlencoded_byte(b: u8) -> Seq<char> {
    if urlencode_keeps(b) {
        seq![b as char]
    } else if b == 0x20 {
        seq!['+']
    } else {
        seq!['%', hex_upper_char(b / 16), hex_upper_char(b % 16)]
    }
}

/// A byte string form-urlencoded, byte for byte.
pub open spec fn urlencoded(bytes: Seq<u8>) -> Seq<char>
    decreases bytes.len(),
{
    if bytes.len() == 0 {
        Seq::empty()
    } else {
        urlencoded_byte(bytes.first()) + urlencoded(bytes.drop_first())
    }
}

/// A topic string as it goes on the wire: its UTF-8 bytes,
/// form-urlencoded.
pub open spec fn topic_encoded(t: Seq<char>) -> Seq<char> {
    urlencoded(encode_utf8(t))
}

/// Relies on url::form_urlencoded::byte_serialize over the topic's
/// UTF-8 bytes: ASCII alphanumerics and `*-._` stay as they are, a
/// space becomes `+`, and every other byte becomes `%XX` with
/// upper-case hex.
#[verifier::external_body]
fn urlencode(s: &str) -> (r: String)
    ensures
        r@ == topic_encoded(s@),
{
    url::form_urlencoded::byte_serialize(s.as_bytes()).collect()
}

/// The topic of a room group, before encoding.
pub open spec fn room_topic(b: Seq<char>, rm: Seq<char>) -> Seq<char> {
    b + seq!['/'] + rm
}

fn make_room_topic(b: &str, rm: &str) -> (r: String)
    ensures
        r@ == room_topic(b@, rm@),
{
    let s = String::from_str(b).concat("/").concat(rm);
    proof {
        reveal_strlit("/");
        assert("/"@ =~= seq!['/']);
    }
    s
}

/// One message to send: an ordered group of events under a topic, with
/// the encoded form the transport expects. The send asks the transport
/// to retain the last message per topic, so late subscribers still
/// receive current state.
pub struct Publication {
    pub topic: String,
    pub encoded_topic: String,
    pub events: Vec<Event>,
}

/// The building whose group this publication carries.
pub open spec fn group_building(p: Publication) -> Seq<char>
    recommends
        p.events@.len() > 0,
{
    p.events@[0].building@
}

/// The room whose group this publication carries.
pub open spec fn group_room(p: Publication) -> Seq<char>
    recommends
        p.events@.len() > 0,
{
    p.events@[0].room@
}

/// True when some publication in the list addresses this building.
pub open spec fn has_building_publication(ps: Seq<Publication>, b: Seq<char>) -> bool {
    exists|i: int| 0 <= i < ps.len() && (#[trigger] ps[i]).topic@ == b
}

/// True when some publication in the list addresses this room.
pub open spec fn has_room_publication(ps: Seq<Publication>, b: Seq<char>, rm: Seq<char>) -> bool {
    exists|i: int|
        0 <= i < ps.len() && (#[trigger] ps[i]).events@.len() > 0 && group_building(ps[i]) == b
            && group_room(ps[i]) == rm
}

/// A group whose contents equal a building filter, as a multiset,
/// holds only future events of that building, and as many as the
/// filter holds.
proof fn lemma_building_group_elements(events: Seq<Event>, now: u64, b: Seq<char>, g: Seq<Event>)
    requires
        g.to_multiset() == building_filter(events, now, b).to_multiset(),
    ensures
        g.len() == building_filter(events, now, b).len(),
        forall|k: int|
            0 <= k < g.len() ==> (#[trigger] g[k]).building@ == b && g[k].timestamp > now,
{
    broadcast use vstd::seq_lib::group_to_multiset_ensures;

    let filt = building_filter(events, now, b);
    assert(g.len() == g.to_multiset().len());
    assert(filt.len() == filt.to_multiset().len());
    assert forall|k: int| 0 <= k < g.len() implies (#[trigger] g[k]).building@ == b
        && g[k].timestamp > now by {
        assert(g.contains(g[k]));
        assert(g.to_multiset().count(g[k]) > 0);
        assert(filt.to_multiset().count(g[k]) > 0);
        assert(filt.contains(g[k]));
        let idx = choose|idx: int| 0 <= idx < filt.len() && filt[idx] == g[k];
        events.lemma_filter_pred(building_pred(now, b), idx);
    }
}

/// The room counterpart of the building group lemma.
proof fn lemma_room_group_elements(
    events: Seq<Event>,
    now: u64,
    b: Seq<char>,
    rm: Seq<char>,
    g: Seq<Event>,
)
    requires
        g.to_multiset() == room_filter(events, now, b, rm).to_multiset(),
    ensures
        g.len() == room_filter(events, now, b, rm).len(),
        forall|k: int|
            0 <= k < g.len() ==> (#[trigger] g[k]).building@ == b && g[k].room@ == rm
                && g[k].timestamp > now,
{
    broadcast use vstd::seq_lib::group_to_multiset_ensures;

    let filt = room_filter(events, now, b, rm);
    assert(g.len() == g.to_multiset().len());
    assert(filt.len() == filt.to_multiset().len());
    assert forall|k: int| 0 <= k < g.len() implies (#[trigger] g[k]).building@ == b && g[k].room@
        == rm && g[k].timestamp > now by {
        assert(g.contains(g[k]));
        assert(g.to_multiset().count(g[k]) > 0);
        assert(filt.to_multiset().count(g[k]) > 0);
        assert(filt.contains(g[k]));
        let idx = choose|idx: int| 0 <= idx < filt.len() && filt[idx] == g[k];
        events.lemma_filter_pred(room_pred(now, b, rm), idx);
    }
}

impl EventList {
    /// One publication per building that still has a future event: the
    /// topic is the building label itself; the group holds exactly the
    /// future events of that building, ordered by timestamp. Every
    /// future event falls in exactly one group; no past event appears
    /// anywhere.
    pub fn building_publications(&self, now: u64) -> (r: Vec<Publication>)
        ensures
            forall|i: int, j: int|
                0 <= i < j < r@.len() ==> (#[trigger] r@[i]).topic@ != (#[trigger] r@[j]).topic@,
            forall|i: int|
                #![trigger r@[i]]
                0 <= i < r@.len() ==> {
                    let p = r@[i];
                    &&& p.events@.len() > 0
                    &&& p.encoded_topic@ == topic_encoded(p.topic@)
                    &&& sorted_by_ts(p.events@)
                    &&& p.events@.to_multiset() == building_filter(
                        self.events@,
                        now,
                        p.topic@,
                    ).to_multiset()
                    &&& forall|k: int|
                        0 <= k < p.events@.len() ==> (#[trigger] p.events@[k]).building@
                            == p.topic@ && p.events@[k].timestamp > now
                },
            forall|k: int|
                0 <= k < self.events@.len() && (#[trigger] self.events@[k]).timestamp > now
                    ==> has_building_publication(r@, self.events@[k].building@),
            forall|i: int, j: int, k1: int, k2: int|
                #![trigger r@[i].events@[k1], r@[j].events@[k2]]
                0 <= i < r@.len() && 0 <= j < r@.len() && 0 <= k1 < r@[i].events@.len() && 0 <= k2
                    < r@[j].events@.len() && r@[i].events@[k1] == r@[j].events@[k2] ==> i == j,
    {
        let keys = distinct_future_buildings(&self.events, now);
        let mut out: Vec<Publication> = Vec::new();
        let mut i: usize = 0;
        while i < keys.len()
            invariant
                i <= keys@.len(),
                out@.len() == i,
                forall|a: int, c: int| 0 <= a < c < keys@.len() ==> keys@[a]@ != keys@[c]@,
                forall|a: int|
                    0 <= a < keys@.len() ==> some_future_building(
                        self.events@,
                        now,
                        (#[trigger] keys@[a])@,
                    ),
                forall|m: int|
                    0 <= m < i ==> (#[trigger] out@[m]).topic@ == keys@[m]@,
                forall|m: int|
                    #![trigger out@[m]]
                    0 <= m < i ==> {
                        let p = out@[m];
                        &&& p.events@.len() > 0
                        &&& p.encoded_topic@ == topic_encoded(p.topic@)
                        &&& sorted_by_ts(p.events@)
                        &&& p.events@.to_multiset() == building_filter(
                            self.events@,
                            now,
                            p.topic@,
                        ).to_multiset()
                        &&& forall|k: int|
                            0 <= k < p.events@.len() ==> (#[trigger] p.events@[k]).building@
                                == p.topic@ && p.events@[k].timestamp > now
                    },
            decreases keys@.len() - i,
        {
            let b = &keys[i];
            let evs = events_with_building(&self.events, now, b.as_str());
            let sorted = sort_events_by_timestamp(evs);
            proof {
                broadcast use vstd::seq_lib::group_filter_ensures;

                lemma_building_group_elements(self.events@, now, b@, sorted@);
                let k = choose|k: int|
                    0 <= k < self.events@.len() && (#[trigger] self.events@[k]).timestamp > now
                        && self.events@[k].building@ == b@;
                self.events@.lemma_filter_contains(building_pred(now, b@), k);
                assert(building_filter(self.events@, now, b@).contains(self.events@[k]));
            }
            let encoded = urlencode(b.as_str());
            let p = Publication { topic: b.clone(), encoded_topic: encoded, events: sorted };
            out.push(p);
            i += 1;
        }
        proof {
            assert forall|k: int|
                0 <= k < self.events@.len() && (#[trigger] self.events@[k]).timestamp > now implies
                has_building_publication(out@, self.events@[k].building@) by {
                let m = choose|m: int|
                    0 <= m < keys@.len() && ((#[trigger] keys@[m])@ == self.events@[k].building@);
                assert((out@[m]).topic@ == self.events@[k].building@);
            }
        }
        out
    }

    /// One publication per (building, room) pair that still has a
    /// future event: the topic is the building and the room joined by a
    /// slash; the group holds exactly the future events of that room,
    /// ordered by timestamp. Every future event falls in exactly one
    /// group; no past event appears anywhere.
    pub fn room_publications(&self, now: u64) -> (r: Vec<Publication>)
        ensures
            forall|i: int, j: int|
                0 <= i < j < r@.len() ==> !(group_building(#[trigger] r@[i]) == group_building(
                    #[trigger] r@[j],
                ) && group_room(r@[i]) == group_room(r@[j])),
            forall|i: int|
                #![trigger r@[i]]
                0 <= i < r@.len() ==> {
                    let p = r@[i];
                    &&& p.events@.len() > 0
                    &&& p.topic@ == room_topic(group_building(p), group_room(p))
                    &&& p.encoded_topic@ == topic_encoded(p.topic@)
                    &&& sorted_by_ts(p.events@)
                    &&& p.events@.to_multiset() == room_filter(
                        self.events@,
                        now,
                        group_building(p),
                        group_room(p),
                    ).to_multiset()
                    &&& forall|k: int|
                        0 <= k < p.events@.len() ==> (#[trigger] p.events@[k]).building@
                            == group_building(p) && p.events@[k].room@ == group_room(p)
                            && p.events@[k].timestamp > now
                },
            forall|k: int|
                0 <= k < self.events@.len() && (#[trigger] self.events@[k]).timestamp > now
                    ==> has_room_publication(
                    r@,
                    self.events@[k].building@,
                    self.events@[k].room@,
                ),
            forall|i: int, j: int, k1: int, k2: int|
                #![trigger r@[i].events@[k1], r@[j].events@[k2]]
                0 <= i < r@.len() && 0 <= j < r@.len() && 0 <= k1 < r@[i].events@.len() && 0 <= k2
                    < r@[j].events@.len() && r@[i].events@[k1] == r@[j].events@[k2] ==> i == j,
    {
        let keys = distinct_future_rooms(&self.events, now);
        let mut out: Vec<Publication> = Vec::new();
        let mut i: usize = 0;
        while i < keys.len()
            invariant
                i <= keys@.len(),
                out@.len() == i,
                forall|a: int, c: int|
                    0 <= a < c < keys@.len() ==> !(keys@[a].0@ == keys@[c].0@ && keys@[a].1@
                        == keys@[c].1@),
                forall|a: int|
                    #![trigger keys@[a]]
                    0 <= a < keys@.len() ==> some_future_room(
                        self.events@,
                        now,
                        keys@[a].0@,
                        keys@[a].1@,
                    ),
                forall|m: int|
                    #![trigger out@[m]]
                    0 <= m < i ==> out@[m].events@.len() > 0 && group_building(out@[m])
                        == keys@[m].0@ && group_room(out@[m]) == keys@[m].1@,
                forall|m: int|
                    #![trigger out@[m]]
                    0 <= m < i ==> {
                        let p = out@[m];
                        &&& p.topic@ == room_topic(group_building(p), group_room(p))
                        &&& p.encoded_topic@ == topic_encoded(p.topic@)
                        &&& sorted_by_ts(p.events@)
                        &&& p.events@.to_multiset() == room_filter(
                            self.events@,
                            now,
                            group_building(p),
                            group_room(p),
                        ).to_multiset()
                        &&& forall|k: int|
                            0 <= k < p.events@.len() ==> (#[trigger] p.events@[k]).building@
                                == group_building(p) && p.events@[k].room@ == group_room(p)
                                && p.events@[k].timestamp > now
                    },
            decreases keys@.len() - i,
        {
            let b = keys[i].0.clone();
            let rm = keys[i].1.clone();
            let evs = events_with_room(&self.events, now, b.as_str(), rm.as_str());
            let sorted = sort_events_by_timestamp(evs);
            proof {
                broadcast use vstd::seq_lib::group_filter_ensures;

                lemma_room_group_elements(self.events@, now, b@, rm@, sorted@);
                let k = choose|k: int|
                    0 <= k < self.events@.len() && (#[trigger] self.events@[k]).timestamp > now
                        && self.events@[k].building@ == b@ && self.events@[k].room@ == rm@;
                self.events@.lemma_filter_contains(room_pred(now, b@, rm@), k);
                assert(room_filter(self.events@, now, b@, rm@).contains(self.events@[k]));
            }
            let topic = make_room_topic(b.as_str(), rm.as_str());
            let encoded = urlencode(topic.as_str());
            let p = Publication { topic, encoded_topic: encoded, events: sorted };
            proof {
                assert(group_building(p) == b@ && group_room(p) == rm@);
            }
            out.push(p);
            i += 1;
        }
        proof {
            assert forall|k: int|
                0 <= k < self.events@.len() && (#[trigger] self.events@[k]).timestamp > now implies
                has_room_publication(
                    out@,
                    self.events@[k].building@,
                    self.events@[k].room@,
                ) by {
                let m = choose|m: int|
                    0 <= m < keys@.len() && ((#[trigger] keys@[m]).0@ == self.events@[k].building@
                        && keys@[m].1@ == self.events@[k].room@);
                assert(out@[m].events@.len() > 0 && group_building(out@[m]) == self.events@[k].building@ && group_room(out@[m]) == self.events@[k].room@);
            }
        }
        out
    }
}

} // verus!
