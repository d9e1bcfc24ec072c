//! The shared `Event` record, the list of stored events, and the decoding
//! of an event from a raw store record.

use vstd::prelude::*;
use crate::text::str_eq;

verus! {

/// The unit of scheduling information, created once by the interaction
/// gateway and read by the distribution job.
///
/// `timestamp` holds the Unix-epoch-seconds equivalent of `datetime`,
/// computed once at creation; the stored value is authoritative for every
/// later comparison.
#[derive(Debug)]
pub struct Event {
    pub id: String,
    pub title: String,
    pub description: String,
    pub timestamp: u64,
    pub datetime: String,
    pub building: String,
    pub room: String,
}

impl Clone for Event {
    fn clone(&self) -> (r: Event)
        ensures
            r == *self,
    {
        Event {
            id: self.id.clone(),
            title: self.title.clone(),
            description: self.description.clone(),
            timestamp: self.timestamp,
            datetime: self.datetime.clone(),
            building: self.building.clone(),
            room: self.room.clone(),
        }
    }
}

/// The event record as a subscriber of a notification channel reads it
/// back from a published group.
pub struct SEvent {
    pub id: String,
    pub title: String,
    pub timestamp: u64,
    pub datetime: String,
    pub building: String,
    pub room: String,
}

/// One attribute of a raw store record: a string value, a numeric value
/// carried as its decimal text, or a value of any other shape.
pub enum Attr {
    S(String),
    N(String),
    Other,
}

/// True of a decimal digit.
pub open spec fn is_digit(c: char) -> bool {
    '0' <= c && c <= '9'
}

/// The numeric value of a decimal digit.
pub open spec fn digit_val(c: char) -> int {
    c as int - 48
}

/// The value of a string of decimal digits, most significant first.
pub open spec fn dec_value(s: Seq<char>) -> int
    decreases s.len(),
{
    if s.len() == 0 {
        0
    } else {
        dec_value(s.drop_last()) * 10 + digit_val(s.last())
    }
}

/// True of exactly the strings that decode to a `u64`: nonempty, all
/// digits, and within range.
pub open spec fn is_u64_decimal(s: Seq<char>) -> bool {
    &&& s.len() > 0
    &&& forall|i: int| 0 <= i < s.len() ==> is_digit(#[trigger] s[i])
    &&& dec_value(s) <= u64::MAX
}

proof fn lemma_dec_value_nonneg(s: Seq<char>)
    requires
        forall|i: int| 0 <= i < s.len() ==> is_digit(#[trigger] s[i]),
    ensures
        dec_value(s) >= 0,
    decreases s.len(),
{
    if s.len() > 0 {
        lemma_dec_value_nonneg(s.drop_last());
    }
}

/// Reads a `u64` from its decimal text; `None` on anything else.
pub fn parse_u64(s: &str) -> (r: Option<u64>)
    ensures
        r is Some <==> is_u64_decimal(s@),
        r matches Some(v) ==> v == dec_value(s@),
{
    let n = s.unicode_len();
    if n == 0 {
        return None;
    }
    let mut acc: u64 = 0;
    let mut i: usize = 0;
    while i < n
        invariant
            0 < n == s@.len(),
            i <= n,
            forall|k: int| 0 <= k < i ==> is_digit(#[trigger] s@[k]),
            acc == dec_value(s@.take(i as int)),
        decreases n - i,
    {
        let c = s.get_char(i);
        let v = c as u32;
        if v < 48 || v > 57 {
            assert(!is_digit(s@[i as int]));
            return None;
        }
        let d = (v - 48) as u64;
        proof {
            lemma_dec_value_nonneg(s@.take(i as int));
        }
        if acc > (0xFFFF_FFFF_FFFF_FFFFu64 - d) / 10 {
            proof {
                assert(s@.take(i as int + 1).drop_last() =~= s@.take(i as int));
                assert(s@.take(i as int + 1).last() == s@[i as int]);
                assert(dec_value(s@.take(i as int + 1)) > u64::MAX) by (nonlinear_arith)
                    requires
                        dec_value(s@.take(i as int + 1)) == dec_value(s@.take(i as int)) * 10
                            + digit_val(s@[i as int]),
                        dec_value(s@.take(i as int)) == acc,
                        digit_val(s@[i as int]) == d,
                        acc > (0xFFFF_FFFF_FFFF_FFFFu64 - d) / 10,
                        0 <= d <= 9,
                ;
                assert(!is_u64_decimal(s@)) by {
                    if forall|k: int| 0 <= k < s@.len() ==> is_digit(#[trigger] s@[k]) {
                        lemma_dec_value_prefix_grows(s@, i as int + 1);
                    }
                }
            }
            return None;
        }
        proof {
            assert(acc * 10 + d <= u64::MAX) by (nonlinear_arith)
                requires
                    0 <= acc,
                    0 <= d <= 9,
                    acc <= (0xFFFF_FFFF_FFFF_FFFFu64 - d) / 10,
            ;
            assert(s@.take(i as int + 1).drop_last() =~= s@.take(i as int));
            assert(s@.take(i as int + 1).last() == s@[i as int]);
        }
        acc = acc * 10 + d;
        i += 1;
    }
    proof {
        assert(s@.take(n as int) =~= s@);
    }
    Some(acc)
}

/// If a prefix of a digit string is already out of `u64` range, the whole
/// string is too: appending digits can only grow the value.
proof fn lemma_dec_value_prefix_grows(s: Seq<char>, m: int)
    requires
        0 <= m <= s.len(),
        forall|i: int| 0 <= i < s.len() ==> is_digit(#[trigger] s[i]),
        dec_value(s.take(m)) > u64::MAX,
    ensures
        dec_value(s) > u64::MAX,
    decreases s.len() - m,
{
    if m < s.len() {
        let t = s.take(m + 1);
        assert(t.drop_last() =~= s.take(m));
        assert(is_digit(s[m]));
        assert(dec_value(t) == dec_value(s.take(m)) * 10 + digit_val(s[m]));
        assert(dec_value(t) > u64::MAX) by (nonlinear_arith)
            requires
                dec_value(t) == dec_value(s.take(m)) * 10 + digit_val(s[m]),
                dec_value(s.take(m)) > u64::MAX,
                digit_val(s[m]) >= 0,
        ;
        lemma_dec_value_prefix_grows(s, m + 1);
    } else {
        assert(s.take(m) =~= s);
    }
}

/// The first attribute stored under `key`, if any.
pub open spec fn spec_attr_get(rec: Seq<(String, Attr)>, key: Seq<char>) -> Option<Attr>
    decreases rec.len(),
{
    if rec.len() == 0 {
        None
    } else if rec.first().0@ == key {
        Some(rec.first().1)
    } else {
        spec_attr_get(rec.drop_first(), key)
    }
}

/// Looks an attribute up by name.
pub fn attr_get<'a>(rec: &'a Vec<(String, Attr)>, key: &str) -> (r: Option<&'a Attr>)
    ensures
        r matches Some(a) ==> spec_attr_get(rec@, key@) == Some(*a),
        r is None <==> spec_attr_get(rec@, key@) is None,
{
    let mut i: usize = 0;
    proof {
        assert(rec@.skip(0) =~= rec@);
    }
    while i < rec.len()
        invariant
            i <= rec@.len(),
            spec_attr_get(rec@, key@) == spec_attr_get(rec@.skip(i as int), key@),
        decreases rec@.len() - i,
    {
        proof {
            assert(rec@.skip(i as int).first() == rec@[i as int]);
            assert(rec@.skip(i as int).drop_first() =~= rec@.skip(i as int + 1));
        }
        if str_eq(rec[i].0.as_str(), key) {
            return Some(&rec[i].1);
        }
        i += 1;
    }
    None
}

/// The string attribute stored under `key`, or `None` when it is absent
/// or not a string.
pub open spec fn spec_s_attr(rec: Seq<(String, Attr)>, key: Seq<char>) -> Option<String> {
    match spec_attr_get(rec, key) {
        Some(Attr::S(s)) => Some(s),
        _ => None,
    }
}

/// What `Event::from_hashmap` yields: an event is decoded exactly when
/// the six text fields are present as strings and `timestamp` is present
/// as a number whose text decodes to a `u64`.
pub open spec fn spec_event_of_record(rec: Seq<(String, Attr)>) -> Option<Event> {
    match (
        spec_s_attr(rec, "id"@),
        spec_s_attr(rec, "title"@),
        spec_s_attr(rec, "description"@),
        spec_s_attr(rec, "datetime"@),
        spec_s_attr(rec, "building"@),
        spec_s_attr(rec, "room"@),
        spec_attr_get(rec, "timestamp"@),
    ) {
        (
            Some(id),
            Some(title),
            Some(description),
            Some(datetime),
            Some(building),
            Some(room),
            Some(Attr::N(ts)),
        ) => if is_u64_decimal(ts@) {
            Some(
                Event {
                    id,
                    title,
                    description,
                    timestamp: dec_value(ts@) as u64,
                    datetime,
                    building,
                    room,
                },
            )
        } else {
            None
        },
        _ => None,
    }
}

impl Event {
    /// Decodes one scanned store record into an event; `None` when a
    /// field is missing, has the wrong shape, or the timestamp text is
    /// not a `u64`.
    pub fn from_hashmap(rec: &Vec<(String, Attr)>) -> (r: Option<Event>)
        ensures
            r == spec_event_of_record(rec@),
    {
        let id = match attr_get(rec, "id") {
            Some(Attr::S(s)) => s.clone(),
            _ => { return None; },
        };
        let title = match attr_get(rec, "title") {
            Some(Attr::S(s)) => s.clone(),
            _ => { return None; },
        };
        let description = match attr_get(rec, "description") {
            Some(Attr::S(s)) => s.clone(),
            _ => { return None; },
        };
        let datetime = match attr_get(rec, "datetime") {
            Some(Attr::S(s)) => s.clone(),
            _ => { return None; },
        };
        let building = match attr_get(rec, "building") {
            Some(Attr::S(s)) => s.clone(),
            _ => { return None; },
        };
        let room = match attr_get(rec, "room") {
            Some(Attr::S(s)) => s.clone(),
            _ => { return None; },
        };
        let timestamp = match attr_get(rec, "timestamp") {
            Some(Attr::N(s)) => match parse_u64(s.as_str()) {
                Some(v) => v,
                None => { return None; },
            },
            _ => { return None; },
        };
        Some(Event { id, title, description, timestamp, datetime, building, room })
    }
}

/// The stored events whose timestamp lies strictly after `now`.
pub open spec fn future_of(events: Seq<Event>, now: u64) -> Seq<Event> {
    events.filter(|e: Event| e.timestamp > now)
}

/// The events read back from one full store scan.
pub struct EventList {
    pub events: Vec<Event>,
}

impl EventList {
    pub fn new(events: Vec<Event>) -> (r: Self)
        ensures
            r.events == events,
    {
        Self { events }
    }

    /// The stored events that have not yet occurred: exactly those whose
    /// timestamp lies strictly after `now_unix`, in stored order.
    pub fn get_future_events(&self, now_unix: u64) -> (r: Vec<Event>)
        ensures
            r@ == future_of(self.events@, now_unix),
    {
        let mut out: Vec<Event> = Vec::new();
        let mut i: usize = 0;
        proof {
            assert(future_of(self.events@.take(0), now_unix) =~= Seq::<Event>::empty()) by {
                reveal(Seq::filter);
            }
        }
        while i < self.events.len()
            invariant
                i <= self.events@.len(),
                out@ == future_of(self.events@.take(i as int), now_unix),
            decreases self.events@.len() - i,
        {
            proof {
                let pred = |e: Event| e.timestamp > now_unix;
                let t = self.events@.take(i as int + 1);
                assert(t.drop_last() =~= self.events@.take(i as int));
                assert(t.last() == self.events@[i as int]);
                reveal(Seq::filter);
                assert(future_of(t, now_unix) == if pred(self.events@[i as int]) {
                    future_of(self.events@.take(i as int), now_unix).push(self.events@[i as int])
                } else {
                    future_of(self.events@.take(i as int), now_unix)
                });
            }
            if self.events[i].timestamp > now_unix {
                out.push(self.events[i].clone());
            }
            i += 1;
        }
        proof {
            assert(self.events@.take(self.events@.len() as int) =~= self.events@);
        }
        out
    }
}

} // verus!
