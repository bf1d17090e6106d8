//! The values exchanged with the service: events, buckets and server info.

use vstd::prelude::*;
pub use crate::json::{data_get, lookup};
use crate::json::{JsonValue, json_eq, json_equal};

verus! {

/// A key/value payload: each entry is a key and its JSON value.
pub type DataMap = Vec<(String, JsonValue)>;

/// Two payloads hold the same keys, and under each key deeply equal
/// values: map equality, for payloads whose keys are unique.
pub open spec fn data_eq(a: Seq<(String, JsonValue)>, b: Seq<(String, JsonValue)>) -> bool {
    (forall|i: int|
        0 <= i < a.len() ==> match lookup(b, (#[trigger] a[i]).0@) {
            Some(w) => json_eq(a[i].1, w),
            None => false,
        }) && (forall|j: int| 0 <= j < b.len() ==> lookup(a, (#[trigger] b[j]).0@) is Some)
}

fn data_equal(a: &DataMap, b: &DataMap) -> (r: bool)
    ensures
        r == data_eq(a@, b@),
{
    let mut i: usize = 0;
    while i < a.len()
        invariant
            i <= a.len(),
            forall|k: int|
                0 <= k < i ==> match lookup(b@, (#[trigger] a@[k]).0@) {
                    Some(w) => json_eq(a@[k].1, w),
                    None => false,
                },
        decreases a.len() - i,
    {
        match data_get(b, &a[i].0) {
            Some(w) => {
                if !json_equal(&a[i].1, w) {
                    return false;
                }
            },
            None => {
                return false;
            },
        }
        i += 1;
    }
    let mut j: usize = 0;
    while j < b.len()
        invariant
            j <= b.len(),
            forall|k: int| 0 <= k < j ==> lookup(a@, (#[trigger] b@[k]).0@) is Some,
        decreases b.len() - j,
    {
        if data_get(a, &b[j].0).is_none() {
            return false;
        }
        j += 1;
    }
    true
}

/// A time-stamped record with a free-form payload.
#[derive(Debug)]
pub struct Event {
    /// Row id, absent until the service has stored the event.
    pub id: Option<i64>,
    /// Start of the event, in nanoseconds since the Unix epoch (UTC).
    pub timestamp: i64,
    /// Length of the event, in nanoseconds.
    pub duration: i64,
    pub data: DataMap,
}

impl Event {
    /// An event with no id and the given time, length and payload.
    pub fn new(timestamp: i64, duration: i64, data: DataMap) -> (r: Event)
        ensures
            r.id is None,
            r.timestamp == timestamp,
            r.duration == duration,
            r.data == data,
    {
        Event { id: None, timestamp, duration, data }
    }

    /// The value stored under `key` in this event's payload.
    pub fn get(&self, key: &String) -> (r: Option<&JsonValue>)
        ensures
            match r {
                Some(v) => lookup(self.data@, key@) == Some(*v),
                None => lookup(self.data@, key@) is None,
            },
    {
        data_get(&self.data, key)
    }
}

/// Events are equal when id, timestamp, duration and payload are.
pub open spec fn event_eq(a: Event, b: Event) -> bool {
    a.id == b.id && a.timestamp == b.timestamp && a.duration == b.duration && data_eq(
        a.data@,
        b.data@,
    )
}

impl PartialEq for Event {
    fn eq(&self, other: &Event) -> (r: bool) {
        self.id == other.id && self.timestamp == other.timestamp && self.duration == other.duration
            && data_equal(&self.data, &other.data)
    }
}

impl vstd::std_specs::cmp::PartialEqSpecImpl for Event {
    open spec fn obeys_eq_spec() -> bool {
        false
    }

    open spec fn eq_spec(&self, other: &Event) -> bool {
        event_eq(*self, *other)
    }
}

/// Optional time bounds of a bucket's contents.
#[derive(Debug)]
pub struct BucketMetadata {
    /// Earliest event start, nanoseconds since the Unix epoch.
    pub start: Option<i64>,
    /// Latest event end, nanoseconds since the Unix epoch.
    pub end: Option<i64>,
}

impl BucketMetadata {
    /// Metadata with no bounds.
    pub fn empty() -> (r: BucketMetadata)
        ensures
            r.start is None,
            r.end is None,
    {
        BucketMetadata { start: None, end: None }
    }
}

/// A named container of events of one type, owned by one client on one host.
#[derive(Debug)]
pub struct Bucket {
    /// Row id, assigned by the service.
    pub bid: Option<i64>,
    pub id: String,
    /// The bucket's type tag (`type` on the wire).
    pub _type: String,
    pub client: String,
    pub hostname: String,
    pub created: Option<i64>,
    pub data: DataMap,
    pub metadata: BucketMetadata,
    pub events: Option<Vec<Event>>,
    pub last_updated: Option<i64>,
}

/// A snapshot of the service's identity.
#[derive(Debug)]
pub struct Info {
    pub hostname: String,
    pub testing: bool,
}

} // verus!
