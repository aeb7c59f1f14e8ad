//! The finished span record handed to the exporter: identity, timing,
//! attributes, events, links and status.

use crate::span_context::{SpanContext, SpanId};
use crate::trace_state::{
    has_key, keys_unique, lemma_without_absent_key, lemma_without_key, lemma_without_key_at,
    without_key,
};
use vstd::prelude::*;

verus! {

/// An attribute value. A double is carried as its IEEE-754 bit pattern
/// (`f64::to_bits`), which is all the exporter needs of it.
#[derive(Debug, PartialEq, Eq)]
pub enum Value {
    Bool(bool),
    I64(i64),
    U64(u64),
    F64(u64),
    String(String),
    Bytes(Vec<u8>),
    Array(Vec<Value>),
}

/// A named attribute value.
#[derive(Debug, PartialEq, Eq)]
pub struct Attribute {
    pub key: String,
    pub value: Value,
}

impl Attribute {
    pub fn new(key: &str, value: Value) -> (r: Attribute)
        ensures
            r.key@ == key@,
            r.value == value,
    {
        Attribute { key: String::from_str(key), value }
    }
}

/// Attributes as `(key, value)` pairs.
pub open spec fn attribute_pairs(attrs: Seq<Attribute>) -> Seq<(Seq<char>, Value)> {
    attrs.map_values(|a: Attribute| (a.key@, a.value))
}

/// The contents of a bounded attribute map.
pub struct EvictedHashMapView {
    /// Entries from least to most recently inserted or updated.
    pub entries: Seq<(Seq<char>, Value)>,
    pub capacity: u32,
    /// How many entries were evicted to respect the capacity.
    pub dropped_count: u32,
}

/// `n + 1`, held at `u32::MAX`.
pub open spec fn count_one_more(n: u32) -> u32 {
    if n < u32::MAX {
        (n + 1) as u32
    } else {
        n
    }
}

/// Sets `key` to `value` as the most recent entry; when that leaves more
/// entries than the capacity, the least recent one is evicted and counted.
pub open spec fn evicted_insert(m: EvictedHashMapView, key: Seq<char>, value: Value) -> EvictedHashMapView {
    let kept = without_key(m.entries, key).push((key, value));
    if kept.len() > m.capacity {
        EvictedHashMapView {
            entries: kept.drop_first(),
            capacity: m.capacity,
            dropped_count: count_one_more(m.dropped_count),
        }
    } else {
        EvictedHashMapView { entries: kept, capacity: m.capacity, dropped_count: m.dropped_count }
    }
}

/// The map after inserting `items` in order.
pub open spec fn insert_all(m: EvictedHashMapView, items: Seq<(Seq<char>, Value)>) -> EvictedHashMapView
    decreases items.len(),
{
    if items.len() == 0 {
        m
    } else {
        evicted_insert(insert_all(m, items.drop_last()), items.last().0, items.last().1)
    }
}

/// How many of `n` distinct insertions a map of capacity `capacity` evicts.
pub open spec fn evictions(n: nat, capacity: nat) -> nat {
    if n <= capacity {
        0
    } else {
        (n - capacity) as nat
    }
}

/// Inserting attributes with distinct keys into an empty map keeps the most
/// recent `capacity` of them, in order, and counts every other one as
/// dropped.
pub proof fn lemma_distinct_inserts(capacity: u32, items: Seq<(Seq<char>, Value)>)
    requires
        keys_unique(items),
        items.len() < u32::MAX,
    ensures
        ({
            let r = insert_all(
                EvictedHashMapView {
                    entries: Seq::empty(),
                    capacity,
                    dropped_count: 0,
                },
                items,
            );
            let dropped = evictions(items.len(), capacity as nat);
            &&& r.entries == items.subrange(dropped as int, items.len() as int)
            &&& r.dropped_count == dropped
            &&& r.capacity == capacity
        }),
    decreases items.len(),
{
    let empty = EvictedHashMapView { entries: Seq::empty(), capacity, dropped_count: 0 };
    let n = items.len();
    if n == 0 {
        assert(items.subrange(0, 0) =~= Seq::<(Seq<char>, Value)>::empty());
    } else {
        let d = items.drop_last();
        let last = items.last();
        assert(keys_unique(d)) by {
            assert forall|i: int, j: int|
                0 <= i < d.len() && 0 <= j < d.len() && i != j implies d[i].0 != d[j].0 by {
                assert(d[i] == items[i] && d[j] == items[j]);
            }
        }
        lemma_distinct_inserts(capacity, d);
        let p = insert_all(empty, d);
        let s = evictions(d.len(), capacity as nat);
        assert(!has_key(p.entries, last.0)) by {
            if has_key(p.entries, last.0) {
                let i = choose|i: int| 0 <= i < p.entries.len() && p.entries[i].0 == last.0;
                assert(p.entries[i] == items[s + i]);
            }
        }
        lemma_without_absent_key(p.entries, last.0);
        let kept = p.entries.push(last);
        assert(kept =~= items.subrange(s as int, n as int));
        if kept.len() > capacity {
            assert(kept.drop_first() =~= items.subrange(s as int + 1, n as int));
        }
    }
}

/// An attribute map with a fixed capacity that evicts its least recently
/// updated entry when full, and counts the evictions.
#[derive(Debug)]
pub struct EvictedHashMap {
    entries: Vec<Attribute>,
    capacity: u32,
    dropped_count: u32,
}

impl View for EvictedHashMap {
    type V = EvictedHashMapView;

    closed spec fn view(&self) -> EvictedHashMapView {
        EvictedHashMapView {
            entries: attribute_pairs(self.entries@),
            capacity: self.capacity,
            dropped_count: self.dropped_count,
        }
    }
}

fn attribute_position(entries: &Vec<Attribute>, key: &String) -> (r: Option<usize>)
    ensures
        match r {
            Some(p) => p < entries@.len() && attribute_pairs(entries@)[p as int].0 == key@,
            None => !has_key(attribute_pairs(entries@), key@),
        },
{
    let ghost m = attribute_pairs(entries@);
    let mut i: usize = 0;
    while i < entries.len()
        invariant
            i <= entries@.len(),
            m == attribute_pairs(entries@),
            forall|j: int| 0 <= j < i ==> m[j].0 != key@,
        decreases entries@.len() - i,
    {
        if entries[i].key == *key {
            return Some(i);
        }
        i = i + 1;
    }
    None
}

impl EvictedHashMap {
    #[verifier::type_invariant]
    spec fn well_formed(self) -> bool {
        &&& keys_unique(attribute_pairs(self.entries@))
        &&& self.entries@.len() <= self.capacity
    }

    /// An empty map that holds at most `capacity` entries.
    pub fn new(capacity: u32) -> (r: EvictedHashMap)
        ensures
            r@.entries == Seq::<(Seq<char>, Value)>::empty(),
            r@.capacity == capacity,
            r@.dropped_count == 0,
    {
        let r = EvictedHashMap { entries: Vec::new(), capacity, dropped_count: 0 };
        assert(r@.entries =~= Seq::<(Seq<char>, Value)>::empty());
        r
    }

    /// Inserts or updates an attribute, evicting the least recent entry
    /// when the map would exceed its capacity.
    pub fn insert(&mut self, item: Attribute)
        ensures
            final(self)@ == evicted_insert(old(self)@, item.key@, item.value),
    {
        proof {
            use_type_invariant(&*self);
        }
        let ghost m = attribute_pairs(self.entries@);
        let ghost k = item.key@;
        let mut entries: Vec<Attribute> = Vec::new();
        std::mem::swap(&mut entries, &mut self.entries);
        proof {
            lemma_without_key(m, k);
        }
        match attribute_position(&entries, &item.key) {
            Some(p) => {
                entries.remove(p);
                proof {
                    lemma_without_key_at(m, k, p as int);
                    assert(attribute_pairs(entries@) =~= m.remove(p as int));
                }
            },
            None => {
                proof {
                    lemma_without_absent_key(m, k);
                }
            },
        }
        let ghost w = attribute_pairs(entries@);
        let ghost pushed = (item.key@, item.value);
        entries.push(item);
        proof {
            let e = attribute_pairs(entries@);
            assert(e =~= w.push(pushed));
            assert forall|i: int, j: int|
                0 <= i < e.len() && 0 <= j < e.len() && i != j implies e[i].0 != e[j].0 by {
                if i < w.len() && j < w.len() {
                    assert(e[i] == w[i] && e[j] == w[j]);
                } else if i < w.len() {
                    assert(e[i] == w[i]);
                } else {
                    assert(e[j] == w[j]);
                }
            }
        }
        if entries.len() > self.capacity as usize {
            let ghost full = attribute_pairs(entries@);
            entries.remove(0);
            proof {
                let e = attribute_pairs(entries@);
                assert(e =~= full.drop_first());
                assert forall|i: int, j: int|
                    0 <= i < e.len() && 0 <= j < e.len() && i != j implies e[i].0 != e[j].0 by {
                    assert(e[i] == full[i + 1] && e[j] == full[j + 1]);
                }
            }
            self.entries = entries;
            self.dropped_count = self.dropped_count.saturating_add(1);
        } else {
            self.entries = entries;
        }
    }

    /// The number of entries held.
    pub fn len(&self) -> (r: usize)
        ensures
            r == self@.entries.len(),
    {
        self.entries.len()
    }

    pub fn capacity(&self) -> (r: u32)
        ensures
            r == self@.capacity,
    {
        self.capacity
    }

    /// How many entries were evicted so far.
    pub fn dropped_count(&self) -> (r: u32)
        ensures
            r == self@.dropped_count,
    {
        self.dropped_count
    }

    /// The entry at position `i`, counting from the least recent.
    pub fn entry(&self, i: usize) -> (r: &Attribute)
        requires
            i < self@.entries.len(),
        ensures
            (r.key@, r.value) == self@.entries[i as int],
    {
        &self.entries[i]
    }
}

/// A point in time as the exporter reads it: before the Unix epoch, or a
/// duration after it.
#[derive(Clone, Copy, Debug, PartialEq, Eq)]
pub enum Timestamp {
    BeforeEpoch,
    SinceEpoch { secs: u64, nanos: u32 },
}

/// The role of a span in an interaction.
#[derive(Clone, Copy, Debug, PartialEq, Eq)]
pub enum SpanKind {
    Client,
    Server,
    Producer,
    Consumer,
    Internal,
}

/// The canonical status codes a span can end with.
#[derive(Clone, Copy, Debug, PartialEq, Eq)]
pub enum StatusCode {
    OK,
    Canceled,
    Unknown,
    InvalidArgument,
    DeadlineExceeded,
    NotFound,
    AlreadyExists,
    PermissionDenied,
    ResourceExhausted,
    FailedPrecondition,
    Aborted,
    OutOfRange,
    Unimplemented,
    Internal,
    Unavailable,
    DataLoss,
    Unauthenticated,
}

/// A timed annotation of a span.
#[derive(Debug)]
pub struct Event {
    pub name: String,
    pub timestamp: Timestamp,
    pub attributes: Vec<Attribute>,
}

/// A reference from a span to another span.
#[derive(Debug)]
pub struct Link {
    pub span_context: SpanContext,
    pub attributes: Vec<Attribute>,
}

/// A finished span, as the exporter receives it.
#[derive(Debug)]
pub struct SpanData {
    pub span_context: SpanContext,
    /// The parent's span id; the invalid id for a root span.
    pub parent_span_id: SpanId,
    pub span_kind: SpanKind,
    pub name: String,
    pub start_time: Timestamp,
    pub end_time: Timestamp,
    pub attributes: EvictedHashMap,
    pub message_events: Vec<Event>,
    pub links: Vec<Link>,
    pub status_code: StatusCode,
    pub status_message: String,
}

} // verus!
