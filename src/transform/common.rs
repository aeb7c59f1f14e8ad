//! Attribute values, attribute lists and timestamps in their wire form.

use crate::api::{attribute_pairs, Attribute, EvictedHashMap, Timestamp, Value};
use crate::proto::common::{AnyValue, AnyValueKind, ArrayValue, KeyValue, KeyValueList};
use vstd::prelude::*;

verus! {

/// `u` read as a two's-complement signed 64-bit value.
pub open spec fn wrap_to_i64(u: u64) -> int {
    if u <= i64::MAX {
        u as int
    } else {
        u - 0x1_0000_0000_0000_0000
    }
}

/// `w` is the wire form of `v`: scalars map to their own kind, an unsigned
/// value wraps into a signed one, bytes have no wire form, and an array maps
/// element by element.
pub open spec fn any_value_matches(v: Value, w: AnyValue) -> bool
    decreases v, 0nat,
{
    match v {
        Value::Bool(b) => w.value == Some(AnyValueKind::BoolValue(b)),
        Value::I64(i) => w.value == Some(AnyValueKind::IntValue(i)),
        Value::U64(u) => match w.value {
            Some(AnyValueKind::IntValue(i)) => i == wrap_to_i64(u),
            _ => false,
        },
        Value::F64(bits) => w.value == Some(AnyValueKind::DoubleValue(bits)),
        Value::String(s) => match w.value {
            Some(AnyValueKind::StringValue(t)) => t@ == s@,
            _ => false,
        },
        Value::Bytes(_) => w.value is None,
        Value::Array(vals) => match w.value {
            Some(AnyValueKind::ArrayValue(a)) => a.values@.len() == vals@.len() && values_match(
                vals@,
                a.values@,
                vals@.len(),
            ),
            _ => false,
        },
    }
}

/// Each of the first `n` wire values is the wire form of the value at the
/// same position.
pub open spec fn values_match(vals: Seq<Value>, ws: Seq<AnyValue>, n: nat) -> bool
    decreases vals, n,
{
    if n == 0 || n > vals.len() {
        n == 0
    } else {
        values_match(vals, ws, (n - 1) as nat) && any_value_matches(vals[n - 1], ws[n - 1])
    }
}

proof fn lemma_values_match(vals: Seq<Value>, ws: Seq<AnyValue>, n: nat)
    requires
        n <= vals.len(),
        n <= ws.len(),
        forall|j: int| 0 <= j < n ==> #[trigger] any_value_matches(vals[j], ws[j]),
    ensures
        values_match(vals, ws, n),
    decreases n,
{
    if n > 0 {
        lemma_values_match(vals, ws, (n - 1) as nat);
        assert(any_value_matches(vals[n - 1], ws[n - 1]));
    }
}

/// `w` carries `key` and the wire form of `value`.
pub open spec fn key_value_matches(key: Seq<char>, value: Value, w: KeyValue) -> bool {
    &&& w.key@ == key
    &&& match w.value {
        Some(a) => any_value_matches(value, a),
        None => false,
    }
}

/// `ws` is `pairs` in wire form, in the same order.
pub open spec fn key_values_match(pairs: Seq<(Seq<char>, Value)>, ws: Seq<KeyValue>) -> bool {
    &&& ws.len() == pairs.len()
    &&& forall|i: int|
        0 <= i < pairs.len() ==> #[trigger] key_value_matches(pairs[i].0, pairs[i].1, ws[i])
}

/// Nanoseconds since the Unix epoch, kept to 64 bits; zero for a time before
/// the epoch.
pub open spec fn nanos_since_epoch(t: Timestamp) -> nat {
    match t {
        Timestamp::BeforeEpoch => 0,
        Timestamp::SinceEpoch { secs, nanos } => ((secs * 1_000_000_000 + nanos)
            % 0x1_0000_0000_0000_0000) as nat,
    }
}

/// The bits of `u` as a signed value.
fn wrap_u64(u: u64) -> (r: i64)
    ensures
        r == wrap_to_i64(u),
{
    if u <= i64::MAX as u64 {
        u as i64
    } else {
        (u - 0x8000_0000_0000_0000) as i64 + i64::MIN
    }
}

impl AnyValue {
    /// The wire form of an attribute value.
    pub fn from_value(value: &Value) -> (r: AnyValue)
        ensures
            any_value_matches(*value, r),
        decreases value,
    {
        match value {
            Value::Bool(b) => AnyValue { value: Some(AnyValueKind::BoolValue(*b)) },
            Value::I64(i) => AnyValue { value: Some(AnyValueKind::IntValue(*i)) },
            Value::U64(u) => AnyValue { value: Some(AnyValueKind::IntValue(wrap_u64(*u))) },
            Value::F64(bits) => AnyValue { value: Some(AnyValueKind::DoubleValue(*bits)) },
            Value::String(s) => AnyValue { value: Some(AnyValueKind::StringValue(s.clone())) },
            Value::Bytes(_) => AnyValue { value: None },
            Value::Array(vals) => {
                let mut out: Vec<AnyValue> = Vec::new();
                let mut i: usize = 0;
                while i < vals.len()
                    invariant
                        i <= vals@.len(),
                        out@.len() == i,
                        *value == Value::Array(*vals),
                        forall|j: int| 0 <= j < i ==> #[trigger] any_value_matches(vals@[j], out@[j]),
                    decreases vals@.len() - i,
                {
                    proof {
                        assert(decreases_to!(*value => (*value)->Array_0));
                        assert(decreases_to!(*vals => vals@));
                        assert(decreases_to!(vals@ => vals@[i as int]));
                    }
                    let a = AnyValue::from_value(&vals[i]);
                    out.push(a);
                    i = i + 1;
                }
                proof {
                    lemma_values_match(vals@, out@, vals@.len());
                }
                AnyValue { value: Some(AnyValueKind::ArrayValue(ArrayValue { values: out })) }
            },
        }
    }
}

/// The wire form of one attribute.
fn key_value_from(key: &String, value: &Value) -> (r: KeyValue)
    ensures
        key_value_matches(key@, *value, r),
{
    KeyValue { key: key.clone(), value: Some(AnyValue::from_value(value)) }
}

impl KeyValueList {
    /// The wire form of an attribute list, in order.
    pub fn from_attributes(attrs: &Vec<Attribute>) -> (r: KeyValueList)
        ensures
            key_values_match(attribute_pairs(attrs@), r.values@),
    {
        let ghost pairs = attribute_pairs(attrs@);
        let mut out: Vec<KeyValue> = Vec::new();
        let mut i: usize = 0;
        while i < attrs.len()
            invariant
                i <= attrs@.len(),
                pairs == attribute_pairs(attrs@),
                out@.len() == i,
                forall|j: int|
                    0 <= j < i ==> #[trigger] key_value_matches(pairs[j].0, pairs[j].1, out@[j]),
            decreases attrs@.len() - i,
        {
            let kv = key_value_from(&attrs[i].key, &attrs[i].value);
            out.push(kv);
            i = i + 1;
        }
        KeyValueList { values: out }
    }

    /// The wire form of a bounded attribute map, least recent entry first.
    pub fn from_evicted(map: &EvictedHashMap) -> (r: KeyValueList)
        ensures
            key_values_match(map@.entries, r.values@),
    {
        let ghost pairs = map@.entries;
        let mut out: Vec<KeyValue> = Vec::new();
        let mut i: usize = 0;
        while i < map.len()
            invariant
                i <= pairs.len(),
                pairs == map@.entries,
                out@.len() == i,
                forall|j: int|
                    0 <= j < i ==> #[trigger] key_value_matches(pairs[j].0, pairs[j].1, out@[j]),
            decreases pairs.len() - i,
        {
            let a = map.entry(i);
            let kv = key_value_from(&a.key, &a.value);
            out.push(kv);
            i = i + 1;
        }
        KeyValueList { values: out }
    }
}

/// Nanoseconds since the Unix epoch, truncated to 64 bits; a time before the
/// epoch gives zero.
pub fn to_nanos(time: Timestamp) -> (r: u64)
    ensures
        r == nanos_since_epoch(time),
{
    match time {
        Timestamp::BeforeEpoch => 0,
        Timestamp::SinceEpoch { secs, nanos } => {
            assert(secs * 1_000_000_000 + nanos <= u64::MAX * 1_000_000_000 + u32::MAX)
                by (nonlinear_arith);
            let total: u128 = secs as u128 * 1_000_000_000 + nanos as u128;
            (total % 0x1_0000_0000_0000_0000u128) as u64
        },
    }
}

} // verus!
