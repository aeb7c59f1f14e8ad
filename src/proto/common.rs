//! Attribute values, key-value pairs and instrumentation library identity.

use vstd::prelude::*;

verus! {

/// The value held by an `AnyValue`. A double is carried as its IEEE-754 bit
/// pattern.
#[derive(Debug, PartialEq)]
pub enum AnyValueKind {
    StringValue(String),
    BoolValue(bool),
    IntValue(i64),
    DoubleValue(u64),
    ArrayValue(ArrayValue),
    KvlistValue(KeyValueList),
}

/// A dynamically typed value; `None` when the value has no wire form.
#[derive(Debug, PartialEq)]
pub struct AnyValue {
    pub value: Option<AnyValueKind>,
}

/// A list of values, each dynamically typed.
#[derive(Debug, PartialEq)]
pub struct ArrayValue {
    pub values: Vec<AnyValue>,
}

/// A list of key-value pairs.
#[derive(Debug, PartialEq)]
pub struct KeyValueList {
    pub values: Vec<KeyValue>,
}

/// A key with a dynamically typed value.
#[derive(Debug, PartialEq)]
pub struct KeyValue {
    pub key: String,
    pub value: Option<AnyValue>,
}

/// A key with a string value.
#[derive(Clone, Debug, PartialEq, Eq)]
pub struct StringKeyValue {
    pub key: String,
    pub value: String,
}

/// The library that produced a group of spans.
#[derive(Clone, Debug, PartialEq, Eq)]
pub struct InstrumentationLibrary {
    pub name: String,
    pub version: String,
}

} // verus!
