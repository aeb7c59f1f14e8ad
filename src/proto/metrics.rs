//! Metric descriptors and the integer-valued metric data.

use crate::proto::common::StringKeyValue;
use vstd::prelude::*;

verus! {

/// The name, description, unit, type and temporality of a metric.
#[derive(Clone, Debug, PartialEq, Eq)]
pub struct MetricDescriptor {
    pub name: String,
    pub description: String,
    pub unit: String,
    /// A `Type` wire value.
    pub metric_type: i32,
    /// A `Temporality` wire value.
    pub temporality: i32,
}

/// The kind of points a metric holds.
#[derive(Clone, Copy, Debug, PartialEq, Eq)]
pub enum Type {
    InvalidType,
    Int64,
    MonotonicInt64,
    Double,
    MonotonicDouble,
    Histogram,
    Summary,
}

impl Type {
    pub open spec fn spec_code(self) -> i32 {
        match self {
            Type::InvalidType => 0,
            Type::Int64 => 1,
            Type::MonotonicInt64 => 2,
            Type::Double => 3,
            Type::MonotonicDouble => 4,
            Type::Histogram => 5,
            Type::Summary => 6,
        }
    }

    /// The wire value.
    pub fn as_i32(self) -> (r: i32)
        ensures
            r == self.spec_code(),
    {
        match self {
            Type::InvalidType => 0,
            Type::Int64 => 1,
            Type::MonotonicInt64 => 2,
            Type::Double => 3,
            Type::MonotonicDouble => 4,
            Type::Histogram => 5,
            Type::Summary => 6,
        }
    }
}

/// How the points of a metric relate in time.
#[derive(Clone, Copy, Debug, PartialEq, Eq)]
pub enum Temporality {
    InvalidTemporality,
    Instantaneous,
    Delta,
    Cumulative,
}

impl Temporality {
    pub open spec fn spec_code(self) -> i32 {
        match self {
            Temporality::InvalidTemporality => 0,
            Temporality::Instantaneous => 1,
            Temporality::Delta => 2,
            Temporality::Cumulative => 3,
        }
    }

    /// The wire value.
    pub fn as_i32(self) -> (r: i32)
        ensures
            r == self.spec_code(),
    {
        match self {
            Temporality::InvalidTemporality => 0,
            Temporality::Instantaneous => 1,
            Temporality::Delta => 2,
            Temporality::Cumulative => 3,
        }
    }
}

/// One integer measurement with its labels and time window.
#[derive(Clone, Debug, PartialEq, Eq)]
pub struct Int64DataPoint {
    pub labels: Vec<StringKeyValue>,
    pub start_time_unix_nano: u64,
    pub time_unix_nano: u64,
    pub value: i64,
}

/// A sample measurement recorded with a histogram bucket. The measured
/// double is carried as its IEEE-754 bit pattern.
#[derive(Clone, Debug, PartialEq, Eq)]
pub struct Exemplar {
    pub value: u64,
    pub time_unix_nano: u64,
    pub attachments: Vec<StringKeyValue>,
}

/// The count of one histogram bucket, with an optional sample.
#[derive(Clone, Debug, PartialEq, Eq)]
pub struct Bucket {
    pub count: u64,
    pub exemplar: Option<Exemplar>,
}

} // verus!
