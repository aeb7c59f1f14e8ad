//! The entity that produced the telemetry.

use crate::proto::common::KeyValue;
use vstd::prelude::*;

verus! {

/// A service or process, described by attributes.
#[derive(Debug, PartialEq)]
pub struct Resource {
    pub attributes: Vec<KeyValue>,
    pub dropped_attributes_count: u32,
}

} // verus!
