//! The dynamic value vocabulary: the tagged union in which values cross the
//! bridge in both directions.
//!
//! Text is carried as raw bytes, as scripting hosts generally allow
//! arbitrary byte strings; an opaque handle is carried as a plain address.
//! Aggregate and callable values exist in the vocabulary but are not
//! supported as native arguments or results.

use vstd::prelude::*;

verus! {

/// A dynamically typed value crossing the bridge.
///
/// `Integer` is a 64-bit-exact numeric kind: integral native results are
/// decoded into it without a round trip through a floating-point
/// representation.  `Number` carries the raw bit pattern of an IEEE 754
/// double, so that this crate's logic never performs floating-point
/// arithmetic; the embedding layer converts to and from `f64` at the
/// boundary.
#[derive(Debug, Clone, PartialEq, Eq)]
pub enum DynamicValue {
    /// Absence of a value.
    Nil,
    /// A boolean.
    Boolean(bool),
    /// A 64-bit integer.
    Integer(i64),
    /// The bit pattern of a 64-bit IEEE 754 floating-point number.
    Number(u64),
    /// A byte string.
    Text(Vec<u8>),
    /// An opaque native address.
    Handle(usize),
    /// A structured value (a table, an array); never marshalable.
    Aggregate,
    /// A callable value (a function); never marshalable.
    Callable,
}

/// The runtime tag of a `DynamicValue`, without its payload.
#[derive(Debug, Clone, Copy, PartialEq, Eq, Structural)]
pub enum ValueKind {
    Nil,
    Boolean,
    Integer,
    Number,
    Text,
    Handle,
    Aggregate,
    Callable,
}

impl DynamicValue {
    /// The tag of this value.
    pub open spec fn kind_spec(self) -> ValueKind {
        match self {
            DynamicValue::Nil => ValueKind::Nil,
            DynamicValue::Boolean(_) => ValueKind::Boolean,
            DynamicValue::Integer(_) => ValueKind::Integer,
            DynamicValue::Number(_) => ValueKind::Number,
            DynamicValue::Text(_) => ValueKind::Text,
            DynamicValue::Handle(_) => ValueKind::Handle,
            DynamicValue::Aggregate => ValueKind::Aggregate,
            DynamicValue::Callable => ValueKind::Callable,
        }
    }

    /// Returns the tag of this value.
    pub fn kind(&self) -> (r: ValueKind)
        ensures
            r == self.kind_spec(),
    {
        match self {
            DynamicValue::Nil => ValueKind::Nil,
            DynamicValue::Boolean(_) => ValueKind::Boolean,
            DynamicValue::Integer(_) => ValueKind::Integer,
            DynamicValue::Number(_) => ValueKind::Number,
            DynamicValue::Text(_) => ValueKind::Text,
            DynamicValue::Handle(_) => ValueKind::Handle,
            DynamicValue::Aggregate => ValueKind::Aggregate,
            DynamicValue::Callable => ValueKind::Callable,
        }
    }
}

} // verus!
