//! Point values and keyed entries exchanged with the data hub.

use vstd::prelude::*;

verus! {

/// A typed point value. A 32-bit float is carried as its IEEE-754 bit
/// pattern, so two values are equal exactly when their variants and bits are.
#[derive(Debug, Clone, Copy, PartialEq, Eq, Structural)]
pub enum Val {
    U8(u8),
    I8(i8),
    I16(i16),
    I32(i32),
    U16(u16),
    U32(u32),
    F32(u32),
}

/// A point name with a value: the payload of both ingest and dispatch.
#[derive(Debug, Clone)]
pub struct Entry {
    pub key: String,
    pub value: Val,
}

impl Entry {
    pub fn new(key: String, value: Val) -> (r: Entry)
        ensures
            r.key@ == key@,
            r.value == value,
    {
        Entry { key, value }
    }
}

impl PartialEq for Entry {
    fn eq(&self, other: &Entry) -> (r: bool)
        ensures
            r == (self.key@ == other.key@ && self.value == other.value),
    {
        self.key == other.key && self.value == other.value
    }
}

impl vstd::std_specs::cmp::PartialEqSpecImpl for Entry {
    open spec fn obeys_eq_spec() -> bool {
        true
    }

    open spec fn eq_spec(&self, other: &Entry) -> bool {
        self.key@ == other.key@ && self.value == other.value
    }
}


/// Numeric identity of a point.
pub type PointId = u64;

/// A keyed value that the hub can store.
pub trait Point {
    fn key(&self) -> PointId;

    fn value(&self) -> Val;
}

/// A value keyed by point id.
#[derive(Debug, Clone, Copy, PartialEq, Eq, Structural)]
pub struct DataPoint {
    pub key: PointId,
    pub value: Val,
}

impl Point for DataPoint {
    fn key(&self) -> PointId {
        self.key
    }

    fn value(&self) -> Val {
        self.value
    }
}

/// A described point: identity, name and optional unit.
pub trait Item {
    fn id(&self) -> PointId;

    fn name(&self) -> &str;

    fn unit(&self) -> Option<&str>;
}

pub struct Record {
    pub id: PointId,
    pub name: String,
    pub unit: Option<String>,
}

impl Item for Record {
    fn id(&self) -> PointId {
        self.id
    }

    fn name(&self) -> &str {
        self.name.as_str()
    }

    fn unit(&self) -> Option<&str> {
        match &self.unit {
            Some(u) => Some(u.as_str()),
            None => None,
        }
    }
}

/// Failure of a generic capability.
#[derive(Debug, Clone, Copy, PartialEq, Eq, Structural)]
pub enum Error {
    /// The component does not offer the capability.
    Unsupported,
}

/// A component that can be started and stopped.
pub trait Lifecycle {
    fn start(&self) -> Result<(), Error>;

    fn stop(&self) -> Result<(), Error>;
}

/// A component that can be polled.
pub trait Pollable {}

} // verus!
