//! The payload of a schema field: either a slot holding a type, or a group,
//! which this pipeline does not support.

use vstd::prelude::*;

verus! {

/// Marks a field as not belonging to any union.
pub const NO_DISCRIMINANT: u16 = 0xFFFF;

#[derive(Debug, PartialEq)]
pub enum Which {
    Slot(crate::schema::Type),
    Group(u64),
}

impl Clone for Which {
    fn clone(&self) -> (r: Self)
        ensures
            r == *self,
    {
        match self {
            Which::Slot(t) => Which::Slot(t.clone()),
            Which::Group(g) => Which::Group(*g),
        }
    }
}

} // verus!
