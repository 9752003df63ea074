//! The two sides of the conflict.
use vstd::prelude::*;

verus! {

/// The side an entity fights on.
#[derive(Clone, Copy, Debug, PartialEq, Eq, Structural)]
pub enum CoalitionType {
    RED,
    BLUE,
}

/// Side tag carried by radar emitters and radar-detectable entities.
#[derive(Clone, Copy, Debug, PartialEq, Eq, Structural)]
pub struct Coalition {
    pub side: CoalitionType,
}

impl Coalition {
    /// Whether an entity tagged `other` is on the opposing side.
    pub fn opposes(&self, other: &Coalition) -> (r: bool)
        ensures
            r == (self.side != other.side),
    {
        self.side != other.side
    }
}

} // verus!
