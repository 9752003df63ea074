//! Vehicle identities.
use vstd::prelude::*;

verus! {

/// Hands out serial numbers that strictly increase, starting at 1.
///
/// The counter is owned by whoever creates vehicles, so two worlds never
/// share a sequence.
#[derive(Clone, Copy, Debug, PartialEq, Eq, Structural)]
pub struct SerialCounter {
    /// The serial number handed out last (0 before the first).
    pub last: u64,
}

impl SerialCounter {
    pub fn new() -> (r: SerialCounter)
        ensures
            r.last == 0,
    {
        SerialCounter { last: 0 }
    }

    /// The next serial number, one more than the previous.
    pub fn get_serial_number(&mut self) -> (r: u64)
        requires
            old(self).last < u64::MAX,
        ensures
            r == old(self).last + 1,
            final(self).last == r,
    {
        self.last = self.last + 1;
        self.last
    }
}

/// Any vehicle of the simulation.
#[derive(Clone, Copy, Debug, PartialEq, Eq, Structural)]
pub struct Vehicle {
    pub serialnumber: u64,
}

impl Vehicle {
    /// A vehicle with a fresh serial number from `counter`.
    pub fn new(counter: &mut SerialCounter) -> (r: Vehicle)
        requires
            old(counter).last < u64::MAX,
        ensures
            r.serialnumber == old(counter).last + 1,
            final(counter).last == r.serialnumber,
    {
        Vehicle { serialnumber: counter.get_serial_number() }
    }
}

} // verus!
