//! Bus numbers of a PCIe port.

use vstd::prelude::*;

verus! {

/// The buses that a port of the PCIe hierarchy has been assigned.
#[derive(Debug, Clone, Copy, PartialEq, Eq, Structural)]
pub struct AssignedBusRange {
    /// The first bus, zero before the guest assigned one.
    pub secondary: u8,
    /// The last bus.
    pub subordinate: u8,
}

impl AssignedBusRange {
    /// A range that is not assigned yet.
    pub fn new() -> (r: AssignedBusRange)
        ensures
            r.secondary == 0,
            r.subordinate == 0,
    {
        AssignedBusRange { secondary: 0, subordinate: 0 }
    }

    /// Assigns the range.
    pub fn set_bus_range(&mut self, secondary: u8, subordinate: u8)
        ensures
            *final(self) == (AssignedBusRange { secondary, subordinate }),
    {
        self.secondary = secondary;
        self.subordinate = subordinate;
    }

    /// The first and the last bus.
    pub fn bus_range(&self) -> (r: (u8, u8))
        ensures
            r == (self.secondary, self.subordinate),
    {
        (self.secondary, self.subordinate)
    }

    /// Whether the range holds a bus.
    pub open spec fn holds_bus(self, bus: int) -> bool {
        self.secondary <= bus <= self.subordinate
    }

    /// Whether the range holds a bus.
    pub fn contains_bus(&self, bus: u8) -> (r: bool)
        ensures
            r == self.holds_bus(bus as int),
    {
        self.secondary <= bus && bus <= self.subordinate
    }
}

} // verus!
