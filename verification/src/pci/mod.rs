//! PCI devices: requester identities, interrupt messages, remote devices.

pub mod bus_range;
pub mod msi;
pub mod remote;
