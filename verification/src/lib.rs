//! Verified decision logic of virtual machine device emulation.
//!
//! The crate holds the parts of the device models that decide and compute:
//! the VHDX virtual disk format, the SMMUv3 stream policy, MSI routing, the
//! GIC MSI frames, passthrough PCI devices and the socket plumbing of the
//! user mode network. Files, locks, events and ioctls are left to the caller,
//! who hands in what was read and carries out what is returned.

pub mod bytes;
pub mod consomme;
pub mod gic;
pub mod pci;
pub mod smmu;
pub mod text;
pub mod vfio;
pub mod vhdx;
