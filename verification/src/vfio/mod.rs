//! Passthrough PCI devices.

pub mod nesting;
pub mod resolver;
pub mod resources;
