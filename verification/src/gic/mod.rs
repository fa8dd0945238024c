//! Interrupt controllers for messages on Arm.

pub mod its;
pub mod v2m;
