//! Register fields of the SMMU.

use vstd::prelude::*;

verus! {

/// Encodings of an address size.
pub const IPS_32: u8 = 0;

pub const IPS_36: u8 = 1;

pub const IPS_40: u8 = 2;

pub const IPS_42: u8 = 3;

pub const IPS_44: u8 = 4;

pub const IPS_48: u8 = 5;

pub const IPS_52: u8 = 6;

/// IDR0.TTF: the translation table formats that are supported, a bit each.
#[derive(Debug, Clone, Copy, PartialEq, Eq, Structural)]
pub struct Idr0Ttf {
    /// AArch32 tables.
    pub aarch32: bool,
    /// AArch64 tables.
    pub aarch64: bool,
}

/// IDR0.TTENDIAN: the byte orders of translation tables that are supported.
#[derive(Debug, Clone, Copy, PartialEq, Eq, Structural)]
pub enum Idr0TtEndian {
    /// Both.
    Mixed,
    /// A reserved value.
    Reserved,
    /// Little-endian only.
    Le,
    /// Big-endian only.
    Be,
}

/// What the host SMMU can do.
#[derive(Debug, Clone, Copy, PartialEq, Eq, Structural)]
pub struct HostSmmuCaps {
    /// Encoding of the output address size.
    pub oas: u8,
    /// Translation table formats.
    pub ttf: Idr0Ttf,
    /// Byte orders of translation tables.
    pub ttendian: Idr0TtEndian,
    /// Whether the 4 KiB granule is supported.
    pub gran4k: bool,
}

/// How the advertised output address size is found.
#[derive(Debug, Clone, Copy, PartialEq, Eq, Structural)]
pub enum SmmuOasPolicy {
    /// Taken from the host.
    Auto,
    /// Given, and at most that of the host.
    Fixed(u8),
}

/// Bit of a command queue error in GERROR and GERRORN.
pub const CMDQ_ERR: u32 = 0x1;

/// Bit of an event queue abort in GERROR and GERRORN.
pub const EVENTQ_ABT_ERR: u32 = 0x4;

/// The registers GERROR and GERRORN: an error is active while its bit differs
/// between the two.
#[derive(Debug, Clone, Copy, PartialEq, Eq, Structural)]
pub struct Gerror {
    /// The register.
    pub raw: u32,
}

/// Whether a bit is set.
pub open spec fn bit_set(raw: u32, bit: u32) -> bool {
    raw & bit != 0
}

/// The register with a bit set or cleared.
pub open spec fn bit_assigned(raw: u32, bit: u32, on: bool) -> u32 {
    if on {
        raw | bit
    } else {
        raw & !bit
    }
}

impl Gerror {
    /// No bit set.
    pub fn new() -> (r: Gerror)
        ensures
            r.raw == 0,
    {
        Gerror { raw: 0 }
    }

    /// Whether a bit is set.
    pub fn get(&self, bit: u32) -> (r: bool)
        ensures
            r == bit_set(self.raw, bit),
    {
        self.raw & bit != 0
    }

    /// Sets or clears a bit.
    pub fn assign(&mut self, bit: u32, on: bool)
        requires
            bit != 0,
        ensures
            final(self).raw == bit_assigned(old(self).raw, bit, on),
            bit_set(final(self).raw, bit) == on,
    {
        let raw: u32 = self.raw;
        assert((raw | bit) & bit != 0) by (bit_vector)
            requires
                bit != 0,
        ;
        assert((raw & !bit) & bit == 0) by (bit_vector);
        self.raw = if on {
            raw | bit
        } else {
            raw & !bit
        };
    }
}

} // verus!
