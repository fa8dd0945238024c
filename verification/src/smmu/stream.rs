//! Stream table entries and stream identifiers.

use vstd::prelude::*;

use crate::bytes::{get_u64, le64};
use crate::pci::bus_range::AssignedBusRange;

verus! {

/// Size of a stream table entry in bytes.
pub const STE_SIZE: u64 = 64;

/// `STE.Config`: abort.
pub const STE_CONFIG_ABORT: u8 = 0;

/// `STE.Config`: bypass.
pub const STE_CONFIG_BYPASS: u8 = 4;

/// `STE.Config`: stage 1 translation.
pub const STE_CONFIG_S1_TRANS: u8 = 5;

/// The bits of the second double-word that a nested stream may use: S1DSS,
/// S1CIR, S1COR and S1CSH in bits 0 to 7, S1STALLD in bit 27, EATS in bits 28
/// and 29. Of the first double-word every bit may be used.
pub const STE1_NESTING_ALLOWED: u64 = 0x3800_00ff;

/// The first two double-words of a stream table entry.
#[derive(Debug, Clone, Copy, PartialEq, Eq, Structural)]
pub struct Ste {
    /// The first double-word.
    pub dw0: u64,
    /// The second double-word.
    pub dw1: u64,
}

impl Ste {
    /// The entry that 64 bytes hold.
    pub open spec fn of_bytes(bytes: Seq<u8>) -> Ste {
        Ste { dw0: le64(bytes, 0), dw1: le64(bytes, 8) }
    }

    /// Whether the entry is valid: bit 0 of the first double-word.
    pub open spec fn is_valid(self) -> bool {
        self.dw0 % 2 == 1
    }

    /// `STE.Config`: bits 1 to 3 of the first double-word.
    pub open spec fn spec_config(self) -> u8 {
        (self.dw0 / 2 % 8) as u8
    }

    /// The double-words reduced to what a nested stream may use.
    pub open spec fn nesting(self) -> (u64, u64) {
        (self.dw0, self.dw1 & STE1_NESTING_ALLOWED)
    }

    /// The entry with the given validity and configuration and nothing else.
    pub fn with_config(valid: bool, config: u8) -> (r: Ste)
        requires
            config < 8,
        ensures
            r.is_valid() == valid,
            r.spec_config() == config,
            r.dw0 < 16,
            r.dw1 == 0,
    {
        Ste {
            dw0: (if valid {
                1u64
            } else {
                0u64
            }) + 2 * config as u64,
            dw1: 0,
        }
    }

    /// Reads an entry from the bytes of the stream table.
    pub fn read(bytes: &[u8; 64]) -> (r: Ste)
        ensures
            r == Ste::of_bytes(bytes@),
    {
        let slice: &[u8] = bytes.as_slice();
        Ste { dw0: get_u64(slice, 0), dw1: get_u64(slice, 8) }
    }

    /// Whether the entry is valid, and its configuration.
    pub fn parse_ste_config(bytes: &[u8; 64]) -> (r: (bool, u8))
        ensures
            r == (Ste::of_bytes(bytes@).is_valid(), Ste::of_bytes(bytes@).spec_config()),
    {
        let ste = Ste::read(bytes);
        (ste.valid(), ste.config())
    }

    /// The double-words for a nested stream.
    pub fn extract_ste_dwords(bytes: &[u8; 64]) -> (r: [u64; 2])
        ensures
            r@[0] == Ste::of_bytes(bytes@).nesting().0,
            r@[1] == Ste::of_bytes(bytes@).nesting().1,
    {
        Ste::read(bytes).nesting_dwords()
    }

    /// Whether the entry is valid.
    pub fn valid(&self) -> (r: bool)
        ensures
            r == self.is_valid(),
    {
        self.dw0 % 2 == 1
    }

    /// `STE.Config`.
    pub fn config(&self) -> (r: u8)
        ensures
            r == self.spec_config(),
            r < 8,
    {
        (self.dw0 / 2 % 8) as u8
    }

    /// The double-words reduced to what a nested stream may use.
    pub fn nesting_dwords(&self) -> (r: [u64; 2])
        ensures
            r@[0] == self.nesting().0,
            r@[1] == self.nesting().1,
    {
        [self.dw0, self.dw1 & STE1_NESTING_ALLOWED]
    }
}

/// What is done with the transactions of a stream that the host accelerates.
#[derive(Debug, Clone, Copy, PartialEq, Eq, Structural)]
pub enum StreamConfig {
    /// They are aborted.
    Abort,
    /// They bypass translation.
    Bypass,
    /// They are translated by stage 1.
    Translate {
        /// The stream.
        sid: u32,
        /// First double-word of its entry.
        nested_dw0: u64,
        /// Second double-word, reduced to what a nested stream may use.
        nested_dw1: u64,
    },
}

/// What an entry says of its stream. An entry that is not valid, and a
/// configuration that is not supported, abort.
pub open spec fn config_of_ste(sid: u32, ste: Ste) -> StreamConfig {
    if !ste.is_valid() {
        StreamConfig::Abort
    } else if ste.spec_config() == STE_CONFIG_BYPASS {
        StreamConfig::Bypass
    } else if ste.spec_config() == STE_CONFIG_S1_TRANS {
        StreamConfig::Translate { sid, nested_dw0: ste.nesting().0, nested_dw1: ste.nesting().1 }
    } else {
        StreamConfig::Abort
    }
}

impl StreamConfig {
    /// What an entry says of its stream.
    pub fn from_ste(sid: u32, ste: &Ste) -> (r: StreamConfig)
        ensures
            r == config_of_ste(sid, *ste),
    {
        if !ste.valid() {
            return StreamConfig::Abort;
        }
        let config: u8 = ste.config();
        if config == STE_CONFIG_BYPASS {
            StreamConfig::Bypass
        } else if config == STE_CONFIG_S1_TRANS {
            let dwords = ste.nesting_dwords();
            StreamConfig::Translate { sid, nested_dw0: dwords[0], nested_dw1: dwords[1] }
        } else {
            StreamConfig::Abort
        }
    }
}

/// A nested stream gets no bit of its second double-word that it may not use,
/// and all those that it may.
pub proof fn law_nesting_keeps_only_allowed_bits(ste: Ste)
    ensures
        ste.nesting().1 & !STE1_NESTING_ALLOWED == 0,
        ste.nesting().1 & STE1_NESTING_ALLOWED == ste.dw1 & STE1_NESTING_ALLOWED,
        ste.nesting().0 == ste.dw0,
{
    let dw1 = ste.dw1;
    assert((dw1 & 0x3800_00ffu64) & !0x3800_00ffu64 == 0) by (bit_vector);
    assert((dw1 & 0x3800_00ffu64) & 0x3800_00ffu64 == dw1 & 0x3800_00ffu64) by (bit_vector);
}

/// The requester of a device: given, or function zero on the first bus.
pub open spec fn requester(range: AssignedBusRange, devid: Option<u32>) -> u32 {
    match devid {
        Some(bdf) => bdf,
        None => (range.secondary * 256) as u32,
    }
}

/// The stream of a requester behind a root complex: none before the buses are
/// assigned or if the bus of the requester is not one of them.
pub open spec fn stream_id(range: AssignedBusRange, stream_id_base: u32, devid: Option<u32>) -> Option<
    u32,
> {
    let bdf = requester(range, devid);
    if range.secondary == 0 || !range.holds_bus(bdf as int / 256 % 256) {
        None
    } else {
        Some((stream_id_base + bdf % 0x1_0000) as u32)
    }
}

/// The stream of a requester behind a root complex.
pub fn compose_stream_id(range: &AssignedBusRange, stream_id_base: u32, devid: Option<u32>) -> (r:
    Option<u32>)
    requires
        stream_id_base + requester(*range, devid) % 0x1_0000 <= u32::MAX,
    ensures
        r == stream_id(*range, stream_id_base, devid),
{
    let (secondary, subordinate) = range.bus_range();
    if secondary == 0 {
        return None;
    }
    let bdf: u32 = match devid {
        Some(bdf) => bdf,
        None => secondary as u32 * 256,
    };
    let bus: u8 = (bdf / 256 % 256) as u8;
    if bus < secondary || bus > subordinate {
        return None;
    }
    Some(stream_id_base + bdf % 0x1_0000)
}

/// The stream of a requester is as far from the first stream of its root
/// complex as the requester, bus, device and function, is from zero. There is
/// one exactly if buses are assigned and the bus of the requester is one of
/// them. A device that names no requester is function zero of device zero on
/// the first bus.
pub proof fn law_stream_holds_the_whole_requester(
    range: AssignedBusRange,
    stream_id_base: u32,
    bus: u8,
    device: u8,
    function: u8,
)
    requires
        device < 32,
        function < 8,
        stream_id_base + 0xffff <= u32::MAX,
    ensures
        ({
            let bdf = (bus * 256 + device * 8 + function) as u32;
            let assigned = range.secondary != 0 && range.secondary <= bus <= range.subordinate;
            &&& stream_id(range, stream_id_base, Some(bdf)) is Some <==> assigned
            &&& stream_id(range, stream_id_base, Some(bdf)) matches Some(sid) ==> sid
                - stream_id_base == bus * 256 + device * 8 + function
        }),
        stream_id(range, stream_id_base, None) == stream_id(
            range,
            stream_id_base,
            Some((range.secondary * 256) as u32),
        ),
{
}

/// Different requesters have different streams: if two root complexes are the
/// same, or their first streams are a segment apart, a shared stream is that
/// of one and the same requester.
pub proof fn law_streams_are_not_shared(
    range1: AssignedBusRange,
    base1: u32,
    bdf1: u32,
    range2: AssignedBusRange,
    base2: u32,
    bdf2: u32,
)
    requires
        base1 + 0xffff <= u32::MAX,
        base2 + 0xffff <= u32::MAX,
        base1 == base2 || base1 + 0x1_0000 <= base2 || base2 + 0x1_0000 <= base1,
        bdf1 <= 0xffff,
        bdf2 <= 0xffff,
        stream_id(range1, base1, Some(bdf1)) is Some,
        stream_id(range1, base1, Some(bdf1)) == stream_id(range2, base2, Some(bdf2)),
    ensures
        base1 == base2,
        bdf1 == bdf2,
{
}

/// What an entry says: the lowest bit of the first double-word makes it valid,
/// the three bits above are its configuration, of which 4 bypasses and 5
/// translates, with the first double-word as it is and the bits 0 to 7 and 27
/// to 29 of the second. Everything else aborts.
pub proof fn law_entry_decides_its_stream(sid: u32, ste: Ste)
    ensures
        config_of_ste(sid, ste) == StreamConfig::Bypass <==> ste.dw0 % 16 == 9,
        config_of_ste(sid, ste) is Translate <==> ste.dw0 % 16 == 11,
        config_of_ste(sid, ste) == StreamConfig::Abort <==> ste.dw0 % 16 != 9 && ste.dw0 % 16 != 11,
        config_of_ste(sid, ste) matches StreamConfig::Translate { sid: s, nested_dw0, nested_dw1 }
            ==> {
            &&& s == sid
            &&& nested_dw0 == ste.dw0
            &&& nested_dw1 as int == ste.dw1 % 256 + 0x800_0000 * (ste.dw1 as int / 0x800_0000 % 8)
        },
{
    let dw1 = ste.dw1;
    assert(dw1 & 0x3800_00ffu64 == (dw1 % 256 + 0x800_0000 * (dw1 / 0x800_0000 % 8)) as u64)
        by (bit_vector);
}

/// An entry is the first sixteen of its bytes, the lowest first.
pub proof fn law_entry_is_read_from_its_bytes(bytes: Seq<u8>)
    requires
        bytes.len() == 64,
    ensures
        Ste::of_bytes(bytes).dw0 % 256 == bytes[0],
        Ste::of_bytes(bytes).dw0 == bytes[0] + 0x100 * bytes[1] + 0x1_0000 * bytes[2] + 0x100_0000
            * bytes[3] + 0x1_0000_0000 * bytes[4] + 0x100_0000_0000 * bytes[5]
            + 0x1_0000_0000_0000 * bytes[6] + 0x100_0000_0000_0000 * bytes[7],
        Ste::of_bytes(bytes).dw1 == bytes[8] + 0x100 * bytes[9] + 0x1_0000 * bytes[10]
            + 0x100_0000 * bytes[11] + 0x1_0000_0000 * bytes[12] + 0x100_0000_0000 * bytes[13]
            + 0x1_0000_0000_0000 * bytes[14] + 0x100_0000_0000_0000 * bytes[15],
{
}

/// What is read from the bytes of an entry: the lowest bit of the first byte
/// makes it valid, the three above are its configuration.
pub proof fn law_configuration_is_in_the_first_byte(bytes: &[u8; 64], r: (bool, u8))
    requires
        call_ensures(Ste::parse_ste_config, (bytes,), r),
    ensures
        r.0 <==> bytes@[0] % 2 == 1,
        r.1 == bytes@[0] / 2 % 8,
{
    let dw0 = Ste::of_bytes(bytes@).dw0;
    crate::bytes::law_little_endian_digits(bytes@, 0);
    let low = crate::bytes::le32(bytes@, 0);
    assert(dw0 % 2 == low % 2 && low % 2 == bytes@[0] % 2);
    assert(dw0 / 2 % 8 == low / 2 % 8);
    assert(dw0 / 2 % 8 == bytes@[0] / 2 % 8);
}

} // verus!
