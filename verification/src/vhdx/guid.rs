//! Globally unique identifiers and their on-disk form.

use vstd::prelude::*;

use crate::bytes::{
    be32, be64, get_u16, get_u32, get_u64_be, le16, le32, push_u16, push_u32, push_u64_be,
};

verus! {

/// A GUID as a number: its hexadecimal digits are those of the textual form.
pub type Guid = u128;

/// The all-zero GUID.
pub const GUID_ZERO: Guid = 0;

/// The first three groups of the GUID stored at `at`, as one number. Each is
/// stored little-endian.
pub open spec fn guid_high(s: Seq<u8>, at: int) -> u64 {
    (le32(s, at) * 0x1_0000_0000 + le16(s, at + 4) * 0x1_0000 + le16(s, at + 6)) as u64
}

/// The GUID stored at `at`. Its last two groups are stored in the order of
/// the text.
pub open spec fn guid_at(s: Seq<u8>, at: int) -> Guid {
    (guid_high(s, at) * 0x1_0000_0000_0000_0000 + be64(s, at + 8)) as u128
}

/// Reads the GUID stored at `at`.
pub fn get_guid(s: &[u8], at: usize) -> (r: Guid)
    requires
        at + 16 <= s.len(),
    ensures
        r == guid_at(s@, at as int),
{
    let high: u64 = get_u32(s, at) as u64 * 0x1_0000_0000 + get_u16(s, at + 4) as u64 * 0x1_0000
        + get_u16(s, at + 6) as u64;
    let low: u64 = get_u64_be(s, at + 8);
    high as u128 * 0x1_0000_0000_0000_0000 + low as u128
}

/// Appends the 16 bytes of a GUID.
pub fn push_guid(buf: &mut Vec<u8>, g: Guid)
    ensures
        final(buf)@.len() == old(buf)@.len() + 16,
        forall|i: int| 0 <= i < old(buf)@.len() ==> #[trigger] final(buf)@[i] == old(buf)@[i],
        guid_at(final(buf)@, old(buf)@.len() as int) == g,
{
    let high: u64 = (g / 0x1_0000_0000_0000_0000) as u64;
    let low: u64 = (g % 0x1_0000_0000_0000_0000) as u64;
    assert(g == high * 0x1_0000_0000_0000_0000 + low);
    push_u32(buf, (high / 0x1_0000_0000) as u32);
    push_u16(buf, (high / 0x1_0000 % 0x1_0000) as u16);
    push_u16(buf, (high % 0x1_0000) as u16);
    assert(guid_high(buf@, old(buf)@.len() as int) == high);
    push_u64_be(buf, low);
    assert(guid_high(buf@, old(buf)@.len() as int) == high);
}

/// A GUID is read from its bytes field by field: of the first three fields
/// the lowest byte comes first, of the rest the highest.
pub proof fn law_guid_fields(s: Seq<u8>, at: int)
    ensures
        ({
            let high = guid_at(s, at) / 0x1_0000_0000_0000_0000;
            let low = guid_at(s, at) % 0x1_0000_0000_0000_0000;
            &&& high / 0x1_0000_0000 == le32(s, at)
            &&& high / 0x1_0000 % 0x1_0000 == le16(s, at + 4)
            &&& high % 0x1_0000 == le16(s, at + 6)
            &&& low / 0x1_0000_0000 == be32(s, at + 8)
            &&& low % 0x1_0000_0000 == be32(s, at + 12)
        }),
{
    let (a, b, c) = (le32(s, at), le16(s, at + 4), le16(s, at + 6));
    let (d, e) = (be32(s, at + 8), be32(s, at + 12));
    assert(guid_high(s, at) == a * 0x1_0000_0000 + b * 0x1_0000 + c);
    lemma_guid_parts(a, b, c, d, e);
}

proof fn lemma_guid_parts(a: u32, b: u16, c: u16, d: u32, e: u32)
    ensures
        ({
            let high = a * 0x1_0000_0000 + b * 0x1_0000 + c;
            let low = d * 0x1_0000_0000 + e;
            let g = high * 0x1_0000_0000_0000_0000 + low;
            &&& g / 0x1_0000_0000_0000_0000 == high
            &&& g % 0x1_0000_0000_0000_0000 == low
            &&& high / 0x1_0000_0000 == a
            &&& high / 0x1_0000 % 0x1_0000 == b
            &&& high % 0x1_0000 == c
            &&& low / 0x1_0000_0000 == d
            &&& low % 0x1_0000_0000 == e
        }),
{
}

} // verus!
