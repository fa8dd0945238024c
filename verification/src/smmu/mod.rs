//! The stream policy, event queue and translation decisions of an Arm
//! SMMUv3.

use vstd::arithmetic::power2::pow2;
use vstd::bits::{lemma_u64_pow2_no_overflow, lemma_u64_shl_is_mul};
use vstd::prelude::*;

pub mod events;
pub mod queue;
pub mod registers;
pub mod shared;
pub mod stream;
pub mod translate;

verus! {

/// The valid output address sizes in bits.
pub const VALID_OAS_BITS: [u8; 7] = [32, 36, 40, 42, 44, 48, 52];

/// The valid output address sizes, in bits, in the order of their encodings.
pub open spec fn valid_oas_bits() -> Seq<u8> {
    seq![32u8, 36, 40, 42, 44, 48, 52]
}

/// `1 << bits`, for a size below 64 bits.
pub(crate) fn bit64(bits: u8) -> (r: u64)
    requires
        bits < 64,
    ensures
        r == pow2(bits as nat),
        r > 0,
{
    proof {
        lemma_u64_pow2_no_overflow(bits as nat);
        lemma_u64_shl_is_mul(1, bits as u64);
        vstd::arithmetic::power2::lemma_pow2_pos(bits as nat);
    }
    1u64 << (bits as u64)
}

/// The smallest valid output address size whose address space covers
/// `max_addr`, an exclusive upper bound of addresses, and at most 52.
pub fn min_oas_bits_for(max_addr: u64) -> (r: u8)
    ensures
        valid_oas_bits().contains(r),
        max_addr <= pow2(r as nat) || r == 52,
        forall|b: u8| #[trigger] valid_oas_bits().contains(b) && b < r ==> max_addr > pow2(b as nat),
{
    let sizes: [u8; 7] = [32, 36, 40, 42, 44, 48, 52];
    let mut i: usize = 0;
    assert(sizes@ =~= valid_oas_bits());
    while i < 7
        invariant
            i <= 7,
            sizes@ == valid_oas_bits(),
            forall|k: int| 0 <= k < i ==> max_addr > pow2(#[trigger] sizes@[k] as nat),
        decreases 7 - i,
    {
        let bits: u8 = sizes[i];
        if max_addr <= bit64(bits) {
            proof {
                assert(valid_oas_bits()[i as int] == bits);
                assert forall|b: u8| #[trigger]
                    valid_oas_bits().contains(b) && b < bits implies max_addr > pow2(b as nat) by {
                    let k = choose|k: int| 0 <= k < 7 && valid_oas_bits()[k] == b;
                    assert(k < i);
                    assert(sizes@[k] == b);
                }
            }
            return bits;
        }
        i += 1;
    }
    proof {
        assert(valid_oas_bits()[6] == 52);
        assert forall|b: u8| #[trigger]
            valid_oas_bits().contains(b) && b < 52 implies max_addr > pow2(b as nat) by {
            let k = choose|k: int| 0 <= k < 7 && valid_oas_bits()[k] == b;
            assert(sizes@[k] == b);
        }
    }
    52
}

/// The size that an encoding stands for.
pub open spec fn oas_bits_of(encoding: u8) -> Option<u8> {
    if encoding < 7 {
        Some(valid_oas_bits()[encoding as int])
    } else {
        None
    }
}

/// The output address size, in bits, that a value of the field IDR5.OAS
/// stands for, or `None` for a reserved value.
pub fn oas_bits_from_encoding(encoding: u8) -> (r: Option<u8>)
    ensures
        r == oas_bits_of(encoding),
{
    match encoding {
        0 => Some(32),
        1 => Some(36),
        2 => Some(40),
        3 => Some(42),
        4 => Some(44),
        5 => Some(48),
        6 => Some(52),
        _ => None,
    }
}

/// The encodings of an address size are those of seven sizes, from 32 bits to
/// 52, and a larger encoding is a larger size.
pub proof fn law_address_sizes(encoding: u8, larger: u8)
    ensures
        oas_bits_of(encoding) is Some <==> encoding <= 6,
        encoding == 0 ==> oas_bits_of(encoding) == Some(32u8),
        encoding == 1 ==> oas_bits_of(encoding) == Some(36u8),
        encoding == 2 ==> oas_bits_of(encoding) == Some(40u8),
        encoding == 3 ==> oas_bits_of(encoding) == Some(42u8),
        encoding == 4 ==> oas_bits_of(encoding) == Some(44u8),
        encoding == 5 ==> oas_bits_of(encoding) == Some(48u8),
        encoding == 6 ==> oas_bits_of(encoding) == Some(52u8),
        encoding < larger <= 6 ==> oas_bits_of(encoding)->0 < oas_bits_of(larger)->0,
{
}

/// The size that is found for an address is the smallest that reaches it, or
/// the largest there is.
pub proof fn law_smallest_size_is_found(max_addr: u64, bits: u8)
    requires
        call_ensures(min_oas_bits_for, (max_addr,), bits),
    ensures
        max_addr <= pow2(32) ==> bits == 32,
        pow2(32) < max_addr <= pow2(36) ==> bits == 36,
        pow2(36) < max_addr <= pow2(40) ==> bits == 40,
        pow2(40) < max_addr <= pow2(42) ==> bits == 42,
        pow2(42) < max_addr <= pow2(44) ==> bits == 44,
        pow2(44) < max_addr <= pow2(48) ==> bits == 48,
        pow2(48) < max_addr ==> bits == 52,
{
    let all = valid_oas_bits();
    assert(all[0] == 32 && all[1] == 36 && all[2] == 40 && all[3] == 42 && all[4] == 44 && all[5]
        == 48 && all[6] == 52);
    assert(all.contains(32) && all.contains(36) && all.contains(40) && all.contains(42)
        && all.contains(44) && all.contains(48) && all.contains(52));
    let k = choose|k: int| 0 <= k < all.len() && all[k] == bits;
    vstd::arithmetic::power2::lemma2_to64();
    vstd::arithmetic::power2::lemma2_to64_rest();
}

} // verus!
