//! Requests on the virtual disk, split at block boundaries.

use vstd::arithmetic::div_mod::{lemma_fundamental_div_mod, lemma_fundamental_div_mod_converse};
use vstd::prelude::*;

verus! {

/// The part of a request that lies in one block.
#[derive(Debug, Clone, Copy, PartialEq, Eq, Structural)]
pub struct Segment {
    /// The block.
    pub block_number: u32,
    /// Byte offset of the part within the block.
    pub block_offset: u32,
    /// Length of the part in bytes.
    pub block_length: u32,
    /// Byte offset of the part within the virtual disk.
    pub virtual_offset: u64,
}

pub open spec fn int_min(a: int, b: int) -> int {
    if a <= b {
        a
    } else {
        b
    }
}

pub open spec fn int_max(a: int, b: int) -> int {
    if a >= b {
        a
    } else {
        b
    }
}

/// Number of blocks that the bytes from `lo` up to `hi` touch.
pub open spec fn segment_count(block_size: int, lo: int, hi: int) -> int {
    if hi <= lo {
        0
    } else {
        (hi - 1) / block_size - lo / block_size + 1
    }
}

/// The `k`-th block that the bytes from `lo` up to `hi` touch, and the part
/// of them that lies in it.
pub open spec fn segment_at(block_size: int, lo: int, hi: int, k: int) -> Segment {
    let block = lo / block_size + k;
    let start = int_max(lo, block * block_size);
    let end = int_min(hi, (block + 1) * block_size);
    Segment {
        block_number: block as u32,
        block_offset: (start - block * block_size) as u32,
        block_length: (end - start) as u32,
        virtual_offset: start as u64,
    }
}

/// All parts of the bytes from `lo` up to `hi`, in order.
pub open spec fn segments_of(block_size: int, lo: int, hi: int) -> Seq<Segment> {
    Seq::new(segment_count(block_size, lo, hi) as nat, |k: int| segment_at(block_size, lo, hi, k))
}

/// A request that is not empty touches a block.
proof fn lemma_segment_count(block_size: int, lo: int, hi: int)
    requires
        0 < block_size,
        0 <= lo < hi,
    ensures
        0 <= lo / block_size <= (hi - 1) / block_size,
        segment_count(block_size, lo, hi) > 0,
{
    lemma_fundamental_div_mod(lo, block_size);
    lemma_fundamental_div_mod(hi - 1, block_size);
    let first = lo / block_size;
    let last = (hi - 1) / block_size;
    assert(0 <= first <= last) by (nonlinear_arith)
        requires
            lo == block_size * first + lo % block_size,
            hi - 1 == block_size * last + (hi - 1) % block_size,
            0 <= lo % block_size < block_size,
            0 <= (hi - 1) % block_size < block_size,
            lo <= hi - 1,
            lo >= 0,
            block_size > 0,
    ;
}

/// The `k`-th part lies within its block and within the request.
pub(crate) proof fn lemma_segment_bounds(block_size: int, lo: int, hi: int, k: int)
    requires
        0 < block_size,
        0 <= lo < hi,
        0 <= k < segment_count(block_size, lo, hi),
    ensures
        ({
            let block = lo / block_size + k;
            &&& 0 <= block <= (hi - 1) / block_size
            &&& 0 <= block * block_size < hi
            &&& lo < (block + 1) * block_size
            &&& (block + 1) * block_size == block * block_size + block_size
            &&& k == 0 ==> block * block_size <= lo
            &&& k > 0 ==> lo <= block * block_size
            &&& k + 1 == segment_count(block_size, lo, hi) ==> hi <= (block + 1) * block_size
            &&& k + 1 < segment_count(block_size, lo, hi) ==> (block + 1) * block_size < hi
        }),
{
    let block = lo / block_size + k;
    let first = lo / block_size;
    let last = (hi - 1) / block_size;
    lemma_fundamental_div_mod(lo, block_size);
    lemma_fundamental_div_mod(hi - 1, block_size);
    assert(first >= 0) by (nonlinear_arith)
        requires
            lo == block_size * first + lo % block_size,
            lo >= 0,
            block_size > 0,
            0 <= lo % block_size < block_size,
    ;
    assert(block * block_size <= block_size * last) by (nonlinear_arith)
        requires
            block <= last,
            block_size > 0,
    ;
    assert(block * block_size >= 0) by (nonlinear_arith)
        requires
            block >= 0,
            block_size > 0,
    ;
    assert((block + 1) * block_size == block * block_size + block_size) by (nonlinear_arith);
    assert(first * block_size == block_size * first && last * block_size == block_size * last)
        by (nonlinear_arith);
    if k > 0 {
        assert(block * block_size >= first * block_size + block_size) by (nonlinear_arith)
            requires
                block >= first + 1,
                block_size > 0,
        ;
    }
    if k + 1 < segment_count(block_size, lo, hi) {
        assert((block + 1) * block_size <= last * block_size) by (nonlinear_arith)
            requires
                block + 1 <= last,
                block_size > 0,
        ;
    }
}

/// The parts of a request are not empty, each lies in one block, the blocks
/// follow one another, and together the parts are the request: the first
/// starts where it starts, each next one where the one before ends, and the
/// last ends where it ends.
pub proof fn law_segments_tile_the_request(block_size: u32, lo: u64, len: u32, k: int)
    requires
        block_size > 0,
        len > 0,
        lo + len <= u64::MAX,
        (lo + len - 1) / (block_size as int) < 0x1_0000_0000,
        0 <= k < segments_of(block_size as int, lo as int, lo + len).len(),
    ensures
        ({
            let parts = segments_of(block_size as int, lo as int, lo + len);
            &&& parts[k].block_length > 0
            &&& parts[k].block_offset + parts[k].block_length <= block_size
            &&& parts[k].virtual_offset == parts[k].block_number * block_size
                + parts[k].block_offset
            &&& parts[k].block_number == parts[0].block_number + k
            &&& parts[0].virtual_offset == lo
            &&& k + 1 < parts.len() ==> parts[k + 1].virtual_offset == parts[k].virtual_offset
                + parts[k].block_length
            &&& k + 1 == parts.len() ==> parts[k].virtual_offset + parts[k].block_length == lo + len
        }),
{
    let bs = block_size as int;
    let hi = lo + len;
    lemma_segment_count(bs, lo as int, hi);
    lemma_segment_bounds(bs, lo as int, hi, k);
    lemma_segment_bounds(bs, lo as int, hi, 0);
    if k + 1 < segment_count(bs, lo as int, hi) {
        lemma_segment_bounds(bs, lo as int, hi, k + 1);
    }
}

/// Facts about all parts at once, as the functions that walk them use them.
pub(crate) proof fn lemma_segments(block_size: u32, lo: u64, len: u32)
    requires
        block_size > 0,
        len > 0,
        lo + len <= u64::MAX,
        (lo + len - 1) / (block_size as int) < 0x1_0000_0000,
    ensures
        ({
            let parts = segments_of(block_size as int, lo as int, lo + len);
            &&& 0 < parts.len() <= 0x1_0000_0000
            &&& forall|k: int|
                0 <= k < parts.len() ==> {
                    &&& (#[trigger] parts[k]).block_length > 0
                    &&& parts[k].block_offset + parts[k].block_length <= block_size
                    &&& parts[k].block_number == lo as int / block_size as int + k
                    &&& parts[k].block_number <= (lo + len - 1) / (block_size as int)
                }
        }),
{
    let bs = block_size as int;
    let hi = lo + len;
    let parts = segments_of(bs, lo as int, hi);
    lemma_segment_count(bs, lo as int, hi);
    assert forall|k: int| 0 <= k < parts.len() implies {
        &&& (#[trigger] parts[k]).block_length > 0
        &&& parts[k].block_offset + parts[k].block_length <= block_size
        &&& parts[k].block_number == lo as int / block_size as int + k
        &&& parts[k].block_number <= (lo + len - 1) / (block_size as int)
    } by {
        law_segments_tile_the_request(block_size, lo, len, k);
        lemma_segment_bounds(bs, lo as int, hi, k);
    }
}

/// Splits the bytes from `lo` on, `len` of them, at block boundaries.
pub fn split_request(block_size: u32, lo: u64, len: u32) -> (r: Vec<Segment>)
    requires
        block_size > 0,
        len > 0,
        lo + len <= u64::MAX,
        (lo + len - 1) / (block_size as int) < 0x1_0000_0000,
    ensures
        r@ == segments_of(block_size as int, lo as int, lo + len),
{
    let ghost hi = lo + len;
    let ghost bs = block_size as int;
    let mut out: Vec<Segment> = Vec::new();
    let mut done: u32 = 0;
    proof {
        lemma_segment_count(bs, lo as int, hi);
        lemma_segment_bounds(bs, lo as int, hi, 0);
    }
    while done < len
        invariant
            bs == block_size > 0,
            len > 0,
            hi == lo + len <= u64::MAX,
            done <= len,
            (hi - 1) / bs < 0x1_0000_0000,
            out@.len() <= segment_count(bs, lo as int, hi),
            done < len ==> out@.len() < segment_count(bs, lo as int, hi),
            done == len ==> out@.len() == segment_count(bs, lo as int, hi),
            done < len ==> lo + done == int_max(lo as int, (lo as int / bs + out@.len()) * bs),
            forall|k: int| 0 <= k < out@.len() ==> out@[k] == segment_at(bs, lo as int, hi, k),
        decreases len - done,
    {
        let ghost k = out@.len() as int;
        let ghost block = lo as int / bs + k;
        proof {
            lemma_segment_bounds(bs, lo as int, hi, k);
            if k + 1 < segment_count(bs, lo as int, hi) {
                lemma_segment_bounds(bs, lo as int, hi, k + 1);
            }
        }
        let virtual_offset: u64 = lo + done as u64;
        let block_number: u64 = virtual_offset / block_size as u64;
        let block_offset: u32 = (virtual_offset % block_size as u64) as u32;
        proof {
            let p = virtual_offset - block * bs;
            assert(bs * block == block * bs) by (nonlinear_arith);
            lemma_fundamental_div_mod_converse(virtual_offset as int, bs, block, p);
        }
        let room: u32 = block_size - block_offset;
        let rest: u32 = len - done;
        let block_length: u32 = if room <= rest {
            room
        } else {
            rest
        };
        out.push(
            Segment {
                block_number: block_number as u32,
                block_offset,
                block_length,
                virtual_offset,
            },
        );
        done += block_length;
    }
    assert(out@ =~= segments_of(bs, lo as int, hi));
    out
}

} // verus!
