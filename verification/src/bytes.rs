//! Integers in byte sequences.

use vstd::prelude::*;

verus! {

/// The 16-bit little-endian integer that starts at `at`.
pub open spec fn le16(s: Seq<u8>, at: int) -> u16 {
    (s[at] + 0x100 * s[at + 1]) as u16
}

/// The 32-bit little-endian integer that starts at `at`.
pub open spec fn le32(s: Seq<u8>, at: int) -> u32 {
    (s[at] + 0x100 * s[at + 1] + 0x1_0000 * s[at + 2] + 0x100_0000 * s[at + 3]) as u32
}

/// The 64-bit little-endian integer that starts at `at`.
pub open spec fn le64(s: Seq<u8>, at: int) -> u64 {
    (le32(s, at) + 0x1_0000_0000 * le32(s, at + 4)) as u64
}

/// The 32-bit big-endian integer that starts at `at`.
pub open spec fn be32(s: Seq<u8>, at: int) -> u32 {
    (s[at + 3] + 0x100 * s[at + 2] + 0x1_0000 * s[at + 1] + 0x100_0000 * s[at]) as u32
}

/// The 64-bit big-endian integer that starts at `at`.
pub open spec fn be64(s: Seq<u8>, at: int) -> u64 {
    (0x1_0000_0000 * be32(s, at) + be32(s, at + 4)) as u64
}

/// `s` with the bytes of `part` written over it from `at` on.
pub open spec fn overlay(s: Seq<u8>, at: int, part: Seq<u8>) -> Seq<u8> {
    Seq::new(
        s.len(),
        |i: int|
            if at <= i < at + part.len() {
                part[i - at]
            } else {
                s[i]
            },
    )
}

/// Reads a 16-bit little-endian integer.
pub fn get_u16(s: &[u8], at: usize) -> (r: u16)
    requires
        at + 2 <= s.len(),
    ensures
        r == le16(s@, at as int),
{
    s[at] as u16 + 0x100 * s[at + 1] as u16
}

/// Reads a 32-bit little-endian integer.
pub fn get_u32(s: &[u8], at: usize) -> (r: u32)
    requires
        at + 4 <= s.len(),
    ensures
        r == le32(s@, at as int),
{
    s[at] as u32 + 0x100 * s[at + 1] as u32 + 0x1_0000 * s[at + 2] as u32 + 0x100_0000 * s[at
        + 3] as u32
}

/// Reads a 64-bit little-endian integer.
pub fn get_u64(s: &[u8], at: usize) -> (r: u64)
    requires
        at + 8 <= s.len(),
    ensures
        r == le64(s@, at as int),
{
    get_u32(s, at) as u64 + 0x1_0000_0000 * get_u32(s, at + 4) as u64
}

/// Reads a 32-bit big-endian integer.
pub fn get_u32_be(s: &[u8], at: usize) -> (r: u32)
    requires
        at + 4 <= s.len(),
    ensures
        r == be32(s@, at as int),
{
    s[at + 3] as u32 + 0x100 * s[at + 2] as u32 + 0x1_0000 * s[at + 1] as u32 + 0x100_0000
        * s[at] as u32
}

/// Reads a 64-bit big-endian integer.
pub fn get_u64_be(s: &[u8], at: usize) -> (r: u64)
    requires
        at + 8 <= s.len(),
    ensures
        r == be64(s@, at as int),
{
    0x1_0000_0000 * get_u32_be(s, at) as u64 + get_u32_be(s, at + 4) as u64
}

/// Appends a 16-bit integer in little-endian order.
pub fn push_u16(buf: &mut Vec<u8>, x: u16)
    ensures
        final(buf)@.len() == old(buf)@.len() + 2,
        forall|i: int| 0 <= i < old(buf)@.len() ==> #[trigger] final(buf)@[i] == old(buf)@[i],
        le16(final(buf)@, old(buf)@.len() as int) == x,
{
    buf.push((x % 0x100) as u8);
    buf.push((x / 0x100) as u8);
}

/// Appends a 32-bit integer in little-endian order.
pub fn push_u32(buf: &mut Vec<u8>, x: u32)
    ensures
        final(buf)@.len() == old(buf)@.len() + 4,
        forall|i: int| 0 <= i < old(buf)@.len() ==> #[trigger] final(buf)@[i] == old(buf)@[i],
        le32(final(buf)@, old(buf)@.len() as int) == x,
{
    buf.push((x % 0x100) as u8);
    buf.push((x / 0x100 % 0x100) as u8);
    buf.push((x / 0x1_0000 % 0x100) as u8);
    buf.push((x / 0x100_0000) as u8);
}

/// Appends a 64-bit integer in little-endian order.
pub fn push_u64(buf: &mut Vec<u8>, x: u64)
    ensures
        final(buf)@.len() == old(buf)@.len() + 8,
        forall|i: int| 0 <= i < old(buf)@.len() ==> #[trigger] final(buf)@[i] == old(buf)@[i],
        le64(final(buf)@, old(buf)@.len() as int) == x,
{
    push_u32(buf, (x % 0x1_0000_0000) as u32);
    push_u32(buf, (x / 0x1_0000_0000) as u32);
}

/// Appends a 32-bit integer in big-endian order.
pub fn push_u32_be(buf: &mut Vec<u8>, x: u32)
    ensures
        final(buf)@.len() == old(buf)@.len() + 4,
        forall|i: int| 0 <= i < old(buf)@.len() ==> #[trigger] final(buf)@[i] == old(buf)@[i],
        be32(final(buf)@, old(buf)@.len() as int) == x,
{
    buf.push((x / 0x100_0000) as u8);
    buf.push((x / 0x1_0000 % 0x100) as u8);
    buf.push((x / 0x100 % 0x100) as u8);
    buf.push((x % 0x100) as u8);
}

/// Appends a 64-bit integer in big-endian order.
pub fn push_u64_be(buf: &mut Vec<u8>, x: u64)
    ensures
        final(buf)@.len() == old(buf)@.len() + 8,
        forall|i: int| 0 <= i < old(buf)@.len() ==> #[trigger] final(buf)@[i] == old(buf)@[i],
        be64(final(buf)@, old(buf)@.len() as int) == x,
{
    push_u32_be(buf, (x / 0x1_0000_0000) as u32);
    push_u32_be(buf, (x % 0x1_0000_0000) as u32);
}

/// Copies `part` over the bytes of `buf` from `at` on.
pub fn put_bytes(buf: &mut Vec<u8>, at: usize, part: &[u8])
    requires
        at + part.len() <= old(buf).len(),
    ensures
        final(buf)@ == overlay(old(buf)@, at as int, part@),
{
    let ghost before = buf@;
    assert(buf.len() == before.len());
    let mut i: usize = 0;
    while i < part.len()
        invariant
            i <= part@.len(),
            at + part@.len() <= before.len() <= usize::MAX,
            buf@ == overlay(before, at as int, part@.subrange(0, i as int)),
        decreases part@.len() - i,
    {
        buf.set(at + i, part[i]);
        i += 1;
    }
    assert(part@.subrange(0, i as int) == part@);
}

/// Copies the bytes from `from` up to `to`.
pub fn copy_range(s: &[u8], from: usize, to: usize) -> (r: Vec<u8>)
    requires
        from <= to <= s@.len(),
    ensures
        r@ == s@.subrange(from as int, to as int),
{
    let mut out: Vec<u8> = Vec::new();
    let mut i: usize = from;
    while i < to
        invariant
            from <= i <= to <= s@.len(),
            out@ == s@.subrange(from as int, i as int),
        decreases to - i,
    {
        out.push(s[i]);
        i += 1;
    }
    out
}

/// `n` zero bytes.
pub fn zero_bytes(n: usize) -> (r: Vec<u8>)
    ensures
        r@ == Seq::new(n as nat, |i: int| 0u8),
{
    let mut out: Vec<u8> = Vec::new();
    let mut i: usize = 0;
    while i < n
        invariant
            i <= n,
            out@ == Seq::new(i as nat, |k: int| 0u8),
        decreases n - i,
    {
        out.push(0);
        i += 1;
    }
    out
}

/// The digits of a number that is made of four bytes are those bytes.
proof fn lemma_four_digits(v: int, d0: u8, d1: u8, d2: u8, d3: u8)
    requires
        v == d0 + 0x100 * d1 + 0x1_0000 * d2 + 0x100_0000 * d3,
    ensures
        v % 0x100 == d0,
        v / 0x100 % 0x100 == d1,
        v / 0x1_0000 % 0x100 == d2,
        v / 0x100_0000 == d3,
{
    assert(v / 0x100 == d1 + 0x100 * d2 + 0x1_0000 * d3);
    assert(v / 0x1_0000 == d2 + 0x100 * d3);
}

/// A number that is made of two halves is divided into them.
proof fn lemma_halves(v: int, low: u32, high: u32)
    requires
        v == low + 0x1_0000_0000 * high,
    ensures
        v % 0x1_0000_0000 == low,
        v / 0x1_0000_0000 == high,
{
}

/// Each byte of a little-endian integer is a digit of it, the first the
/// lowest.
pub proof fn law_little_endian_digits(s: Seq<u8>, at: int)
    ensures
        le16(s, at) % 0x100 == s[at] && le16(s, at) / 0x100 == s[at + 1],
        le32(s, at) % 0x100 == s[at],
        le32(s, at) / 0x100 % 0x100 == s[at + 1],
        le32(s, at) / 0x1_0000 % 0x100 == s[at + 2],
        le32(s, at) / 0x100_0000 == s[at + 3],
        le64(s, at) % 0x1_0000_0000 == le32(s, at),
        le64(s, at) / 0x1_0000_0000 == le32(s, at + 4),
{
    lemma_four_digits(le32(s, at) as int, s[at], s[at + 1], s[at + 2], s[at + 3]);
    lemma_halves(le64(s, at) as int, le32(s, at), le32(s, at + 4));
}

/// Each byte of a big-endian integer is a digit of it, the first the highest.
pub proof fn law_big_endian_digits(s: Seq<u8>, at: int)
    ensures
        be32(s, at) / 0x100_0000 == s[at],
        be32(s, at) / 0x1_0000 % 0x100 == s[at + 1],
        be32(s, at) / 0x100 % 0x100 == s[at + 2],
        be32(s, at) % 0x100 == s[at + 3],
        be64(s, at) / 0x1_0000_0000 == be32(s, at),
        be64(s, at) % 0x1_0000_0000 == be32(s, at + 4),
{
    lemma_four_digits(be32(s, at) as int, s[at + 3], s[at + 2], s[at + 1], s[at]);
    lemma_halves(be64(s, at) as int, be32(s, at + 4), be32(s, at));
}

/// Bytes that are written over others are found where they were written, and
/// nothing else changes.
pub proof fn law_overlay_changes_only_its_part(s: Seq<u8>, at: int, part: Seq<u8>, i: int)
    requires
        0 <= i < s.len(),
    ensures
        overlay(s, at, part).len() == s.len(),
        at <= i < at + part.len() ==> overlay(s, at, part)[i] == part[i - at],
        i < at || at + part.len() <= i ==> overlay(s, at, part)[i] == s[i],
{
}

} // verus!
