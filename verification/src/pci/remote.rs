//! PCI devices whose accesses another process serves.

use vstd::prelude::*;

use crate::bytes::{be32, be64, get_u16, get_u32, get_u64, get_u64_be, get_u32_be, le16, le32, le64};

verus! {

/// Handle of a remote device.
#[derive(Debug, Clone, Copy, PartialEq, Eq, Structural)]
pub struct RemotePciDeviceHandle {}

/// Resolver of the handles of remote devices.
#[derive(Debug, Clone, Copy, PartialEq, Eq, Structural)]
pub struct RemotePciDeviceResolver {}

/// An access to a remote device.
#[derive(Debug, Clone, Copy, PartialEq, Eq, Structural)]
pub enum RemotePciRequest {
    /// Read from this address.
    MmioRead(u64),
    /// Write this value to this address.
    MmioWrite(u64, u64),
    /// Read from this offset in configuration space.
    ConfigRead(u16),
    /// Write this value to this offset in configuration space.
    ConfigWrite(u16, u32),
}

/// An access that waits for its answer.
#[derive(Debug, Clone, Copy, PartialEq, Eq, Structural)]
pub enum PendingIo {
    /// A read of this many bytes.
    MmioRead(usize),
    /// A write.
    MmioWrite,
    /// A read of configuration space.
    ConfigRead,
    /// A write to configuration space.
    ConfigWrite,
}

/// The value of 1, 2, 4 or 8 bytes, in the byte order of the machine.
pub open spec fn value_of(data: Seq<u8>, big_endian: bool) -> u64 {
    if data.len() == 1 {
        data[0] as u64
    } else if data.len() == 2 {
        if big_endian {
            (data[0] * 0x100 + data[1]) as u64
        } else {
            le16(data, 0) as u64
        }
    } else if data.len() == 4 {
        if big_endian {
            be32(data, 0) as u64
        } else {
            le32(data, 0) as u64
        }
    } else {
        if big_endian {
            be64(data, 0)
        } else {
            le64(data, 0)
        }
    }
}

/// Byte `i` of a value of `size` bytes, in the byte order of the machine.
pub open spec fn byte_of(value: u64, size: int, i: int, big_endian: bool) -> u8 {
    let shift = if big_endian {
        size - 1 - i
    } else {
        i
    };
    (value as int / power256(shift) % 256) as u8
}

/// The powers of 256 that fit a 64-bit number.
pub open spec fn power256(n: int) -> int {
    if n <= 0 {
        1
    } else if n == 1 {
        0x100
    } else if n == 2 {
        0x1_0000
    } else if n == 3 {
        0x100_0000
    } else if n == 4 {
        0x1_0000_0000
    } else if n == 5 {
        0x100_0000_0000
    } else if n == 6 {
        0x1_0000_0000_0000
    } else {
        0x100_0000_0000_0000
    }
}

fn divisor(n: usize) -> (r: u64)
    requires
        n < 8,
    ensures
        r == power256(n as int),
        r > 0,
{
    match n {
        0 => 1,
        1 => 0x100,
        2 => 0x1_0000,
        3 => 0x100_0000,
        4 => 0x1_0000_0000,
        5 => 0x100_0000_0000,
        6 => 0x1_0000_0000_0000,
        _ => 0x100_0000_0000_0000,
    }
}

/// The first `len` bytes of a value of `size` bytes.
fn value_bytes(value: u64, size: usize, len: usize, big_endian: bool) -> (r: Vec<u8>)
    requires
        len <= size <= 8,
    ensures
        r@ == Seq::new(len as nat, |i: int| byte_of(value, size as int, i, big_endian)),
{
    let mut out: Vec<u8> = Vec::new();
    let mut i: usize = 0;
    while i < len
        invariant
            i <= len <= size <= 8,
            out@ == Seq::new(i as nat, |k: int| byte_of(value, size as int, k, big_endian)),
        decreases len - i,
    {
        let shift: usize = if big_endian {
            size - 1 - i
        } else {
            i
        };
        let d: u64 = divisor(shift);
        out.push((value / d % 256) as u8);
        i += 1;
    }
    out
}

/// Starts a read of `len` bytes.
pub fn mmio_read(addr: u64, len: usize) -> (r: (RemotePciRequest, PendingIo))
    ensures
        r == (RemotePciRequest::MmioRead(addr), PendingIo::MmioRead(len)),
{
    (RemotePciRequest::MmioRead(addr), PendingIo::MmioRead(len))
}

/// Starts a write of 1, 2, 4 or 8 bytes.
pub fn mmio_write(addr: u64, data: &[u8], big_endian: bool) -> (r: (RemotePciRequest, PendingIo))
    requires
        data@.len() == 1 || data@.len() == 2 || data@.len() == 4 || data@.len() == 8,
    ensures
        r == (RemotePciRequest::MmioWrite(addr, value_of(data@, big_endian)), PendingIo::MmioWrite),
{
    let value: u64 = match data.len() {
        1 => data[0] as u64,
        2 => if big_endian {
            data[0] as u64 * 0x100 + data[1] as u64
        } else {
            get_u16(data, 0) as u64
        },
        4 => if big_endian {
            get_u32_be(data, 0) as u64
        } else {
            get_u32(data, 0) as u64
        },
        _ => if big_endian {
            get_u64_be(data, 0)
        } else {
            get_u64(data, 0)
        },
    };
    (RemotePciRequest::MmioWrite(addr, value), PendingIo::MmioWrite)
}

/// Starts a read of configuration space.
pub fn pci_cfg_read(offset: u16) -> (r: (RemotePciRequest, PendingIo))
    ensures
        r == (RemotePciRequest::ConfigRead(offset), PendingIo::ConfigRead),
{
    (RemotePciRequest::ConfigRead(offset), PendingIo::ConfigRead)
}

/// Starts a write to configuration space.
pub fn pci_cfg_write(offset: u16, value: u32) -> (r: (RemotePciRequest, PendingIo))
    ensures
        r == (RemotePciRequest::ConfigWrite(offset, value), PendingIo::ConfigWrite),
{
    (RemotePciRequest::ConfigWrite(offset, value), PendingIo::ConfigWrite)
}

/// The bytes that an access hands back for its answer. A read that failed
/// reads as all ones; a write hands back nothing.
pub open spec fn completion(pending: PendingIo, answer: Option<u64>, big_endian: bool) -> Seq<u8> {
    match pending {
        PendingIo::MmioRead(len) => {
            let value = match answer {
                Some(v) => v,
                None => 0xffff_ffff_ffff_ffff,
            };
            Seq::new(len as nat, |i: int| byte_of(value, 8, i, big_endian))
        },
        PendingIo::ConfigRead => {
            let value = match answer {
                Some(v) => (v % 0x1_0000_0000) as u64,
                None => 0xffff_ffff,
            };
            Seq::new(4, |i: int| byte_of(value, 4, i, big_endian))
        },
        _ => Seq::empty(),
    }
}

impl PendingIo {
    /// Completes an access with its answer, or with none if it failed.
    pub fn complete(&self, answer: Option<u64>, big_endian: bool) -> (r: Vec<u8>)
        requires
            *self matches PendingIo::MmioRead(len) ==> len <= 8,
        ensures
            r@ == completion(*self, answer, big_endian),
    {
        match self {
            PendingIo::MmioRead(len) => {
                let value: u64 = match answer {
                    Some(v) => v,
                    None => 0xffff_ffff_ffff_ffff,
                };
                value_bytes(value, 8, *len, big_endian)
            },
            PendingIo::ConfigRead => {
                let value: u64 = match answer {
                    Some(v) => v % 0x1_0000_0000,
                    None => 0xffff_ffff,
                };
                value_bytes(value, 4, 4, big_endian)
            },
            PendingIo::MmioWrite | PendingIo::ConfigWrite => Vec::new(),
        }
    }
}

/// The bytes of a 32-bit number that is made of four bytes.
proof fn lemma_bytes32(v: int, b0: u8, b1: u8, b2: u8, b3: u8)
    requires
        v == b0 + 0x100 * b1 + 0x1_0000 * b2 + 0x100_0000 * b3,
    ensures
        v % 256 == b0,
        v / 0x100 % 256 == b1,
        v / 0x1_0000 % 256 == b2,
        v / 0x100_0000 == b3,
{
    assert(v / 0x100 == b1 + 0x100 * b2 + 0x1_0000 * b3);
    assert(v / 0x1_0000 == b2 + 0x100 * b3);
}

/// The bytes of a 64-bit number are those of its halves.
proof fn lemma_bytes64(v: int, lo: int, hi: int)
    requires
        v == lo + 0x1_0000_0000 * hi,
        0 <= lo < 0x1_0000_0000,
        0 <= hi < 0x1_0000_0000,
    ensures
        v % 256 == lo % 256,
        v / 0x100 % 256 == lo / 0x100 % 256,
        v / 0x1_0000 % 256 == lo / 0x1_0000 % 256,
        v / 0x100_0000 % 256 == lo / 0x100_0000 % 256,
        v / 0x1_0000_0000 % 256 == hi % 256,
        v / 0x100_0000_0000 % 256 == hi / 0x100 % 256,
        v / 0x1_0000_0000_0000 % 256 == hi / 0x1_0000 % 256,
        v / 0x100_0000_0000_0000 % 256 == hi / 0x100_0000 % 256,
{
    assert(v / 0x100 == lo / 0x100 + 0x100_0000 * hi);
    assert(v / 0x1_0000 == lo / 0x1_0000 + 0x1_0000 * hi);
    assert(v / 0x100_0000 == lo / 0x100_0000 + 0x100 * hi);
    assert(v / 0x1_0000_0000 == hi);
    assert(v / 0x100_0000_0000 == hi / 0x100);
    assert(v / 0x1_0000_0000_0000 == hi / 0x1_0000);
    assert(v / 0x100_0000_0000_0000 == hi / 0x100_0000);
}

/// The digits of a number that is made of eight bytes are those bytes.
proof fn lemma_digit(v: int, d: Seq<u8>, k: int)
    requires
        d.len() == 8,
        0 <= k < 8,
        v == (d[0] + 0x100 * d[1] + 0x1_0000 * d[2] + 0x100_0000 * d[3]) + 0x1_0000_0000 * (d[4]
            + 0x100 * d[5] + 0x1_0000 * d[6] + 0x100_0000 * d[7]),
    ensures
        v / power256(k) % 256 == d[k],
{
    let lo = d[0] + 0x100 * d[1] + 0x1_0000 * d[2] + 0x100_0000 * d[3];
    let hi = d[4] + 0x100 * d[5] + 0x1_0000 * d[6] + 0x100_0000 * d[7];
    lemma_bytes32(lo, d[0], d[1], d[2], d[3]);
    lemma_bytes32(hi, d[4], d[5], d[6], d[7]);
    lemma_bytes64(v, lo, hi);
}

/// A number below two to the power of 32 is the sum of its digits.
proof fn lemma_sum32(v: int)
    requires
        0 <= v < 0x1_0000_0000,
    ensures
        v == v % 256 + 0x100 * (v / 0x100 % 256) + 0x1_0000 * (v / 0x1_0000 % 256) + 0x100_0000 * (v
            / 0x100_0000 % 256),
{
    let q1 = v / 0x100;
    let q2 = v / 0x1_0000;
    let q3 = v / 0x100_0000;
    assert(q2 == q1 / 0x100);
    assert(q3 == q2 / 0x100);
    assert(v == v % 256 + 0x100 * q1);
    assert(q1 == q1 % 256 + 0x100 * q2);
    assert(q2 == q2 % 256 + 0x100 * q3);
    assert(q3 == q3 % 256);
}

/// A 64-bit number is the sum of its digits.
proof fn lemma_sum64(v: int)
    requires
        0 <= v < 0x1_0000_0000_0000_0000,
    ensures
        v == (v % 256 + 0x100 * (v / 0x100 % 256) + 0x1_0000 * (v / 0x1_0000 % 256) + 0x100_0000 * (
        v / 0x100_0000 % 256)) + 0x1_0000_0000 * (v / 0x1_0000_0000 % 256 + 0x100 * (v
            / 0x100_0000_0000 % 256) + 0x1_0000 * (v / 0x1_0000_0000_0000 % 256) + 0x100_0000 * (v
            / 0x100_0000_0000_0000 % 256)),
{
    let (lo, hi) = (v % 0x1_0000_0000, v / 0x1_0000_0000);
    lemma_bytes64(v, lo, hi);
    lemma_sum32(lo);
    lemma_sum32(hi);
}

/// The value of a write is that of its bytes in the order of the machine: each
/// byte is a digit of it, and there are no others.
pub proof fn law_written_value_is_that_of_the_bytes(data: Seq<u8>, i: int)
    requires
        data.len() == 1 || data.len() == 2 || data.len() == 4 || data.len() == 8,
        0 <= i < data.len(),
    ensures
        value_of(data, false) as int / power256(i) % 256 == data[i],
        value_of(data, true) as int / power256(data.len() - 1 - i) % 256 == data[i],
        data.len() == 1 ==> value_of(data, true) < 0x100 && value_of(data, false) < 0x100,
        data.len() == 2 ==> value_of(data, true) < 0x1_0000 && value_of(data, false) < 0x1_0000,
        data.len() == 4 ==> value_of(data, true) < 0x1_0000_0000 && value_of(data, false)
            < 0x1_0000_0000,
{
    let n = data.len() as int;
    let up = Seq::new(
        8,
        |k: int|
            if k < n {
                data[k]
            } else {
                0u8
            },
    );
    let down = Seq::new(
        8,
        |k: int|
            if k < n {
                data[n - 1 - k]
            } else {
                0u8
            },
    );
    lemma_digit(value_of(data, false) as int, up, i);
    lemma_digit(value_of(data, true) as int, down, n - 1 - i);
}

/// The weights of the digits are one and, from each digit to the next, 256
/// times more.
pub proof fn law_weights_of_digits(n: int)
    ensures
        power256(0) == 1,
        0 <= n < 7 ==> power256(n + 1) == 256 * power256(n),
{
}

/// Reading back a value that was written gives the bytes that were written:
/// on a little-endian machine for every size, on a big-endian one for eight
/// bytes. (There a shorter read gives the upper bytes of the value.)
pub proof fn law_remote_write_reads_back(data: Seq<u8>, big_endian: bool)
    requires
        data.len() == 1 || data.len() == 2 || data.len() == 4 || data.len() == 8,
        big_endian ==> data.len() == 8,
    ensures
        completion(
            PendingIo::MmioRead(data.len() as usize),
            Some(value_of(data, big_endian)),
            big_endian,
        ) == data,
{
    let v = value_of(data, big_endian);
    let back = completion(PendingIo::MmioRead(data.len() as usize), Some(v), big_endian);
    assert(back.len() == data.len());
    assert forall|i: int| 0 <= i < data.len() implies back[i] == data[i] by {
        assert(back[i] == byte_of(v, 8, i, big_endian));
        law_written_value_is_that_of_the_bytes(data, i);
    }
    assert(back =~= data);
}

/// A read of a device that is answered gives the bytes of the answer in the
/// order of the machine, a short one the first of them.
pub proof fn law_answer_is_read_as_it_is(len: usize, answer: u64, i: int)
    requires
        len <= 8,
        0 <= i < len,
    ensures
        completion(PendingIo::MmioRead(len), Some(answer), false).len() == len,
        completion(PendingIo::MmioRead(len), Some(answer), true).len() == len,
        le64(completion(PendingIo::MmioRead(8), Some(answer), false), 0) == answer,
        be64(completion(PendingIo::MmioRead(8), Some(answer), true), 0) == answer,
        completion(PendingIo::MmioRead(len), Some(answer), false)[i] == completion(
            PendingIo::MmioRead(8),
            Some(answer),
            false,
        )[i],
        completion(PendingIo::MmioRead(len), Some(answer), true)[i] == completion(
            PendingIo::MmioRead(8),
            Some(answer),
            true,
        )[i],
{
    lemma_sum64(answer as int);
}

/// A read of the configuration space gives the lower 32 bits of the answer in
/// the order of the machine.
pub proof fn law_register_is_read_as_it_is(answer: u64)
    ensures
        completion(PendingIo::ConfigRead, Some(answer), false).len() == 4,
        completion(PendingIo::ConfigRead, Some(answer), true).len() == 4,
        le32(completion(PendingIo::ConfigRead, Some(answer), false), 0) == answer % 0x1_0000_0000,
        be32(completion(PendingIo::ConfigRead, Some(answer), true), 0) == answer % 0x1_0000_0000,
{
    lemma_sum32(answer as int % 0x1_0000_0000);
}

/// A read that is not answered gives all ones, and a write gives nothing.
pub proof fn law_missing_answer_reads_as_ones(
    len: usize,
    answer: Option<u64>,
    big_endian: bool,
    i: int,
)
    requires
        len <= 8,
    ensures
        0 <= i < len ==> completion(PendingIo::MmioRead(len), None, big_endian)[i] == 0xff,
        0 <= i < 4 ==> completion(PendingIo::ConfigRead, None, big_endian)[i] == 0xff,
        completion(PendingIo::MmioWrite, answer, big_endian).len() == 0,
        completion(PendingIo::ConfigWrite, answer, big_endian).len() == 0,
{
    if 0 <= i < len {
        lemma_ones(0xffff_ffff_ffff_ffff, if big_endian {
            7 - i
        } else {
            i
        });
    }
    if 0 <= i < 4 {
        lemma_ones(0xffff_ffff, if big_endian {
            3 - i
        } else {
            i
        });
    }
}

/// Every digit of a number that is all ones is all ones.
proof fn lemma_ones(v: int, k: int)
    requires
        v == 0xffff_ffff && 0 <= k < 4 || v == 0xffff_ffff_ffff_ffff && 0 <= k < 8,
    ensures
        v / power256(k) % 256 == 0xff,
{
    if k == 0 {
        assert(power256(k) == 1);
    } else if k == 1 {
        assert(power256(k) == 0x100);
    } else if k == 2 {
        assert(power256(k) == 0x1_0000);
    } else if k == 3 {
        assert(power256(k) == 0x100_0000);
    } else if k == 4 {
        assert(power256(k) == 0x1_0000_0000);
    } else if k == 5 {
        assert(power256(k) == 0x100_0000_0000);
    } else if k == 6 {
        assert(power256(k) == 0x1_0000_0000_0000);
    }
}

/// A request carries what was asked: the address or the register, and of a
/// write the value. What is pending of it is of the same kind.
pub proof fn law_request_carries_what_was_asked(
    addr: u64,
    len: usize,
    offset: u16,
    value: u32,
    read: (RemotePciRequest, PendingIo),
    config_read: (RemotePciRequest, PendingIo),
    config_write: (RemotePciRequest, PendingIo),
)
    requires
        call_ensures(mmio_read, (addr, len), read),
        call_ensures(pci_cfg_read, (offset,), config_read),
        call_ensures(pci_cfg_write, (offset, value), config_write),
    ensures
        read.0 == RemotePciRequest::MmioRead(addr),
        read.1 == PendingIo::MmioRead(len),
        config_read.0 == RemotePciRequest::ConfigRead(offset),
        config_read.1 is ConfigRead,
        config_write.0 == RemotePciRequest::ConfigWrite(offset, value),
        config_write.1 is ConfigWrite,
{
}

} // verus!
