//! The block allocation table (BAT).
//!
//! The table interleaves entries of payload blocks with entries of sector
//! bitmap blocks: every `chunk_ratio` payload entries are followed by one
//! sector bitmap entry.

use vstd::arithmetic::div_mod::{
    lemma_div_is_ordered, lemma_fundamental_div_mod, lemma_fundamental_div_mod_converse,
};
use vstd::arithmetic::mul::lemma_mul_is_distributive_add;
use vstd::prelude::*;

use super::error::{CorruptionType, VhdxError};
use super::format::{BatEntry, BatEntryState, MB1, SECTORS_PER_CHUNK};

verus! {

/// Cache tag of the pages of the BAT region.
pub const BAT_TAG: u8 = 0;

/// Cache tag of the pages of the metadata region.
pub const METADATA_TAG: u8 = 1;

/// Size of a sector bitmap block in bytes.
pub const SECTOR_BITMAP_BLOCK_SIZE: u32 = 1024 * 1024;

/// Refcount value of a block that trim has claimed.
pub const TRIM_SENTINEL: u32 = 0xffff_ffff;

/// Largest file offset in MiB that an [`InternalBlockMapping`] can hold.
pub const MAX_FILE_MEGABYTE: u32 = 0x0fff_ffff;

/// Geometry of the block allocation table of a disk.
#[derive(Debug, Clone, Copy, PartialEq, Eq, Structural)]
pub struct Bat {
    /// Number of payload blocks of the disk.
    pub data_block_count: u32,
    /// Number of sector bitmap blocks. Zero without a parent.
    pub sector_bitmap_block_count: u32,
    /// Number of payload blocks per sector bitmap block.
    pub chunk_ratio: u32,
    /// Block size in bytes.
    pub block_size: u32,
    /// Whether the disk has a parent.
    pub has_parent: bool,
}

/// In-memory form of a BAT entry: the state in bits 0 to 2, the transition
/// flag in bit 3, the file offset in MiB in bits 4 to 31.
#[derive(Debug, Clone, Copy, PartialEq, Eq, Structural)]
pub struct InternalBlockMapping {
    /// The packed value.
    pub raw: u32,
}

/// What kind of block a BAT entry describes.
#[derive(Debug, Clone, Copy, PartialEq, Eq, Structural)]
pub enum BlockType {
    /// A block of disk data.
    Payload,
    /// A block of sector presence bits.
    SectorBitmap,
}

impl InternalBlockMapping {
    /// The mapping with the given parts.
    pub open spec fn of(state: u8, tfp: bool, mb: u32) -> InternalBlockMapping {
        InternalBlockMapping {
            raw: (state + (if tfp {
                8int
            } else {
                0
            }) + 16 * mb) as u32,
        }
    }

    /// The block state.
    pub open spec fn spec_state(self) -> u8 {
        (self.raw % 8) as u8
    }

    /// Whether the block is being allocated and its data may be in flight.
    pub open spec fn tfp(self) -> bool {
        self.raw / 8 % 2 == 1
    }

    /// The file offset in MiB.
    pub open spec fn mb(self) -> u32 {
        self.raw / 16
    }

    /// Whether the state counts as backed by file space.
    pub open spec fn allocated(self) -> bool {
        self.spec_state() == 6 || self.spec_state() == 7
    }

    /// The mapping of an on-disk entry. `PartiallyPresent` is read as
    /// `FullyPresent` where `normalize` is set.
    pub open spec fn of_entry(entry: BatEntry, normalize: bool) -> InternalBlockMapping {
        Self::of(
            if normalize && entry.spec_state() == 7 {
                6
            } else {
                entry.spec_state()
            },
            false,
            entry.spec_file_offset_mb() as u32,
        )
    }

    /// The all-zero mapping: not present.
    pub fn new() -> (r: Self)
        ensures
            r == Self::of(0, false, 0),
    {
        InternalBlockMapping { raw: 0 }
    }

    /// The block state.
    pub fn state(&self) -> (r: u8)
        ensures
            r == self.spec_state(),
            r < 8,
    {
        (self.raw % 8) as u8
    }

    /// Whether space is allocated for the block while its data may still be
    /// in flight.
    pub fn transitioning_to_fully_present(&self) -> (r: bool)
        ensures
            r == self.tfp(),
    {
        self.raw / 8 % 2 == 1
    }

    /// The file offset in MiB.
    pub fn file_megabyte(&self) -> (r: u32)
        ensures
            r == self.mb(),
            r <= MAX_FILE_MEGABYTE,
    {
        self.raw / 16
    }

    /// The mapping with the state replaced.
    pub fn with_state(self, state: u8) -> (r: Self)
        requires
            state < 8,
        ensures
            r == Self::of(state, self.tfp(), self.mb()),
    {
        InternalBlockMapping { raw: self.raw - self.raw % 8 + state as u32 }
    }

    /// The mapping with the transition flag replaced.
    pub fn with_transitioning_to_fully_present(self, on: bool) -> (r: Self)
        ensures
            r == Self::of(self.spec_state(), on, self.mb()),
    {
        let flag: u32 = if on {
            8
        } else {
            0
        };
        InternalBlockMapping { raw: self.raw % 8 + flag + self.raw / 16 * 16 }
    }

    /// The mapping with the file offset replaced.
    pub fn with_file_megabyte(self, mb: u32) -> (r: Self)
        requires
            mb <= MAX_FILE_MEGABYTE,
        ensures
            r == Self::of(self.spec_state(), self.tfp(), mb),
    {
        InternalBlockMapping { raw: self.raw % 16 + mb * 16 }
    }

    /// The file offset in bytes.
    pub fn file_offset(self) -> (r: u64)
        ensures
            r == self.mb() * MB1,
            r <= MAX_FILE_MEGABYTE * MB1,
    {
        self.file_megabyte() as u64 * MB1
    }

    /// The block state. Only the values that stand for a state are held.
    pub fn bat_state(self) -> (r: BatEntryState)
        requires
            BatEntryState::of_raw(self.spec_state()) is Some,
        ensures
            Some(r) == BatEntryState::of_raw(self.spec_state()),
            r.raw() == self.spec_state(),
    {
        BatEntryState::from_raw(self.state()).unwrap()
    }

    /// The mapping of an on-disk payload entry. Without a parent,
    /// `PartiallyPresent` is read as `FullyPresent`.
    pub fn from_bat_entry(entry: BatEntry, has_parent: bool) -> (r: Self)
        requires
            entry.spec_file_offset_mb() <= MAX_FILE_MEGABYTE,
        ensures
            r == Self::of_entry(entry, !has_parent),
    {
        let mut state: u8 = entry.state();
        if !has_parent && state == 7 {
            state = 6;
        }
        InternalBlockMapping::new().with_state(state).with_transitioning_to_fully_present(
            false,
        ).with_file_megabyte(entry.file_offset_mb() as u32)
    }

    /// The mapping of an on-disk sector bitmap entry. `PartiallyPresent` is
    /// read as `FullyPresent`.
    pub fn from_sbm_bat_entry(entry: BatEntry) -> (r: Self)
        requires
            entry.spec_file_offset_mb() <= MAX_FILE_MEGABYTE,
        ensures
            r == Self::of_entry(entry, true),
    {
        let mut state: u8 = entry.state();
        if state == 7 {
            state = 6;
        }
        InternalBlockMapping::new().with_state(state).with_transitioning_to_fully_present(
            false,
        ).with_file_megabyte(entry.file_offset_mb() as u32)
    }
}

impl From<u32> for InternalBlockMapping {
    fn from(raw: u32) -> (r: Self) {
        InternalBlockMapping { raw }
    }
}

impl vstd::std_specs::convert::FromSpecImpl<u32> for InternalBlockMapping {
    open spec fn obeys_from_spec() -> bool {
        true
    }

    open spec fn from_spec(raw: u32) -> Self {
        InternalBlockMapping { raw }
    }
}

impl From<InternalBlockMapping> for u32 {
    fn from(mapping: InternalBlockMapping) -> (r: u32) {
        mapping.raw
    }
}

impl vstd::std_specs::convert::FromSpecImpl<InternalBlockMapping> for u32 {
    open spec fn obeys_from_spec() -> bool {
        true
    }

    open spec fn from_spec(mapping: InternalBlockMapping) -> u32 {
        mapping.raw
    }
}

/// A mapping is made of its three parts, and each part can be read back.
pub proof fn law_mapping_parts(state: u8, tfp: bool, mb: u32, mapping: InternalBlockMapping)
    requires
        state < 8,
        mb <= MAX_FILE_MEGABYTE,
    ensures
        InternalBlockMapping::of(state, tfp, mb).spec_state() == state,
        InternalBlockMapping::of(state, tfp, mb).tfp() == tfp,
        InternalBlockMapping::of(state, tfp, mb).mb() == mb,
        InternalBlockMapping::of(mapping.spec_state(), mapping.tfp(), mapping.mb()) == mapping,
{
}

/// Writing a settled mapping as an on-disk entry and reading it back gives
/// the mapping, on a disk with a parent.
pub proof fn law_entry_round_trip(mapping: InternalBlockMapping)
    requires
        !mapping.tfp(),
    ensures
        InternalBlockMapping::of_entry(
            BatEntry::of(mapping.spec_state(), mapping.mb() as u64),
            false,
        ) == mapping,
{
    let entry = BatEntry::of(mapping.spec_state(), mapping.mb() as u64);
    assert(entry.spec_state() == mapping.spec_state());
    assert(entry.spec_file_offset_mb() == mapping.mb());
    law_mapping_parts(mapping.spec_state(), false, mapping.mb(), mapping);
}

/// Number of allocated blocks among `mappings`.
pub open spec fn allocated_count(mappings: Seq<InternalBlockMapping>) -> nat
    decreases mappings.len(),
{
    if mappings.len() == 0 {
        0
    } else {
        allocated_count(mappings.drop_last()) + (if mappings.last().allocated() {
            1nat
        } else {
            0
        })
    }
}

proof fn lemma_allocated_count_bound(mappings: Seq<InternalBlockMapping>)
    ensures
        allocated_count(mappings) <= mappings.len(),
    decreases mappings.len(),
{
    if mappings.len() > 0 {
        lemma_allocated_count_bound(mappings.drop_last());
    }
}

proof fn lemma_allocated_count_update(
    mappings: Seq<InternalBlockMapping>,
    at: int,
    new: InternalBlockMapping,
)
    requires
        0 <= at < mappings.len(),
    ensures
        allocated_count(mappings.update(at, new)) == allocated_count(mappings) - (
        if mappings[at].allocated() {
            1int
        } else {
            0
        }) + (if new.allocated() {
            1int
        } else {
            0
        }),
    decreases mappings.len(),
{
    let updated = mappings.update(at, new);
    if at == mappings.len() - 1 {
        assert(updated.drop_last() == mappings.drop_last());
    } else {
        assert(updated.drop_last() == mappings.drop_last().update(at, new));
        lemma_allocated_count_update(mappings.drop_last(), at, new);
    }
}

/// An allocated block makes the count positive, and a block that is not
/// allocated leaves room below the number of blocks.
proof fn lemma_allocated_count_at(mappings: Seq<InternalBlockMapping>, at: int)
    requires
        0 <= at < mappings.len(),
    ensures
        mappings[at].allocated() ==> allocated_count(mappings) > 0,
        !mappings[at].allocated() ==> allocated_count(mappings) < mappings.len(),
    decreases mappings.len(),
{
    if at == mappings.len() - 1 {
        lemma_allocated_count_bound(mappings.drop_last());
    } else {
        lemma_allocated_count_at(mappings.drop_last(), at);
    }
}

/// In-memory state of the block allocation table.
#[derive(Debug)]
pub struct BatState {
    /// One mapping per payload block.
    pub payload_mappings: Vec<InternalBlockMapping>,
    /// One mapping per sector bitmap block.
    pub sector_bitmap_mappings: Vec<InternalBlockMapping>,
    /// Number of allocated payload blocks.
    pub allocated_block_count: u32,
}

/// Whether a raw block state counts as backed by file space.
pub fn is_allocated_state(state: u8) -> (r: bool)
    ensures
        r == (state == 6 || state == 7),
{
    state == 6 || state == 7
}

impl BatState {
    /// The running count is the number of allocated payload blocks.
    pub open spec fn wf(self) -> bool {
        self.allocated_block_count == allocated_count(self.payload_mappings@)
    }

    /// The state has one mapping for every block of `bat`.
    pub open spec fn matches_bat(self, bat: Bat) -> bool {
        &&& self.payload_mappings@.len() == bat.data_block_count
        &&& self.sector_bitmap_mappings@.len() == bat.sector_bitmap_block_count
    }

    /// The mapping of a payload block.
    pub fn get_payload_mapping(&self, block_number: u32) -> (r: InternalBlockMapping)
        requires
            block_number < self.payload_mappings@.len(),
        ensures
            r == self.payload_mappings@[block_number as int],
    {
        self.payload_mappings[block_number as usize]
    }

    /// The mapping of a sector bitmap block.
    pub fn get_sbm_mapping(&self, chunk_number: u32) -> (r: InternalBlockMapping)
        requires
            chunk_number < self.sector_bitmap_mappings@.len(),
        ensures
            r == self.sector_bitmap_mappings@[chunk_number as int],
    {
        self.sector_bitmap_mappings[chunk_number as usize]
    }

    /// Replaces the mapping of a payload block and keeps the count of
    /// allocated blocks.
    pub fn set_payload_mapping(
        &mut self,
        bat: &Bat,
        block_number: u32,
        mapping: InternalBlockMapping,
    )
        requires
            old(self).wf(),
            block_number < old(self).payload_mappings@.len(),
            old(self).payload_mappings@.len() <= u32::MAX,
        ensures
            final(self).wf(),
            final(self).payload_mappings@ == old(self).payload_mappings@.update(
                block_number as int,
                mapping,
            ),
            final(self).sector_bitmap_mappings@ == old(self).sector_bitmap_mappings@,
    {
        let was: InternalBlockMapping = self.payload_mappings[block_number as usize];
        let was_allocated = is_allocated_state(was.state());
        let now_allocated = is_allocated_state(mapping.state());
        proof {
            lemma_allocated_count_update(self.payload_mappings@, block_number as int, mapping);
            lemma_allocated_count_at(self.payload_mappings@, block_number as int);
        }
        if was_allocated && !now_allocated {
            self.allocated_block_count = self.allocated_block_count - 1;
        } else if !was_allocated && now_allocated {
            self.allocated_block_count = self.allocated_block_count + 1;
        }
        self.payload_mappings.set(block_number as usize, mapping);
    }

    /// Replaces the mapping of a sector bitmap block.
    pub fn set_sbm_mapping(&mut self, bat: &Bat, chunk_number: u32, mapping: InternalBlockMapping)
        requires
            chunk_number < old(self).sector_bitmap_mappings@.len(),
        ensures
            final(self).sector_bitmap_mappings@ == old(self).sector_bitmap_mappings@.update(
                chunk_number as int,
                mapping,
            ),
            final(self).payload_mappings@ == old(self).payload_mappings@,
            final(self).allocated_block_count == old(self).allocated_block_count,
    {
        self.sector_bitmap_mappings.set(chunk_number as usize, mapping);
    }
}

/// Quotient rounded up.
pub open spec fn quotient_up(a: int, b: int) -> int {
    (a + b - 1) / b
}

/// Quotient rounded up.
pub fn ceil_div(a: u64, b: u64) -> (r: u64)
    requires
        b > 0,
    ensures
        r == quotient_up(a as int, b as int),
{
    let q: u64 = a / b;
    proof {
        let (x, y) = (a as int, b as int);
        lemma_fundamental_div_mod(x, y);
        if x % y == 0 {
            assert(x + y - 1 == y * (x / y) + (y - 1));
            lemma_fundamental_div_mod_converse(x + y - 1, y, x / y, y - 1);
        } else {
            lemma_mul_is_distributive_add(y, x / y, 1);
            assert(x + y - 1 == y * (x / y + 1) + (x % y - 1));
            lemma_fundamental_div_mod_converse(x + y - 1, y, x / y + 1, x % y - 1);
            assert(y * (x / y) <= x);
            assert(x / y < u64::MAX) by (nonlinear_arith)
                requires
                    x % y != 0,
                    0 <= x <= u64::MAX,
                    y > 0,
                    x == y * (x / y) + x % y,
                    0 <= x % y < y,
            ;
        }
    }
    if a % b == 0 {
        q
    } else {
        q + 1
    }
}

/// Number of payload blocks per sector bitmap block: the sectors of a chunk
/// over the sectors of a block. Zero where a block holds no whole sector.
pub open spec fn chunk_ratio_of(block_size: int, logical_sector_size: int) -> int {
    if logical_sector_size == 0 || block_size / logical_sector_size == 0 {
        0
    } else {
        SECTORS_PER_CHUNK as int / (block_size / logical_sector_size)
    }
}

/// Number of payload blocks per sector bitmap block.
pub fn chunk_block_count(block_size: u32, logical_sector_size: u32) -> (r: u32)
    ensures
        r == chunk_ratio_of(block_size as int, logical_sector_size as int),
        r <= SECTORS_PER_CHUNK,
{
    if logical_sector_size == 0 {
        return 0;
    }
    let sectors_per_block: u64 = (block_size / logical_sector_size) as u64;
    if sectors_per_block == 0 {
        return 0;
    }
    proof {
        lemma_div_is_ordered(1, sectors_per_block as int, 1);
        assert(SECTORS_PER_CHUNK as int / sectors_per_block as int <= SECTORS_PER_CHUNK)
            by (nonlinear_arith)
            requires
                sectors_per_block >= 1,
        ;
    }
    (SECTORS_PER_CHUNK / sectors_per_block) as u32
}

/// Number of payload blocks of a disk, as a 32-bit number.
pub open spec fn data_blocks(disk_size: int, block_size: int) -> int {
    quotient_up(disk_size, block_size) % 0x1_0000_0000
}

/// Number of sector bitmap blocks.
pub open spec fn bitmap_blocks(data_block_count: int, chunk_ratio: int, has_parent: bool) -> int {
    if has_parent {
        quotient_up(data_block_count, chunk_ratio)
    } else {
        0
    }
}

/// Number of BAT entries: whole chunks with a parent; without one, the
/// payload entries and the bitmap slots between them.
pub open spec fn entry_count(data_block_count: int, chunk_ratio: int, has_parent: bool) -> int {
    if has_parent {
        bitmap_blocks(data_block_count, chunk_ratio, has_parent) * (chunk_ratio + 1)
    } else if data_block_count == 0 {
        0
    } else {
        data_block_count + (data_block_count - 1) / chunk_ratio
    }
}

pub(crate) proof fn lemma_quotient_up_bounds(a: int, b: int)
    requires
        a >= 0,
        b > 0,
    ensures
        0 <= quotient_up(a, b) <= a,
        a <= quotient_up(a, b) * b < a + b,
        a > 0 ==> quotient_up(a, b) > 0,
{
    let q = quotient_up(a, b);
    lemma_fundamental_div_mod(a + b - 1, b);
    assert(q * b == b * q) by (nonlinear_arith);
    assert(a <= q * b < a + b);
    assert(q <= a) by (nonlinear_arith)
        requires
            q * b < a + b,
            b >= 1,
            a >= 0,
    ;
    assert(q >= 0 && (a > 0 ==> q > 0)) by (nonlinear_arith)
        requires
            a <= q * b,
            b >= 1,
            a >= 0,
    ;
}

proof fn lemma_entry_count_bounds(data: int, ratio: int, has_parent: bool)
    requires
        0 <= data < 0x1_0000_0000,
        0 < ratio <= SECTORS_PER_CHUNK,
    ensures
        data <= entry_count(data, ratio, has_parent) < 0x3_0000_0000,
        has_parent ==> quotient_up(data, ratio) <= data,
{
    let q = quotient_up(data, ratio);
    lemma_quotient_up_bounds(data, ratio);
    if has_parent {
        lemma_mul_is_distributive_add(q, ratio, 1);
        assert(q * (ratio + 1) == q * ratio + q);
    } else if data > 0 {
        lemma_fundamental_div_mod(data - 1, ratio);
        let k = (data - 1) / ratio;
        assert(0 <= k <= data - 1) by (nonlinear_arith)
            requires
                data - 1 == ratio * k + (data - 1) % ratio,
                0 <= (data - 1) % ratio,
                ratio >= 1,
                data >= 1,
                k == (data - 1) / ratio,
        ;
    }
}

/// BAT entry index of a payload block.
pub open spec fn payload_index(bat: Bat, block_number: int) -> int {
    block_number + block_number / (bat.chunk_ratio as int)
}

/// BAT entry index of a sector bitmap block.
pub open spec fn bitmap_index(bat: Bat, chunk_number: int) -> int {
    (chunk_number + 1) * bat.chunk_ratio + chunk_number
}

/// BAT entry index of a block.
pub open spec fn entry_index(bat: Bat, block_type: BlockType, number: int) -> int {
    match block_type {
        BlockType::Payload => payload_index(bat, number),
        BlockType::SectorBitmap => bitmap_index(bat, number),
    }
}

/// The block that a BAT entry describes: none beyond the end of the disk, and
/// none in the slot behind a chunk if the disk has no parent.
pub open spec fn block_at(bat: Bat, entry_number: int) -> Option<(BlockType, u32)> {
    let group = entry_number / (bat.chunk_ratio + 1);
    let position = entry_number % (bat.chunk_ratio + 1);
    if position == bat.chunk_ratio {
        if bat.has_parent && group < bat.sector_bitmap_block_count {
            Some((BlockType::SectorBitmap, group as u32))
        } else {
            None
        }
    } else {
        let block_number = group * bat.chunk_ratio + position;
        if block_number < bat.data_block_count {
            Some((BlockType::Payload, block_number as u32))
        } else {
            None
        }
    }
}

impl Bat {
    /// The geometry is that of a table whose entries fit a region of at most
    /// 4 GiB.
    pub open spec fn wf(self) -> bool {
        &&& 0 < self.chunk_ratio <= SECTORS_PER_CHUNK
        &&& self.block_size > 0
        &&& self.sector_bitmap_block_count == bitmap_blocks(
            self.data_block_count as int,
            self.chunk_ratio as int,
            self.has_parent,
        )
        &&& 8 * self.entries() <= u32::MAX
    }

    /// Number of BAT entries.
    pub open spec fn entries(self) -> int {
        entry_count(self.data_block_count as int, self.chunk_ratio as int, self.has_parent)
    }

    /// The geometry of the table of a disk whose BAT region has `bat_length`
    /// bytes.
    pub fn new(
        disk_size: u64,
        block_size: u32,
        logical_sector_size: u32,
        has_parent: bool,
        bat_length: u32,
    ) -> (r: Result<Bat, VhdxError>)
        ensures
            ({
                let ratio = chunk_ratio_of(block_size as int, logical_sector_size as int);
                let data = data_blocks(disk_size as int, block_size as int);
                if ratio == 0 {
                    r == Err::<Bat, VhdxError>(VhdxError::Corrupt(CorruptionType::InvalidBlockSize))
                } else if 8 * entry_count(data, ratio, has_parent) > bat_length {
                    r == Err::<Bat, VhdxError>(VhdxError::Corrupt(CorruptionType::BatTooSmall))
                } else {
                    r matches Ok(bat) && bat.wf() && bat == (Bat {
                        data_block_count: data as u32,
                        sector_bitmap_block_count: bitmap_blocks(data, ratio, has_parent) as u32,
                        chunk_ratio: ratio as u32,
                        block_size,
                        has_parent,
                    })
                }
            }),
    {
        let chunk_ratio: u32 = chunk_block_count(block_size, logical_sector_size);
        if chunk_ratio == 0 {
            return Err(VhdxError::Corrupt(CorruptionType::InvalidBlockSize));
        }
        assert(block_size > 0) by {
            if block_size == 0 {
                assert(0int / (logical_sector_size as int) == 0) by (nonlinear_arith)
                    requires
                        logical_sector_size > 0,
                ;
            }
        }
        let block_total: u64 = ceil_div(disk_size, block_size as u64);
        let data_block_count: u32 = (block_total % 0x1_0000_0000) as u32;
        proof {
            lemma_entry_count_bounds(data_block_count as int, chunk_ratio as int, has_parent);
        }
        let sector_bitmap_block_count: u32 = if has_parent {
            ceil_div(data_block_count as u64, chunk_ratio as u64) as u32
        } else {
            0
        };
        let count: u64 = if has_parent {
            sector_bitmap_block_count as u64 * (chunk_ratio as u64 + 1)
        } else {
            data_block_count as u64 + (data_block_count.saturating_sub(1) as u64
                / chunk_ratio as u64)
        };
        assert(count == entry_count(data_block_count as int, chunk_ratio as int, has_parent)) by {
            if !has_parent && data_block_count == 0 {
                assert(0int / (chunk_ratio as int) == 0) by (nonlinear_arith)
                    requires
                        chunk_ratio > 0,
                ;
            }
        }
        let required_bytes: u64 = count * 8;
        if required_bytes > bat_length as u64 {
            return Err(VhdxError::Corrupt(CorruptionType::BatTooSmall));
        }
        Ok(
            Bat {
                data_block_count,
                sector_bitmap_block_count,
                chunk_ratio,
                block_size,
                has_parent,
            },
        )
    }

    /// BAT entry index of a payload block.
    pub fn payload_entry_index(&self, block_number: u32) -> (r: u32)
        requires
            self.chunk_ratio > 0,
            payload_index(*self, block_number as int) <= u32::MAX,
        ensures
            r == payload_index(*self, block_number as int),
    {
        block_number + block_number / self.chunk_ratio
    }

    /// BAT entry index of a sector bitmap block.
    pub fn sector_bitmap_entry_index(&self, chunk_number: u32) -> (r: u32)
        requires
            bitmap_index(*self, chunk_number as int) <= u32::MAX,
        ensures
            r == bitmap_index(*self, chunk_number as int),
    {
        let next: u64 = chunk_number as u64 + 1;
        assert(next * self.chunk_ratio <= 0x1_0000_0000 * 0xffff_ffff) by (nonlinear_arith)
            requires
                next <= 0x1_0000_0000,
                self.chunk_ratio <= 0xffff_ffff,
        ;
        assert(next * self.chunk_ratio >= 0) by (nonlinear_arith);
        (next * self.chunk_ratio as u64) as u32 + chunk_number
    }

    /// The block that a BAT entry describes, or `None` beyond the end of the
    /// disk. The slot behind a chunk describes a sector bitmap block, or
    /// nothing if the disk has no parent.
    pub fn entry_number_to_block_id(&self, entry_number: u32) -> (r: Option<(BlockType, u32)>)
        requires
            self.chunk_ratio < u32::MAX,
        ensures
            r == block_at(*self, entry_number as int),
    {
        let group_size: u32 = self.chunk_ratio + 1;
        let group: u32 = entry_number / group_size;
        let position: u32 = entry_number % group_size;
        proof {
            lemma_fundamental_div_mod(entry_number as int, group_size as int);
            assert(group * self.chunk_ratio + position <= entry_number) by (nonlinear_arith)
                requires
                    entry_number == (self.chunk_ratio + 1) * group + position,
                    group >= 0,
            ;
            assert(group * self.chunk_ratio >= 0) by (nonlinear_arith);
        }
        if position == self.chunk_ratio {
            if self.has_parent && group < self.sector_bitmap_block_count {
                Some((BlockType::SectorBitmap, group))
            } else {
                None
            }
        } else {
            let block_number: u32 = group * self.chunk_ratio + position;
            if block_number < self.data_block_count {
                Some((BlockType::Payload, block_number))
            } else {
                None
            }
        }
    }

    /// The block that holds a virtual disk offset, as a 32-bit number.
    pub fn offset_to_block(&self, offset: u64) -> (r: u32)
        requires
            self.block_size > 0,
        ensures
            r == offset as int / self.block_size as int % 0x1_0000_0000,
    {
        ((offset / self.block_size as u64) % 0x1_0000_0000) as u32
    }

    /// The offset within its block of a virtual disk offset.
    pub fn offset_within_block(&self, offset: u64) -> (r: u32)
        requires
            self.block_size > 0,
        ensures
            r == offset as int % self.block_size as int,
    {
        (offset % self.block_size as u64) as u32
    }
}

/// The entry of a payload block describes that block.
pub proof fn law_payload_index_round_trip(bat: Bat, block_number: u32)
    requires
        bat.wf(),
        block_number < bat.data_block_count,
    ensures
        block_at(bat, payload_index(bat, block_number as int)) == Some(
            (BlockType::Payload, block_number),
        ),
{
    let r = bat.chunk_ratio as int;
    let b = block_number as int;
    let (q, p) = (b / r, b % r);
    lemma_fundamental_div_mod(b, r);
    lemma_mul_is_distributive_add(q, r, 1);
    assert(r * q == q * r) by (nonlinear_arith);
    assert(payload_index(bat, b) == q * (r + 1) + p);
    assert(q * (r + 1) == (r + 1) * q) by (nonlinear_arith);
    lemma_fundamental_div_mod_converse(payload_index(bat, b), r + 1, q, p);
}

/// The entry of a sector bitmap block describes that block.
pub proof fn law_bitmap_index_round_trip(bat: Bat, chunk_number: u32)
    requires
        bat.wf(),
        chunk_number < bat.sector_bitmap_block_count,
    ensures
        block_at(bat, bitmap_index(bat, chunk_number as int)) == Some(
            (BlockType::SectorBitmap, chunk_number),
        ),
{
    let r = bat.chunk_ratio as int;
    let c = chunk_number as int;
    assert((c + 1) * r + c == (r + 1) * c + r) by (nonlinear_arith);
    lemma_fundamental_div_mod_converse(bitmap_index(bat, c), r + 1, c, r);
}

/// Every block has an entry within the table, so within any region that the
/// table was found to fit.
pub proof fn law_indices_are_within_the_table(bat: Bat, block_type: BlockType, number: u32)
    requires
        bat.wf(),
        number < (match block_type {
            BlockType::Payload => bat.data_block_count,
            BlockType::SectorBitmap => bat.sector_bitmap_block_count,
        }),
    ensures
        0 <= entry_index(bat, block_type, number as int) < bat.entries(),
{
    let r = bat.chunk_ratio as int;
    let k = number as int;
    let data = bat.data_block_count as int;
    let n = quotient_up(data, r);
    lemma_quotient_up_bounds(data, r);
    match block_type {
        BlockType::Payload => {
            let (q, p) = (k / r, k % r);
            lemma_fundamental_div_mod(k, r);
            assert(q >= 0) by (nonlinear_arith)
                requires
                    k == r * q + p,
                    k >= 0,
                    r > 0,
                    0 <= p < r,
            ;
            if bat.has_parent {
                assert(q < n) by (nonlinear_arith)
                    requires
                        r * q <= k,
                        k < data,
                        data <= n * r,
                        r > 0,
                ;
                assert(k + q < n * (r + 1)) by (nonlinear_arith)
                    requires
                        k == r * q + p,
                        p < r,
                        q + 1 <= n,
                        r > 0,
                ;
            } else {
                lemma_div_is_ordered(k, data - 1, r);
            }
        },
        BlockType::SectorBitmap => {
            assert((k + 1) * r + k < n * (r + 1)) by (nonlinear_arith)
                requires
                    k + 1 <= n,
                    r > 0,
            ;
            assert(0 <= (k + 1) * r) by (nonlinear_arith)
                requires
                    k >= 0,
                    r > 0,
            ;
        },
    }
}

/// No two blocks share an entry.
pub proof fn law_blocks_have_distinct_entries(
    bat: Bat,
    type1: BlockType,
    number1: u32,
    type2: BlockType,
    number2: u32,
)
    requires
        bat.wf(),
        number1 < (match type1 {
            BlockType::Payload => bat.data_block_count,
            BlockType::SectorBitmap => bat.sector_bitmap_block_count,
        }),
        number2 < (match type2 {
            BlockType::Payload => bat.data_block_count,
            BlockType::SectorBitmap => bat.sector_bitmap_block_count,
        }),
        entry_index(bat, type1, number1 as int) == entry_index(bat, type2, number2 as int),
    ensures
        type1 == type2 && number1 == number2,
{
    match type1 {
        BlockType::Payload => law_payload_index_round_trip(bat, number1),
        BlockType::SectorBitmap => law_bitmap_index_round_trip(bat, number1),
    }
    match type2 {
        BlockType::Payload => law_payload_index_round_trip(bat, number2),
        BlockType::SectorBitmap => law_bitmap_index_round_trip(bat, number2),
    }
}

/// An entry that describes a block is the entry of that block, and the block
/// is one of the disk. So no two entries describe the same block.
pub proof fn law_entry_of_described_block(bat: Bat, entry_number: u32)
    requires
        bat.wf(),
    ensures
        block_at(bat, entry_number as int) matches Some((block_type, number)) ==> {
            &&& entry_index(bat, block_type, number as int) == entry_number
            &&& match block_type {
                BlockType::Payload => number < bat.data_block_count,
                BlockType::SectorBitmap => bat.has_parent && number
                    < bat.sector_bitmap_block_count,
            }
        },
{
    let r = bat.chunk_ratio as int;
    let e = entry_number as int;
    let (group, position) = (e / (r + 1), e % (r + 1));
    lemma_fundamental_div_mod(e, r + 1);
    if position == r {
        assert((group + 1) * r + group == (r + 1) * group + r) by (nonlinear_arith);
    } else {
        assert(group >= 0) by (nonlinear_arith)
            requires
                e == (r + 1) * group + position,
                e >= 0,
                r > 0,
                0 <= position <= r,
        ;
        assert(group * r >= 0) by (nonlinear_arith)
            requires
                group >= 0,
                r > 0,
        ;
        let b = group * r + position;
        assert(b == r * group + position) by (nonlinear_arith)
            requires
                b == group * r + position,
        ;
        lemma_fundamental_div_mod_converse(b, r, group, position);
        assert((r + 1) * group == group * r + group) by (nonlinear_arith);
    }
}

/// The entries of the table follow the disk: the first is that of the first
/// block, the entries of blocks that follow one another do so too, but for one
/// entry in between at the end of each chunk, and that one is the entry of the
/// sector bitmap block of the chunk.
pub proof fn law_table_follows_the_disk(bat: Bat, number: int)
    requires
        bat.chunk_ratio > 0,
        number >= 0,
    ensures
        payload_index(bat, 0) == 0,
        payload_index(bat, number + 1) - payload_index(bat, number) == (if (number + 1) % (
        bat.chunk_ratio as int) == 0 {
            2int
        } else {
            1
        }),
        bitmap_index(bat, number) == payload_index(bat, (number + 1) * bat.chunk_ratio - 1) + 1,
        bitmap_index(bat, number) + 1 == payload_index(bat, (number + 1) * bat.chunk_ratio),
{
    let c = bat.chunk_ratio as int;
    lemma_fundamental_div_mod(number, c);
    let (q, r) = (number / c, number % c);
    assert(c * q == q * c && (q + 1) * c == q * c + c) by (nonlinear_arith);
    if r + 1 < c {
        lemma_fundamental_div_mod_converse(number + 1, c, q, r + 1);
    } else {
        lemma_fundamental_div_mod_converse(number + 1, c, q + 1, 0);
    }
    lemma_fundamental_div_mod_converse(0, c, 0, 0);
    let n = number + 1;
    assert(n * c == number * c + c) by (nonlinear_arith)
        requires
            n == number + 1,
    ;
    lemma_fundamental_div_mod_converse(n * c - 1, c, number, c - 1);
    lemma_fundamental_div_mod_converse(n * c, c, n, 0);
}

/// There are as many blocks as it takes to cover the disk, and no more.
pub proof fn law_blocks_cover_the_disk(disk_size: int, block_size: int)
    requires
        block_size > 0,
        0 <= disk_size <= 0xffff_ffff * block_size,
    ensures
        data_blocks(disk_size, block_size) * block_size >= disk_size,
        (data_blocks(disk_size, block_size) - 1) * block_size < disk_size,
{
    lemma_rounded_up(disk_size, block_size);
    let n = quotient_up(disk_size, block_size);
    assert(0 <= n <= 0xffff_ffff) by (nonlinear_arith)
        requires
            n * block_size >= disk_size >= 0,
            (n - 1) * block_size < disk_size <= 0xffff_ffff * block_size,
            block_size > 0,
    ;
}

pub(crate) proof fn lemma_rounded_up(a: int, b: int)
    requires
        b > 0,
    ensures
        quotient_up(a, b) * b >= a,
        (quotient_up(a, b) - 1) * b < a,
{
    let n = quotient_up(a, b);
    lemma_fundamental_div_mod(a + b - 1, b);
    assert(n * b >= a && (n - 1) * b < a) by (nonlinear_arith)
        requires
            a + b - 1 == b * n + (a + b - 1) % b,
            0 <= (a + b - 1) % b < b,
    ;
}

/// A sector bitmap block has a bit for each sector of its chunk: a chunk is as
/// many blocks as there are bits for in a megabyte. There is no such number
/// exactly if a block is smaller than a sector or has more sectors than that.
pub proof fn law_chunk_fills_its_bitmap(block_size: int, logical_sector_size: int)
    requires
        block_size >= 0,
        logical_sector_size > 0,
    ensures
        ({
            let sectors = block_size / logical_sector_size;
            let ratio = chunk_ratio_of(block_size, logical_sector_size);
            &&& ratio == 0 <==> block_size < logical_sector_size || sectors > 8 * 0x10_0000
            &&& ratio > 0 ==> ratio * sectors <= 8 * 0x10_0000 < (ratio + 1) * sectors
        }),
        chunk_ratio_of(block_size, 0) == 0,
{
    let sectors = block_size / logical_sector_size;
    lemma_fundamental_div_mod(block_size, logical_sector_size);
    assert(sectors == 0 <==> block_size < logical_sector_size) by (nonlinear_arith)
        requires
            block_size == logical_sector_size * sectors + block_size % logical_sector_size,
            0 <= block_size % logical_sector_size < logical_sector_size,
            block_size >= 0,
    ;
    assert(sectors >= 0) by (nonlinear_arith)
        requires
            block_size == logical_sector_size * sectors + block_size % logical_sector_size,
            0 <= block_size % logical_sector_size < logical_sector_size,
            block_size >= 0,
    ;
    if sectors > 0 {
        let bits = 8 * 0x10_0000int;
        let ratio = bits / sectors;
        lemma_fundamental_div_mod(bits, sectors);
        assert(ratio * sectors <= bits < (ratio + 1) * sectors && (ratio == 0 <==> sectors > bits))
            by (nonlinear_arith)
            requires
                sectors > 0,
                bits > 0,
                bits == sectors * ratio + bits % sectors,
                0 <= bits % sectors < sectors,
        ;
    }
}

/// The table ends with the entry of the last block, and with a parent with
/// that of the last sector bitmap block, of which there are as many as it
/// takes to cover the blocks. Without a parent there is no such block.
pub proof fn law_table_ends_with_its_last_entry(bat: Bat)
    requires
        bat.chunk_ratio > 0,
        bat.data_block_count > 0,
        bat.sector_bitmap_block_count == bitmap_blocks(
            bat.data_block_count as int,
            bat.chunk_ratio as int,
            bat.has_parent,
        ),
    ensures
        !bat.has_parent ==> bat.sector_bitmap_block_count == 0 && bat.entries() == payload_index(
            bat,
            bat.data_block_count - 1,
        ) + 1,
        bat.has_parent ==> {
            &&& bat.entries() == bitmap_index(bat, bat.sector_bitmap_block_count - 1) + 1
            &&& bat.sector_bitmap_block_count * bat.chunk_ratio >= bat.data_block_count
            &&& (bat.sector_bitmap_block_count - 1) * bat.chunk_ratio < bat.data_block_count
        },
{
    let n = bat.sector_bitmap_block_count as int;
    let c = bat.chunk_ratio as int;
    lemma_rounded_up(bat.data_block_count as int, c);
    assert(n * (c + 1) == n * c + n) by (nonlinear_arith);
}

/// A loaded mapping has the state and the space of its entry, but on a disk
/// without a parent a block that is partially present is taken as fully
/// present. None is transitioning.
pub proof fn law_loaded_mapping_is_its_entry(entry: BatEntry, normalize: bool)
    requires
        entry.raw < 0x1_0000_0000_0000,
    ensures
        ({
            let mapping = InternalBlockMapping::of_entry(entry, normalize);
            &&& mapping.raw % 16 == (if normalize && entry.raw % 8 == 7 {
                6
            } else {
                entry.raw % 8
            })
            &&& mapping.raw / 16 == entry.raw / 0x10_0000
            &&& mapping.spec_state() == mapping.raw % 16
            &&& !mapping.tfp()
        }),
{
}

/// The number of allocated blocks is the number of those that are present,
/// fully or partially.
pub proof fn law_present_blocks_are_counted(mappings: Seq<InternalBlockMapping>)
    ensures
        allocated_count(mappings) == mappings.filter(
            |m: InternalBlockMapping| m.raw % 8 == 6 || m.raw % 8 == 7,
        ).len(),
    decreases mappings.len(),
{
    reveal(Seq::filter);
    if mappings.len() > 0 {
        law_present_blocks_are_counted(mappings.drop_last());
    }
}

/// Each part of a mapping can be set without the others.
pub proof fn law_parts_of_a_mapping_are_set_alone(
    mapping: InternalBlockMapping,
    state: u8,
    on: bool,
    mb: u32,
    with_state: InternalBlockMapping,
    with_tfp: InternalBlockMapping,
    with_mb: InternalBlockMapping,
)
    requires
        state < 8,
        mb < 0x1000_0000,
        call_ensures(InternalBlockMapping::with_state, (mapping, state), with_state),
        call_ensures(
            InternalBlockMapping::with_transitioning_to_fully_present,
            (mapping, on),
            with_tfp,
        ),
        call_ensures(InternalBlockMapping::with_file_megabyte, (mapping, mb), with_mb),
    ensures
        with_state.raw % 8 == state && with_state.raw / 8 == mapping.raw / 8,
        with_tfp.raw % 8 == mapping.raw % 8 && with_tfp.raw / 16 == mapping.raw / 16,
        with_tfp.raw / 8 % 2 == (if on {
            1u32
        } else {
            0
        }),
        with_mb.raw % 16 == mapping.raw % 16 && with_mb.raw / 16 == mb,
{
}

/// A byte of the disk is in the block that its offset divided by the size of a
/// block gives, at the rest.
pub proof fn law_offset_is_block_and_rest(bat: Bat, offset: u64, block: u32, within: u32)
    requires
        bat.block_size > 0,
        offset as int / bat.block_size as int <= u32::MAX,
        call_ensures(Bat::offset_to_block, (&bat, offset), block),
        call_ensures(Bat::offset_within_block, (&bat, offset), within),
    ensures
        block * bat.block_size + within == offset,
        within < bat.block_size,
{
    lemma_fundamental_div_mod(offset as int, bat.block_size as int);
    let (b, q) = (bat.block_size as int, offset as int / bat.block_size as int);
    assert(b * q == q * b) by (nonlinear_arith);
}

} // verus!
