//! Pages of the block allocation table.

use vstd::prelude::*;

use crate::bytes::{get_u64, le64, push_u64, put_bytes};
use super::bat::{
    bitmap_index, block_at, entry_index, law_bitmap_index_round_trip,
    law_indices_are_within_the_table, law_payload_index_round_trip, payload_index, Bat, BatState,
    BlockType, InternalBlockMapping, BAT_TAG,
};
use super::cache::PageKey;
use super::format::{BatEntry, CACHE_PAGE_SIZE, ENTRIES_PER_BAT_PAGE};

verus! {

/// The on-disk entry of a mapping. The space of a block whose allocation is
/// not committed yet can be left out.
pub open spec fn entry_of_mapping(mapping: InternalBlockMapping, mask_tfp: bool) -> BatEntry {
    BatEntry::of(
        mapping.spec_state(),
        if mask_tfp && mapping.tfp() {
            0
        } else {
            mapping.mb() as u64
        },
    )
}

/// The on-disk entry with the given number. Entries beyond the end of the
/// disk are zero.
pub open spec fn table_entry(
    bat: Bat,
    state: BatState,
    entry_number: int,
    mask_tfp: bool,
) -> BatEntry {
    match block_at(bat, entry_number) {
        Some((BlockType::Payload, block_number)) => entry_of_mapping(
            state.payload_mappings@[block_number as int],
            mask_tfp,
        ),
        Some((BlockType::SectorBitmap, chunk_number)) => entry_of_mapping(
            state.sector_bitmap_mappings@[chunk_number as int],
            false,
        ),
        None => BatEntry { raw: 0 },
    }
}

/// `page` is page `page_index` of the table.
pub open spec fn is_table_page(
    bat: Bat,
    state: BatState,
    page_index: int,
    page: Seq<u8>,
    mask_tfp: bool,
) -> bool {
    &&& page.len() == CACHE_PAGE_SIZE
    &&& forall|i: int|
        0 <= i < ENTRIES_PER_BAT_PAGE ==> #[trigger] le64(page, 8 * i) == table_entry(
            bat,
            state,
            page_index * ENTRIES_PER_BAT_PAGE + i,
            mask_tfp,
        ).raw
}

fn mapping_entry(mapping: InternalBlockMapping, mask_tfp: bool) -> (r: BatEntry)
    ensures
        r == entry_of_mapping(mapping, mask_tfp),
{
    let mb: u64 = if mask_tfp && mapping.transitioning_to_fully_present() {
        0
    } else {
        mapping.file_megabyte() as u64
    };
    BatEntry::new().with_state(mapping.state()).with_file_offset_mb(mb)
}

/// Serializes a page of the table. If `mask_tfp` is set, blocks whose
/// allocation is not committed yet are written without their space.
pub fn serialize_page(bat: &Bat, state: &BatState, page_index: usize, mask_tfp: bool) -> (r: Vec<u8>)
    requires
        bat.chunk_ratio < u32::MAX,
        state.matches_bat(*bat),
        page_index * ENTRIES_PER_BAT_PAGE + (ENTRIES_PER_BAT_PAGE - 1) <= u32::MAX,
    ensures
        is_table_page(*bat, *state, page_index as int, r@, mask_tfp),
{
    let base_entry: u32 = page_index as u32 * 512;
    let mut buf: Vec<u8> = Vec::new();
    let mut i: u32 = 0;
    while i < 512
        invariant
            i <= 512,
            bat.chunk_ratio < u32::MAX,
            state.matches_bat(*bat),
            base_entry == page_index * 512,
            base_entry + 511 <= u32::MAX,
            buf@.len() == 8 * i,
            forall|k: int|
                0 <= k < i ==> #[trigger] le64(buf@, 8 * k) == table_entry(
                    *bat,
                    *state,
                    base_entry + k,
                    mask_tfp,
                ).raw,
        decreases 512 - i,
    {
        let entry: BatEntry = match bat.entry_number_to_block_id(base_entry + i) {
            Some((BlockType::Payload, block_number)) => mapping_entry(
                state.get_payload_mapping(block_number),
                mask_tfp,
            ),
            Some((BlockType::SectorBitmap, chunk_number)) => mapping_entry(
                state.get_sbm_mapping(chunk_number),
                false,
            ),
            None => BatEntry::new(),
        };
        let ghost before = buf@;
        push_u64(&mut buf, entry.raw);
        assert forall|k: int| 0 <= k < i + 1 implies #[trigger] le64(buf@, 8 * k) == table_entry(
            *bat,
            *state,
            base_entry + k,
            mask_tfp,
        ).raw by {
            if k < i {
                assert(le64(before, 8 * k) == table_entry(
                    *bat,
                    *state,
                    base_entry + k,
                    mask_tfp,
                ).raw);
                assert(forall|j: int| 8 * k <= j < 8 * k + 8 ==> buf@[j] == before[j]);
            }
        }
        i += 1;
    }
    buf
}

/// Where the entry of a block stands.
#[derive(Debug, Clone, Copy, PartialEq, Eq, Structural)]
pub struct EntryPosition {
    /// Number of the page.
    pub page_number: usize,
    /// Key of the page in the cache.
    pub page_key: PageKey,
    /// Byte offset of the entry in the page.
    pub byte_offset: usize,
}

/// Where the entry with the given number stands.
pub open spec fn position_of(entry_number: int) -> EntryPosition {
    EntryPosition {
        page_number: (entry_number / 512) as usize,
        page_key: PageKey { tag: BAT_TAG, offset: (entry_number / 512 * 4096) as u64 },
        byte_offset: (entry_number % 512 * 8) as usize,
    }
}

/// Where the entry with the given number stands.
pub fn entry_position(entry_number: u32) -> (r: EntryPosition)
    ensures
        r == position_of(entry_number as int),
        r.byte_offset + 8 <= CACHE_PAGE_SIZE,
{
    let page_number: u32 = entry_number / 512;
    EntryPosition {
        page_number: page_number as usize,
        page_key: PageKey { tag: BAT_TAG, offset: page_number as u64 * CACHE_PAGE_SIZE },
        byte_offset: (entry_number % 512 * 8) as usize,
    }
}

/// Reads the entry with the given number out of the page that holds it.
pub fn read_bat_entry_raw(page: &[u8], entry_number: u32) -> (r: BatEntry)
    requires
        page@.len() == CACHE_PAGE_SIZE,
    ensures
        r.raw == le64(page@, position_of(entry_number as int).byte_offset as int),
{
    let position = entry_position(entry_number);
    BatEntry { raw: get_u64(page, position.byte_offset) }
}

impl Bat {
    /// The number of blocks of a type.
    pub open spec fn block_count(self, block_type: BlockType) -> u32 {
        match block_type {
            BlockType::Payload => self.data_block_count,
            BlockType::SectorBitmap => self.sector_bitmap_block_count,
        }
    }

    /// BAT entry index of a block.
    pub fn block_entry_index(&self, block_type: BlockType, number: u32) -> (r: u32)
        requires
            self.wf(),
            number < self.block_count(block_type),
        ensures
            r == entry_index(*self, block_type, number as int),
            r < self.entries(),
    {
        proof {
            law_indices_are_within_the_table(*self, block_type, number);
        }
        match block_type {
            BlockType::Payload => self.payload_entry_index(number),
            BlockType::SectorBitmap => self.sector_bitmap_entry_index(number),
        }
    }

    /// The key of the cache page that holds the entry of a payload block.
    pub fn bat_page_key_for_block(&self, block_number: u32) -> (r: PageKey)
        requires
            self.wf(),
            block_number < self.data_block_count,
        ensures
            r == position_of(payload_index(*self, block_number as int)).page_key,
    {
        entry_position(self.block_entry_index(BlockType::Payload, block_number)).page_key
    }

    /// Serializes a page of the table. Blocks whose allocation is not
    /// committed yet are written without their space.
    pub fn produce_page(&self, state: &BatState, page_index: usize) -> (r: Vec<u8>)
        requires
            self.chunk_ratio < u32::MAX,
            state.matches_bat(*self),
            page_index * ENTRIES_PER_BAT_PAGE + (ENTRIES_PER_BAT_PAGE - 1) <= u32::MAX,
        ensures
            is_table_page(*self, *state, page_index as int, r@, true),
    {
        serialize_page(self, state, page_index, true)
    }

    /// Puts the mapping of a block into its page. A page that was not cached
    /// is built from the in-memory state; a cached one gets the one entry.
    pub fn write_block_mapping(
        &self,
        state: &BatState,
        page: &mut Vec<u8>,
        overwriting: bool,
        block_type: BlockType,
        number: u32,
        mapping: InternalBlockMapping,
    )
        requires
            self.wf(),
            state.matches_bat(*self),
            number < self.block_count(block_type),
            old(page)@.len() == CACHE_PAGE_SIZE,
        ensures
            final(page)@.len() == CACHE_PAGE_SIZE,
            ({
                let at = position_of(entry_index(*self, block_type, number as int));
                if overwriting {
                    is_table_page(*self, *state, at.page_number as int, final(page)@, true)
                } else {
                    &&& le64(final(page)@, at.byte_offset as int) == entry_of_mapping(
                        mapping,
                        false,
                    ).raw
                    &&& forall|i: int|
                        0 <= i < CACHE_PAGE_SIZE && !(at.byte_offset <= i < at.byte_offset + 8)
                            ==> final(page)@[i] == old(page)@[i]
                }
            }),
    {
        let position = entry_position(self.block_entry_index(block_type, number));
        if overwriting {
            *page = self.produce_page(state, position.page_number);
        } else {
            let bytes = mapping_entry(mapping, false).as_bytes();
            put_bytes(page, position.byte_offset, &bytes);
        }
    }
}

/// A page that is built from the in-memory state holds the same entry for a
/// settled payload block as one in which that entry was replaced.
pub proof fn law_rebuilt_page_holds_mapping(
    bat: Bat,
    state: BatState,
    block_number: u32,
    page: Seq<u8>,
)
    requires
        bat.wf(),
        state.matches_bat(bat),
        block_number < bat.data_block_count,
        !state.payload_mappings@[block_number as int].tfp(),
        is_table_page(
            bat,
            state,
            position_of(payload_index(bat, block_number as int)).page_number as int,
            page,
            true,
        ),
    ensures
        le64(page, position_of(payload_index(bat, block_number as int)).byte_offset as int)
            == entry_of_mapping(state.payload_mappings@[block_number as int], false).raw,
{
    law_indices_are_within_the_table(bat, BlockType::Payload, block_number);
    law_payload_index_round_trip(bat, block_number);
    let e = payload_index(bat, block_number as int);
    assert(le64(page, 8 * (e % 512)) == table_entry(
        bat,
        state,
        position_of(e).page_number * 512 + e % 512,
        true,
    ).raw);
}

/// The same holds of a sector bitmap block.
pub proof fn law_rebuilt_page_holds_bitmap_mapping(
    bat: Bat,
    state: BatState,
    chunk_number: u32,
    page: Seq<u8>,
)
    requires
        bat.wf(),
        state.matches_bat(bat),
        chunk_number < bat.sector_bitmap_block_count,
        is_table_page(
            bat,
            state,
            position_of(bitmap_index(bat, chunk_number as int)).page_number as int,
            page,
            true,
        ),
    ensures
        le64(page, position_of(bitmap_index(bat, chunk_number as int)).byte_offset as int)
            == entry_of_mapping(state.sector_bitmap_mappings@[chunk_number as int], false).raw,
{
    law_indices_are_within_the_table(bat, BlockType::SectorBitmap, chunk_number);
    law_bitmap_index_round_trip(bat, chunk_number);
    let e = bitmap_index(bat, chunk_number as int);
    assert(le64(page, 8 * (e % 512)) == table_entry(
        bat,
        state,
        position_of(e).page_number * 512 + e % 512,
        true,
    ).raw);
}

/// The position of an entry is where the eight bytes of that entry are, in a
/// table that is cut into pages of 4096 bytes.
pub proof fn law_position_is_that_of_the_entry(entry_number: u32)
    ensures
        ({
            let at = position_of(entry_number as int);
            &&& 4096 * at.page_number + at.byte_offset == 8 * entry_number
            &&& at.byte_offset + 8 <= 4096
            &&& at.page_key.offset == 4096 * at.page_number
            &&& at.page_key.tag == 0
        }),
{
}

/// A page holds, in the eight bytes of the entry of a payload block, the state
/// of the block and, from bit twenty on, the megabyte that it is in. If asked
/// to, it leaves the megabyte of a transitioning block out.
pub proof fn law_page_holds_block_state_and_place(
    bat: Bat,
    state: BatState,
    page_index: int,
    page: Seq<u8>,
    mask_tfp: bool,
    block_number: u32,
    at: int,
)
    requires
        bat.wf(),
        state.matches_bat(bat),
        is_table_page(bat, state, page_index, page, mask_tfp),
        block_number < bat.data_block_count,
        0 <= at < 4096,
        4096 * page_index + at == 8 * (block_number + block_number as int
            / bat.chunk_ratio as int),
    ensures
        ({
            let raw = state.payload_mappings@[block_number as int].raw;
            le64(page, at) == raw % 8 + 0x10_0000 * (if mask_tfp && raw / 8 % 2 == 1 {
                0int
            } else {
                raw as int / 16
            })
        }),
{
    law_payload_index_round_trip(bat, block_number);
    let i = at / 8;
    assert(at == 8 * i && page_index * 512 + i == payload_index(bat, block_number as int));
    assert(le64(page, 8 * i) == table_entry(bat, state, page_index * 512 + i, mask_tfp).raw);
}

/// A page holds, in the eight bytes of the entry of a sector bitmap block, its
/// state and the megabyte that it is in.
pub proof fn law_page_holds_bitmap_state_and_place(
    bat: Bat,
    state: BatState,
    page_index: int,
    page: Seq<u8>,
    mask_tfp: bool,
    chunk_number: u32,
    at: int,
)
    requires
        bat.wf(),
        state.matches_bat(bat),
        is_table_page(bat, state, page_index, page, mask_tfp),
        chunk_number < bat.sector_bitmap_block_count,
        0 <= at < 4096,
        4096 * page_index + at == 8 * (chunk_number * (bat.chunk_ratio + 1) + bat.chunk_ratio),
    ensures
        ({
            let raw = state.sector_bitmap_mappings@[chunk_number as int].raw;
            le64(page, at) == raw % 8 + 0x10_0000 * (raw as int / 16)
        }),
{
    law_bitmap_index_round_trip(bat, chunk_number);
    let i = at / 8;
    let (n, c) = (chunk_number as int, bat.chunk_ratio as int);
    assert(n * (c + 1) + c == (n + 1) * c + n) by (nonlinear_arith);
    assert(at == 8 * i && page_index * 512 + i == bitmap_index(bat, chunk_number as int));
    assert(le64(page, 8 * i) == table_entry(bat, state, page_index * 512 + i, mask_tfp).raw);
}

/// An entry that is no block's is zero.
pub proof fn law_page_is_zero_elsewhere(
    bat: Bat,
    state: BatState,
    page_index: int,
    page: Seq<u8>,
    mask_tfp: bool,
    i: int,
)
    requires
        bat.wf(),
        state.matches_bat(bat),
        is_table_page(bat, state, page_index, page, mask_tfp),
        0 <= page_index,
        0 <= i < 512,
        page_index * 512 + i <= u32::MAX,
        forall|block_type: BlockType, number: u32|
            number < bat.block_count(block_type) ==> #[trigger] entry_index(
                bat,
                block_type,
                number as int,
            ) != page_index * 512 + i,
    ensures
        le64(page, 8 * i) == 0,
{
    super::bat::law_entry_of_described_block(bat, (page_index * 512 + i) as u32);
    assert(le64(page, 8 * i) == table_entry(bat, state, page_index * 512 + i, mask_tfp).raw);
}

} // verus!
