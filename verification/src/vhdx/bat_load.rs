//! Loading the in-memory block allocation table.

use vstd::prelude::*;

use super::bat::{
    allocated_count, Bat, BatState, InternalBlockMapping, MAX_FILE_MEGABYTE,
    SECTOR_BITMAP_BLOCK_SIZE,
};
use super::error::{CorruptionType, VhdxError};
use super::format::{BatEntry, BatEntryState, MB1};

verus! {

/// What a BAT entry says about the space of the file.
#[derive(Debug, Clone, Copy, PartialEq, Eq, Structural)]
pub enum SpaceMark {
    /// The range is in use.
    InUse {
        /// Byte offset in the file.
        file_offset: u64,
        /// Length in bytes.
        length: u32,
    },
    /// The range is in use, and belongs to a trimmed block that still knows
    /// its space.
    Trimmed {
        /// The trimmed block.
        block_number: u32,
        /// Byte offset in the file.
        file_offset: u64,
        /// Length in bytes.
        length: u32,
    },
}

/// Whether the entry holds a known block state.
pub open spec fn known_state(entry: BatEntry) -> bool {
    BatEntryState::of_raw(entry.spec_state()) is Some
}

/// What a payload entry says about the space of the file.
pub open spec fn payload_mark(bat: Bat, block_number: int, entry: BatEntry) -> Option<SpaceMark> {
    let file_offset = (entry.spec_file_offset_mb() * MB1) as u64;
    if file_offset == 0 {
        None
    } else if entry.spec_state() == 6 || entry.spec_state() == 7 {
        Some(SpaceMark::InUse { file_offset, length: bat.block_size })
    } else if entry.spec_state() == 1 || entry.spec_state() == 3 {
        Some(
            SpaceMark::Trimmed {
                block_number: block_number as u32,
                file_offset,
                length: bat.block_size,
            },
        )
    } else {
        None
    }
}

/// What a sector bitmap entry says about the space of the file.
pub open spec fn bitmap_mark(entry: BatEntry) -> Option<SpaceMark> {
    let file_offset = (entry.spec_file_offset_mb() * MB1) as u64;
    if file_offset != 0 && (entry.spec_state() == 6 || entry.spec_state() == 7) {
        Some(SpaceMark::InUse { file_offset, length: SECTOR_BITMAP_BLOCK_SIZE })
    } else {
        None
    }
}

/// `marks` followed by `mark`, if there is one.
pub open spec fn push_mark(marks: Seq<SpaceMark>, mark: Option<SpaceMark>) -> Seq<SpaceMark> {
    match mark {
        Some(m) => marks.push(m),
        None => marks,
    }
}

/// The marks of the first `n` payload entries, in order.
pub open spec fn payload_marks(bat: Bat, entries: Seq<BatEntry>, n: int) -> Seq<SpaceMark>
    decreases n,
{
    if n <= 0 {
        Seq::empty()
    } else {
        push_mark(payload_marks(bat, entries, n - 1), payload_mark(bat, n - 1, entries[n - 1]))
    }
}

/// The marks of the first `n` sector bitmap entries, in order.
pub open spec fn bitmap_marks(entries: Seq<BatEntry>, n: int) -> Seq<SpaceMark>
    decreases n,
{
    if n <= 0 {
        Seq::empty()
    } else {
        push_mark(bitmap_marks(entries, n - 1), bitmap_mark(entries[n - 1]))
    }
}

/// The number of entries before the first one with an unknown state.
pub open spec fn known_prefix(entries: Seq<BatEntry>) -> int
    decreases entries.len(),
{
    if entries.len() == 0 || !known_state(entries[0]) {
        0
    } else {
        1 + known_prefix(entries.skip(1))
    }
}

proof fn lemma_known_prefix(entries: Seq<BatEntry>, n: int)
    requires
        0 <= n <= entries.len(),
        forall|i: int| 0 <= i < n ==> known_state(#[trigger] entries[i]),
        n == entries.len() || !known_state(entries[n]),
    ensures
        known_prefix(entries) == n,
    decreases n,
{
    if n > 0 {
        assert forall|i: int| 0 <= i < n - 1 implies known_state(
            #[trigger] entries.skip(1)[i],
        ) by {
            assert(entries.skip(1)[i] == entries[i + 1]);
        }
        lemma_known_prefix(entries.skip(1), n - 1);
    }
}

proof fn lemma_known_prefix_beyond(entries: Seq<BatEntry>, n: int)
    requires
        0 <= n < entries.len(),
        forall|i: int| 0 <= i <= n ==> known_state(#[trigger] entries[i]),
    ensures
        n < known_prefix(entries),
    decreases n,
{
    assert(known_state(entries[0]));
    if n > 0 {
        assert forall|i: int| 0 <= i <= n - 1 implies known_state(
            #[trigger] entries.skip(1)[i],
        ) by {
            assert(entries.skip(1)[i] == entries[i + 1]);
        }
        lemma_known_prefix_beyond(entries.skip(1), n - 1);
    } else {
        lemma_known_prefix_positive(entries.skip(1));
    }
}

proof fn lemma_known_prefix_positive(entries: Seq<BatEntry>)
    ensures
        0 <= known_prefix(entries) <= entries.len(),
    decreases entries.len(),
{
    if entries.len() > 0 {
        lemma_known_prefix_positive(entries.skip(1));
    }
}

fn mark_payload(bat: &Bat, block_number: u32, entry: BatEntry) -> (r: Option<SpaceMark>)
    requires
        entry.spec_file_offset_mb() <= MAX_FILE_MEGABYTE,
    ensures
        r == payload_mark(*bat, block_number as int, entry),
{
    let state: u8 = entry.state();
    let file_offset: u64 = entry.file_offset();
    if file_offset == 0 {
        None
    } else if state == 6 || state == 7 {
        Some(SpaceMark::InUse { file_offset, length: bat.block_size })
    } else if state == 1 || state == 3 {
        Some(SpaceMark::Trimmed { block_number, file_offset, length: bat.block_size })
    } else {
        None
    }
}

fn mark_bitmap(entry: BatEntry) -> (r: Option<SpaceMark>)
    requires
        entry.spec_file_offset_mb() <= MAX_FILE_MEGABYTE,
    ensures
        r == bitmap_mark(entry),
{
    let state: u8 = entry.state();
    let file_offset: u64 = entry.file_offset();
    if file_offset != 0 && (state == 6 || state == 7) {
        Some(SpaceMark::InUse { file_offset, length: SECTOR_BITMAP_BLOCK_SIZE })
    } else {
        None
    }
}

proof fn lemma_allocated_count_push(mappings: Seq<InternalBlockMapping>, m: InternalBlockMapping)
    ensures
        allocated_count(mappings.push(m)) == allocated_count(mappings) + (if m.allocated() {
            1nat
        } else {
            0
        }),
        allocated_count(mappings) <= mappings.len(),
    decreases mappings.len(),
{
    assert(mappings.push(m).drop_last() == mappings);
    if mappings.len() > 0 {
        assert(mappings.drop_last().push(mappings.last()) == mappings);
        lemma_allocated_count_push(mappings.drop_last(), mappings.last());
    }
}

impl Bat {
    /// Loads the in-memory table from the entries of all payload blocks and
    /// of all sector bitmap blocks, and appends to `marks`, in order, what
    /// the entries say about the space of the file. It stops at the first
    /// entry with an unknown state; `marks` then holds what came before it.
    pub fn load_bat_state(
        &self,
        payload: &[BatEntry],
        bitmaps: &[BatEntry],
        marks: &mut Vec<SpaceMark>,
    ) -> (r: Result<BatState, VhdxError>)
        requires
            payload@.len() == self.data_block_count,
            bitmaps@.len() == self.sector_bitmap_block_count,
            forall|i: int|
                0 <= i < known_prefix(payload@) ==> (
                #[trigger] payload@[i]).spec_file_offset_mb() <= MAX_FILE_MEGABYTE,
            known_prefix(payload@) == payload@.len() ==> forall|i: int|
                0 <= i < known_prefix(bitmaps@) ==> (
                #[trigger] bitmaps@[i]).spec_file_offset_mb() <= MAX_FILE_MEGABYTE,
        ensures
            ({
                let p = known_prefix(payload@);
                let b = if p == payload@.len() {
                    known_prefix(bitmaps@)
                } else {
                    0
                };
                &&& final(marks)@ == old(marks)@ + payload_marks(*self, payload@, p)
                    + bitmap_marks(bitmaps@, b)
                &&& if p == payload@.len() && b == bitmaps@.len() {
                    r matches Ok(state) && {
                        &&& state.wf()
                        &&& state.matches_bat(*self)
                        &&& forall|i: int|
                            0 <= i < payload@.len() ==> #[trigger] state.payload_mappings@[i]
                                == InternalBlockMapping::of_entry(payload@[i], !self.has_parent)
                        &&& forall|i: int|
                            0 <= i < bitmaps@.len() ==> #[trigger] state.sector_bitmap_mappings@[i]
                                == InternalBlockMapping::of_entry(bitmaps@[i], true)
                    }
                } else {
                    r == Err::<BatState, VhdxError>(
                        VhdxError::Corrupt(CorruptionType::InvalidBlockState),
                    )
                }
            }),
    {
        let ghost marks_before = marks@;
        let mut state = BatState {
            payload_mappings: Vec::new(),
            sector_bitmap_mappings: Vec::new(),
            allocated_block_count: 0,
        };
        let mut block: u32 = 0;
        while block < self.data_block_count
            invariant
                block <= self.data_block_count == payload@.len(),
                state.payload_mappings@.len() == block,
                state.sector_bitmap_mappings@.len() == 0,
                state.wf(),
                forall|i: int|
                    0 <= i < known_prefix(payload@) ==> (
                    #[trigger] payload@[i]).spec_file_offset_mb() <= MAX_FILE_MEGABYTE,
                forall|i: int| 0 <= i < block ==> known_state(#[trigger] payload@[i]),
                forall|i: int|
                    0 <= i < block ==> #[trigger] state.payload_mappings@[i]
                        == InternalBlockMapping::of_entry(payload@[i], !self.has_parent),
                marks@ == marks_before + payload_marks(*self, payload@, block as int),
                marks_before == old(marks)@,
            decreases self.data_block_count - block,
        {
            let entry: BatEntry = payload[block as usize];
            if BatEntryState::from_raw(entry.state()).is_none() {
                proof {
                    lemma_known_prefix(payload@, block as int);
                    assert(marks@ == marks_before + payload_marks(*self, payload@, block as int)
                        + bitmap_marks(bitmaps@, 0));
                }
                return Err(VhdxError::Corrupt(CorruptionType::InvalidBlockState));
            }
            proof {
                lemma_known_prefix_beyond(payload@, block as int);
            }
            let internal = InternalBlockMapping::from_bat_entry(entry, self.has_parent);
            proof {
                lemma_allocated_count_push(state.payload_mappings@, internal);
            }
            if entry.state() == 6 || entry.state() == 7 {
                state.allocated_block_count = state.allocated_block_count + 1;
            }
            match mark_payload(self, block, entry) {
                Some(mark) => marks.push(mark),
                None => {},
            }
            state.payload_mappings.push(internal);
            block += 1;
        }
        proof {
            lemma_known_prefix(payload@, payload@.len() as int);
        }
        let mut chunk: u32 = 0;
        while chunk < self.sector_bitmap_block_count
            invariant
                chunk <= self.sector_bitmap_block_count == bitmaps@.len(),
                known_prefix(payload@) == payload@.len() == self.data_block_count,
                state.payload_mappings@.len() == payload@.len(),
                state.sector_bitmap_mappings@.len() == chunk,
                state.wf(),
                forall|i: int|
                    0 <= i < known_prefix(bitmaps@) ==> (
                    #[trigger] bitmaps@[i]).spec_file_offset_mb() <= MAX_FILE_MEGABYTE,
                forall|i: int| 0 <= i < chunk ==> known_state(#[trigger] bitmaps@[i]),
                forall|i: int|
                    0 <= i < payload@.len() ==> #[trigger] state.payload_mappings@[i]
                        == InternalBlockMapping::of_entry(payload@[i], !self.has_parent),
                forall|i: int|
                    0 <= i < chunk ==> #[trigger] state.sector_bitmap_mappings@[i]
                        == InternalBlockMapping::of_entry(bitmaps@[i], true),
                marks@ == marks_before + payload_marks(*self, payload@, payload@.len() as int)
                    + bitmap_marks(bitmaps@, chunk as int),
                marks_before == old(marks)@,
            decreases self.sector_bitmap_block_count - chunk,
        {
            let entry: BatEntry = bitmaps[chunk as usize];
            if BatEntryState::from_raw(entry.state()).is_none() {
                proof {
                    lemma_known_prefix(bitmaps@, chunk as int);
                }
                return Err(VhdxError::Corrupt(CorruptionType::InvalidBlockState));
            }
            proof {
                lemma_known_prefix_beyond(bitmaps@, chunk as int);
            }
            let internal = InternalBlockMapping::from_sbm_bat_entry(entry);
            match mark_bitmap(entry) {
                Some(mark) => marks.push(mark),
                None => {},
            }
            state.sector_bitmap_mappings.push(internal);
            chunk += 1;
        }
        proof {
            lemma_known_prefix(bitmaps@, bitmaps@.len() as int);
        }
        Ok(state)
    }
}

/// The space of a block with a place in the file is marked as its state says:
/// in use if the block is present, fully or partially, and trimmed if it is
/// undefined or unmapped. No other space is marked. The place is a whole
/// number of megabytes, and the space of a payload block is as long as one.
pub proof fn law_marked_space_is_that_of_the_entry(bat: Bat, block_number: u32, entry: BatEntry)
    requires
        entry.raw < 0x100_0000_0000_0000,
    ensures
        ({
            let state = entry.raw % 8;
            let place = entry.raw - entry.raw % 0x10_0000;
            &&& payload_mark(bat, block_number as int, entry) == (if place == 0 {
                None
            } else if state == 6 || state == 7 {
                Some(SpaceMark::InUse { file_offset: place as u64, length: bat.block_size })
            } else if state == 1 || state == 3 {
                Some(
                    SpaceMark::Trimmed {
                        block_number,
                        file_offset: place as u64,
                        length: bat.block_size,
                    },
                )
            } else {
                None
            })
            &&& bitmap_mark(entry) == (if place != 0 && (state == 6 || state == 7) {
                Some(SpaceMark::InUse { file_offset: place as u64, length: 0x10_0000 })
            } else {
                None
            })
        }),
{
}

/// The marks of a table are those of its entries and no others: each block
/// that has one contributes it, and each mark comes from a block.
pub proof fn law_every_block_is_marked(bat: Bat, entries: Seq<BatEntry>, n: int, mark: SpaceMark)
    requires
        0 <= n <= entries.len(),
    ensures
        payload_marks(bat, entries, n).contains(mark) <==> exists|b: int|
            0 <= b < n && #[trigger] payload_mark(bat, b, entries[b]) == Some(mark),
        bitmap_marks(entries, n).contains(mark) <==> exists|c: int|
            0 <= c < n && #[trigger] bitmap_mark(entries[c]) == Some(mark),
    decreases n,
{
    if n > 0 {
        law_every_block_is_marked(bat, entries, n - 1, mark);
        lemma_push_mark(
            payload_marks(bat, entries, n - 1),
            payload_mark(bat, n - 1, entries[n - 1]),
            mark,
        );
        lemma_push_mark(bitmap_marks(entries, n - 1), bitmap_mark(entries[n - 1]), mark);
    }
}

proof fn lemma_push_mark(marks: Seq<SpaceMark>, new: Option<SpaceMark>, mark: SpaceMark)
    ensures
        push_mark(marks, new).contains(mark) <==> marks.contains(mark) || new == Some(mark),
{
    if let Some(m) = new {
        let pushed = marks.push(m);
        assert(pushed[marks.len() as int] == m);
        if marks.contains(mark) {
            let i = choose|i: int| 0 <= i < marks.len() && marks[i] == mark;
            assert(pushed[i] == mark);
        }
        if pushed.contains(mark) {
            let i = choose|i: int| 0 <= i < pushed.len() && pushed[i] == mark;
            if i < marks.len() {
                assert(marks[i] == mark);
            }
        }
    }
}

/// A table is read up to its first entry with a state that there is not: 4 and
/// 5 are those.
pub proof fn law_unknown_state_ends_the_table(entries: Seq<BatEntry>, i: int)
    ensures
        0 <= known_prefix(entries) <= entries.len(),
        0 <= i < known_prefix(entries) ==> entries[i].raw % 8 != 4 && entries[i].raw % 8 != 5,
        known_prefix(entries) < entries.len() ==> {
            let state = entries[known_prefix(entries)].raw % 8;
            state == 4 || state == 5
        },
    decreases entries.len(),
{
    if entries.len() > 0 && known_state(entries[0]) {
        law_unknown_state_ends_the_table(entries.skip(1), i - 1);
    }
}

/// A table that is loaded has a mapping for each block, with the state and the
/// place of its entry; on a disk without a parent a payload block that is
/// partially present is taken as fully present, and a sector bitmap block
/// always is. A table with an unknown state is refused.
pub proof fn law_loaded_table_is_that_of_the_file(
    bat: Bat,
    payload: &[BatEntry],
    bitmaps: &[BatEntry],
    marks: &mut Vec<SpaceMark>,
    r: Result<BatState, VhdxError>,
    b: int,
    c: int,
)
    requires
        payload@.len() == bat.data_block_count,
        bitmaps@.len() == bat.sector_bitmap_block_count,
        forall|i: int| 0 <= i < payload@.len() ==> (#[trigger] payload@[i]).raw < 0x1_0000_0000_0000,
        forall|i: int| 0 <= i < bitmaps@.len() ==> (#[trigger] bitmaps@[i]).raw < 0x1_0000_0000_0000,
        0 <= b < payload@.len(),
        call_ensures(Bat::load_bat_state, (&bat, payload, bitmaps, marks), r),
    ensures
        payload@[b].raw % 8 == 4 || payload@[b].raw % 8 == 5 ==> r is Err,
        r matches Err(e) ==> e == VhdxError::Corrupt(CorruptionType::InvalidBlockState),
        r matches Ok(state) ==> {
            let mapping = state.payload_mappings@[b];
            &&& mapping.raw / 16 == payload@[b].raw / 0x10_0000
            &&& mapping.raw % 16 == (if !bat.has_parent && payload@[b].raw % 8 == 7 {
                6
            } else {
                payload@[b].raw % 8
            })
        },
        r matches Ok(state) ==> 0 <= c < bitmaps@.len() ==> {
            let mapping = state.sector_bitmap_mappings@[c];
            &&& mapping.raw / 16 == bitmaps@[c].raw / 0x10_0000
            &&& mapping.raw % 16 == (if bitmaps@[c].raw % 8 == 7 {
                6
            } else {
                bitmaps@[c].raw % 8
            })
        },
        (forall|i: int|
            0 <= i < payload@.len() ==> (#[trigger] payload@[i]).raw % 8 != 4 && payload@[i].raw % 8
                != 5) && (forall|i: int|
            0 <= i < bitmaps@.len() ==> (#[trigger] bitmaps@[i]).raw % 8 != 4 && bitmaps@[i].raw % 8
                != 5) ==> r is Ok,
{
    law_unknown_state_ends_the_table(payload@, b);
    law_unknown_state_ends_the_table(bitmaps@, c);
    super::bat::law_loaded_mapping_is_its_entry(payload@[b], !bat.has_parent);
    if 0 <= c < bitmaps@.len() {
        super::bat::law_loaded_mapping_is_its_entry(bitmaps@[c], true);
    }
}

} // verus!
