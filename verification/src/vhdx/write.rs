//! Resolution of write requests.
//!
//! A write first scans its blocks: a part whose block has space goes there
//! directly, the others are allocated. A write that covers a whole block
//! marks it as transitioning to fully present (TFP) and commits it when the
//! data is written; a partial write commits it at once. The steps between
//! two file operations are functions here; the caller runs the operations.

use vstd::arithmetic::div_mod::lemma_fundamental_div_mod;
use vstd::prelude::*;

use super::bat::{
    law_mapping_parts, payload_index, quotient_up, Bat, BatState, BlockType,
    InternalBlockMapping, MAX_FILE_MEGABYTE, SECTOR_BITMAP_BLOCK_SIZE,
};
use super::bat_page::position_of;
use super::cache::PageKey;
use super::error::{CorruptionType, VhdxError};
use super::format::{BatEntryState, MB1};
use super::io::{aligned, lemma_request_in_disk, state_of_disk, WriteRange};
use super::open::VhdxFile;
use super::segment::{lemma_segments, segments_of, split_request, Segment};

verus! {

/// What newly allocated space holds.
#[derive(Debug, Clone, Copy, PartialEq, Eq, Structural)]
pub enum SpaceState {
    /// Zeros.
    Zero,
    /// Old data of the same block.
    OwnStale,
    /// Data that may stem from another block.
    CrossStale,
}

impl SpaceState {
    /// Whether the space shows no data of another block if the power fails
    /// before the new data is written.
    pub open spec fn safe(self) -> bool {
        self != SpaceState::CrossStale
    }

    /// Whether the space shows no data of another block.
    pub fn is_safe(self) -> (r: bool)
        ensures
            r == self.safe(),
    {
        match self {
            SpaceState::Zero | SpaceState::OwnStale => true,
            SpaceState::CrossStale => false,
        }
    }

    /// Whether the space holds zeros.
    pub fn is_zero(self) -> (r: bool)
        ensures
            r == (self == SpaceState::Zero),
    {
        match self {
            SpaceState::Zero => true,
            SpaceState::OwnStale | SpaceState::CrossStale => false,
        }
    }
}

/// Whether a trimmed block still knows its space.
pub open spec fn soft_anchored(mapping: InternalBlockMapping) -> bool {
    (mapping.spec_state() == 1 || mapping.spec_state() == 3) && mapping.mb() != 0
}

/// Whether a trimmed block still knows its space.
pub fn is_soft_anchored(mapping: InternalBlockMapping) -> (r: bool)
    ensures
        r == soft_anchored(mapping),
{
    (mapping.state() == 1 || mapping.state() == 3) && mapping.file_megabyte() != 0
}

/// Whether a part covers its whole block.
pub open spec fn covers_block(disk: VhdxFile, part: Segment) -> bool {
    part.block_offset == 0 && part.block_length >= disk.block_size
}

/// The range that writes a part into the space at `base`.
pub open spec fn data_range(part: Segment, base: int) -> WriteRange {
    WriteRange::Data {
        guest_offset: part.virtual_offset,
        length: part.block_length,
        file_offset: (base + part.block_offset) as u64,
    }
}

fn make_data_range(part: Segment, base: u64) -> (r: WriteRange)
    requires
        base + part.block_offset <= u64::MAX,
    ensures
        r == data_range(part, base as int),
{
    WriteRange::Data {
        guest_offset: part.virtual_offset,
        length: part.block_length,
        file_offset: base + part.block_offset as u64,
    }
}

/// What the scan of a part finds.
#[derive(Debug, Clone, Copy, PartialEq, Eq, Structural)]
pub enum PartPlan {
    /// Another write is allocating the block.
    Wait,
    /// The block has space, and the part goes there.
    Direct(WriteRange),
    /// The block has to be allocated or promoted.
    Allocate,
}

/// What the scan of a part finds, by the state of its block.
pub open spec fn scan_part(disk: VhdxFile, state: BatState, part: Segment) -> PartPlan {
    let mapping = state.payload_mappings@[part.block_number as int];
    if mapping.tfp() {
        PartPlan::Wait
    } else if mapping.spec_state() == 6 || mapping.spec_state() == 7 && !covers_block(disk, part) {
        PartPlan::Direct(data_range(part, mapping.mb() * MB1))
    } else {
        PartPlan::Allocate
    }
}

/// The index of the first part from `from` on whose block another write is
/// allocating, or the number of parts.
pub open spec fn first_wait(
    disk: VhdxFile,
    state: BatState,
    parts: Seq<Segment>,
    from: int,
) -> int
    decreases parts.len() - from,
{
    if from >= parts.len() || scan_part(disk, state, parts[from]) == PartPlan::Wait {
        from
    } else {
        first_wait(disk, state, parts, from + 1)
    }
}

/// The ranges of the parts that go directly to the file, in order.
pub open spec fn scan_ranges(disk: VhdxFile, state: BatState, parts: Seq<Segment>) -> Seq<WriteRange>
    decreases parts.len(),
{
    if parts.len() == 0 {
        Seq::empty()
    } else {
        let before = scan_ranges(disk, state, parts.drop_last());
        match scan_part(disk, state, parts.last()) {
            PartPlan::Direct(range) => before.push(range),
            _ => before,
        }
    }
}

/// The parts whose blocks have to be allocated, in order.
pub open spec fn scan_pending(disk: VhdxFile, state: BatState, parts: Seq<Segment>) -> Seq<Segment>
    decreases parts.len(),
{
    if parts.len() == 0 {
        Seq::empty()
    } else {
        let before = scan_pending(disk, state, parts.drop_last());
        if scan_part(disk, state, parts.last()) == PartPlan::Allocate {
            before.push(parts.last())
        } else {
            before
        }
    }
}

/// How far a write request has come.
#[derive(Debug, Clone, Copy, PartialEq, Eq, Structural)]
pub enum WritePhase {
    /// Its blocks are scanned.
    Scanning,
    /// The lock for allocations is being acquired.
    AwaitLock,
    /// The next block can be started.
    Idle,
    /// The space of a trimmed block is being taken back.
    AwaitReclaim,
    /// Space is being allocated for a block.
    AwaitSpace,
    /// Space is being allocated for a sector bitmap block.
    AwaitBitmapSpace,
    /// The mapping of a sector bitmap block is being written.
    AwaitBitmapPersist,
    /// The mapping of a block is being written.
    AwaitPayloadPersist,
    /// What to write is known.
    Finished,
}

/// A write request while it is resolved.
#[derive(Debug)]
pub struct WriteOp {
    /// Byte offset within the virtual disk.
    pub offset: u64,
    /// Length in bytes.
    pub len: u32,
    /// The parts of the request.
    pub parts: Vec<Segment>,
    /// The number of parts that were scanned.
    pub scanned: usize,
    /// What to write.
    pub ranges: Vec<WriteRange>,
    /// The parts whose blocks have to be allocated.
    pub pending: Vec<Segment>,
    /// How far the request has come.
    pub phase: WritePhase,
    /// The number of pending parts that are done.
    pub next: usize,
    /// The mapping of the current block as it was when its turn came.
    pub current: Option<InternalBlockMapping>,
    /// The space of the current block, if its write is partial.
    pub space: Option<NewSpace>,
    /// The blocks marked as transitioning.
    pub tfp_records: Vec<TfpRecord>,
    /// Whether a transitioning block uses space that is not safe, so that
    /// its data has to be flushed before the table is logged.
    pub needs_flush_before_log: bool,
}

/// What has happened since the last step of a write.
#[derive(Debug, Clone, Copy, PartialEq, Eq, Structural)]
pub enum WriteEvent {
    /// The write is enabled or may go on.
    Continue,
    /// The lock for allocations is held.
    Locked,
    /// The space of a trimmed block was taken back, or was not.
    Reclaimed(bool),
    /// Space was allocated for the block.
    Space {
        /// Byte offset within the file.
        file_offset: u64,
        /// What it holds.
        state: SpaceState,
    },
    /// Space was allocated for the sector bitmap block.
    BitmapSpace {
        /// Byte offset within the file.
        file_offset: u64,
    },
    /// The mapping was written.
    Persisted,
}

/// What the caller does next for a write. Where the action fails, the write
/// fails.
#[derive(Debug, Clone, Copy, PartialEq, Eq, Structural)]
pub enum WriteAction {
    /// Go on.
    Again,
    /// Wait until the block is settled, and go on.
    WaitForBlock(u32),
    /// Acquire the lock for allocations. It is held until the write is
    /// resolved.
    Lock,
    /// Give the lock up, wait until a block is settled, and acquire it again.
    UnlockAndWait,
    /// Take back the space of a trimmed block.
    Reclaim {
        /// The block.
        block_number: u32,
        /// Byte offset of its space within the file.
        file_offset: u64,
    },
    /// Allocate space for the block.
    Allocate {
        /// Length in bytes.
        length: u32,
    },
    /// Allocate zeroed space for the sector bitmap block of the chunk.
    AllocateBitmap {
        /// The chunk.
        chunk_number: u32,
        /// Length in bytes.
        length: u32,
    },
    /// Write a mapping to its page of the table.
    Persist {
        /// The kind of block.
        block_type: BlockType,
        /// Its number.
        number: u32,
        /// Its mapping.
        mapping: InternalBlockMapping,
    },
    /// See to it that the page of the table is not logged before what is
    /// written up to now is flushed, and go on.
    RequireFlush(PageKey),
    /// The write is resolved.
    Finished,
}

/// A block that a write marked as transitioning.
#[derive(Debug, Clone, Copy, PartialEq, Eq, Structural)]
pub struct TfpRecord {
    /// The block.
    pub block_number: u32,
    /// Its mapping before.
    pub original_mapping: InternalBlockMapping,
    /// File offset of newly allocated space, if any. Space of its own that a
    /// trimmed block reclaims is not new.
    pub allocated_offset: Option<u64>,
}

/// Space that a partial write has allocated and not committed yet.
#[derive(Debug, Clone, Copy, PartialEq, Eq, Structural)]
pub struct NewSpace {
    /// Byte offset within the file.
    pub file_offset: u64,
    /// What the space holds.
    pub state: SpaceState,
}

/// Space to give back.
#[derive(Debug, Clone, Copy, PartialEq, Eq, Structural)]
pub struct SpaceRelease {
    /// Byte offset within the file.
    pub file_offset: u64,
    /// Length in bytes.
    pub length: u32,
}

/// Whether a partial write leaves the rest of its block to the parent.
pub open spec fn stays_partial(disk: VhdxFile, original: InternalBlockMapping) -> bool {
    disk.has_parent && original.spec_state() == 0
}

/// The mapping that a partial write commits.
pub open spec fn committed_mapping(
    disk: VhdxFile,
    original: InternalBlockMapping,
    file_offset: u64,
) -> InternalBlockMapping {
    InternalBlockMapping::of(
        if stays_partial(disk, original) {
            7
        } else {
            6
        },
        false,
        (file_offset as int / MB1 as int) as u32,
    )
}

/// The ranges of a partial write into new space. The rest of the block is
/// zeroed, unless it is left to the parent or the space is zero already.
pub open spec fn partial_ranges(
    disk: VhdxFile,
    part: Segment,
    original: InternalBlockMapping,
    space: NewSpace,
) -> Seq<WriteRange> {
    let pad = !stays_partial(disk, original) && space.state != SpaceState::Zero;
    let end = part.block_offset + part.block_length;
    let data = seq![data_range(part, space.file_offset as int)];
    let head = if pad && part.block_offset > 0 {
        seq![WriteRange::Zero { file_offset: space.file_offset, length: part.block_offset }]
    } else {
        Seq::empty()
    };
    let tail = if pad && end < disk.block_size {
        seq![
            WriteRange::Zero {
                file_offset: (space.file_offset + end) as u64,
                length: (disk.block_size - end) as u32,
            },
        ]
    } else {
        Seq::empty()
    };
    head + data + tail
}

/// A part of a request on the disk.
pub open spec fn part_of_disk(disk: VhdxFile, part: Segment) -> bool {
    &&& part.block_number < disk.bat.data_block_count
    &&& part.block_length > 0
    &&& part.block_offset + part.block_length <= disk.block_size
}

/// The chunk of a block has a sector bitmap block.
pub(crate) proof fn lemma_chunk_in_range(bat: Bat, block_number: u32)
    requires
        bat.wf(),
        bat.has_parent,
        block_number < bat.data_block_count,
    ensures
        block_number / bat.chunk_ratio < bat.sector_bitmap_block_count,
{
    let r = bat.chunk_ratio as int;
    let data = bat.data_block_count as int;
    let n = quotient_up(data, r);
    let q = block_number as int / r;
    lemma_fundamental_div_mod(data + r - 1, r);
    lemma_fundamental_div_mod(block_number as int, r);
    assert(q < n) by (nonlinear_arith)
        requires
            data + r - 1 == r * n + (data + r - 1) % r,
            0 <= (data + r - 1) % r < r,
            block_number == r * q + block_number as int % r,
            0 <= block_number as int % r,
            block_number < data,
            r > 0,
    ;
}

/// The parts are of the disk, and their blocks ascend.
pub open spec fn parts_ascend(disk: VhdxFile, parts: Seq<Segment>) -> bool {
    &&& forall|k: int| 0 <= k < parts.len() ==> part_of_disk(disk, #[trigger] parts[k])
    &&& forall|i: int, j: int|
        0 <= i < j < parts.len() ==> (#[trigger] parts[i]).block_number < (
        #[trigger] parts[j]).block_number
}

impl WriteOp {
    /// The request is one of the disk, and has in hand what its phase says.
    pub open spec fn wf(self, disk: VhdxFile) -> bool {
        &&& parts_ascend(disk, self.parts@)
        &&& self.scanned <= self.parts@.len()
        &&& parts_ascend(disk, self.pending@)
        &&& forall|i: int, j: int|
            0 <= i < self.pending@.len() && self.scanned <= j < self.parts@.len() ==> (
            #[trigger] self.pending@[i]).block_number < (#[trigger] self.parts@[j]).block_number
        &&& self.next <= self.pending.len()
        &&& self.phase == WritePhase::Scanning || self.scanned == self.parts@.len()
        &&& self.phase == WritePhase::Scanning || self.phase == WritePhase::AwaitLock ==> self.next
            == 0 && self.tfp_records@.len() == 0
        &&& self.in_block() ==> self.next < self.pending.len() && self.current is Some
            && BatEntryState::of_raw(self.current->0.spec_state()) is Some
        &&& self.in_partial_block() ==> self.space is Some && self.space->0.file_offset / MB1
            <= MAX_FILE_MEGABYTE && !covers_block(disk, self.part())
        &&& self.phase == WritePhase::AwaitReclaim ==> soft_anchored(self.current->0)
        &&& self.phase == WritePhase::AwaitBitmapSpace || self.phase
            == WritePhase::AwaitBitmapPersist ==> disk.has_parent
        &&& self.phase == WritePhase::Finished ==> self.next == self.pending@.len()
        &&& records_valid(disk, self.tfp_records@)
    }

    /// A block is being allocated.
    pub open spec fn in_block(self) -> bool {
        self.phase == WritePhase::AwaitReclaim || self.phase == WritePhase::AwaitSpace
            || self.in_partial_block()
    }

    /// A partial write of a block is being committed.
    pub open spec fn in_partial_block(self) -> bool {
        self.phase == WritePhase::AwaitBitmapSpace || self.phase == WritePhase::AwaitBitmapPersist
            || self.phase == WritePhase::AwaitPayloadPersist
    }

    /// The part whose block is allocated next.
    pub open spec fn part(self) -> Segment {
        self.pending@[self.next as int]
    }

    /// The event is one that the write waits for.
    pub open spec fn expects(self, event: WriteEvent) -> bool {
        match event {
            WriteEvent::Continue => self.phase == WritePhase::Scanning || self.phase
                == WritePhase::Idle,
            WriteEvent::Locked => self.phase == WritePhase::AwaitLock,
            WriteEvent::Reclaimed(_) => self.phase == WritePhase::AwaitReclaim,
            WriteEvent::Space { file_offset, .. } => self.phase == WritePhase::AwaitSpace
                && file_offset / MB1 <= MAX_FILE_MEGABYTE,
            WriteEvent::BitmapSpace { file_offset } => self.phase == WritePhase::AwaitBitmapSpace
                && file_offset / MB1 <= MAX_FILE_MEGABYTE,
            WriteEvent::Persisted => self.phase == WritePhase::AwaitBitmapPersist || self.phase
                == WritePhase::AwaitPayloadPersist,
        }
    }

    /// The request and what the scan found are as before.
    pub open spec fn same_request(self, next: WriteOp) -> bool {
        &&& next.offset == self.offset
        &&& next.len == self.len
        &&& next.parts@ == self.parts@
        &&& next.scanned == self.scanned
        &&& next.pending@ == self.pending@
    }

    /// What the write has done so far is as before.
    pub open spec fn same_progress(self, next: WriteOp) -> bool {
        &&& self.same_request(next)
        &&& next.next == self.next
        &&& next.ranges@ == self.ranges@
        &&& next.tfp_records@ == self.tfp_records@
        &&& next.needs_flush_before_log == self.needs_flush_before_log
    }

    /// The current part is done: the ranges are written for it.
    pub open spec fn part_done(self, ranges: Seq<WriteRange>, next: WriteOp) -> bool {
        &&& self.same_request(next)
        &&& next.phase == WritePhase::Idle
        &&& next.next == self.next + 1
        &&& next.ranges@ =~= self.ranges@ + ranges
    }

    /// No other write is allocating a block that is still to be allocated.
    pub open spec fn no_overlap(self, state: BatState) -> bool {
        forall|k: int|
            self.next <= k < self.pending@.len() ==> !state.payload_mappings@[(
            #[trigger] self.pending@[k]).block_number as int].tfp()
    }
}

/// Every recorded block is one of the disk, with a known state before.
pub open spec fn records_valid(disk: VhdxFile, records: Seq<TfpRecord>) -> bool {
    forall|i: int|
        0 <= i < records.len() ==> {
            &&& (#[trigger] records[i]).block_number < disk.bat.data_block_count
            &&& BatEntryState::of_raw(records[i].original_mapping.spec_state()) is Some
        }
}

/// The scan of the blocks from where it stopped.
pub open spec fn scan_step(
    disk: VhdxFile,
    state: BatState,
    before: WriteOp,
    after: WriteOp,
    action: WriteAction,
) -> bool {
    let parts = before.parts@;
    let stop = first_wait(disk, state, parts, before.scanned as int);
    let found = parts.subrange(before.scanned as int, stop);
    &&& before.scanned <= stop <= parts.len()
    &&& after.offset == before.offset
    &&& after.len == before.len
    &&& after.parts@ == parts
    &&& after.scanned == stop
    &&& after.ranges@ == before.ranges@ + scan_ranges(disk, state, found)
    &&& after.pending@ == before.pending@ + scan_pending(disk, state, found)
    &&& after.next == before.next
    &&& after.tfp_records@ == before.tfp_records@
    &&& after.needs_flush_before_log == before.needs_flush_before_log
    &&& if stop < parts.len() {
        &&& action == WriteAction::WaitForBlock(parts[stop].block_number)
        &&& after.phase == WritePhase::Scanning
    } else if after.pending@.len() == 0 {
        &&& action == WriteAction::Finished
        &&& after.phase == WritePhase::Finished
    } else {
        &&& action == WriteAction::Lock
        &&& after.phase == WritePhase::AwaitLock
    }
}

/// The start of the next block. A block that has space by now is written
/// directly, as in the scan; a fully covered partial block is marked as
/// transitioning on the way; for any other space is needed.
pub open spec fn begin_step(
    disk: VhdxFile,
    before: WriteOp,
    mappings: Seq<InternalBlockMapping>,
    after: WriteOp,
    new_mappings: Seq<InternalBlockMapping>,
    action: WriteAction,
) -> bool {
    let part = before.part();
    let mapping = mappings[part.block_number as int];
    let direct = seq![data_range(part, mapping.mb() * MB1)];
    if mapping.spec_state() == 6 || (mapping.spec_state() == 7 && !covers_block(disk, part)) {
        &&& action == WriteAction::Again
        &&& before.part_done(direct, after)
        &&& after.tfp_records@ == before.tfp_records@
        &&& after.needs_flush_before_log == before.needs_flush_before_log
        &&& new_mappings == mappings
    } else if mapping.spec_state() == 7 {
        &&& action == WriteAction::Again
        &&& before.part_done(direct, after)
        &&& after.tfp_records@ == before.tfp_records@.push(
            TfpRecord {
                block_number: part.block_number,
                original_mapping: mapping,
                allocated_offset: None,
            },
        )
        &&& after.needs_flush_before_log == before.needs_flush_before_log
        &&& new_mappings == mappings.update(
            part.block_number as int,
            InternalBlockMapping::of(7, true, mapping.mb()),
        )
    } else {
        &&& before.same_progress(after)
        &&& after.current == Some(mapping)
        &&& new_mappings == mappings
        &&& if soft_anchored(mapping) {
            &&& after.phase == WritePhase::AwaitReclaim
            &&& action == WriteAction::Reclaim {
                block_number: part.block_number,
                file_offset: (mapping.mb() * MB1) as u64,
            }
        } else {
            &&& after.phase == WritePhase::AwaitSpace
            &&& action == WriteAction::Allocate { length: disk.block_size }
        }
    }
}

/// The current block is put into space. A fully covered block is marked as
/// transitioning, and the space is recorded if it is newly allocated. A
/// partial write commits its mapping, after the sector
/// bitmap block that it may need.
pub open spec fn space_step(
    disk: VhdxFile,
    before: WriteOp,
    state: BatState,
    space: NewSpace,
    fresh: bool,
    after: WriteOp,
    new_mappings: Seq<InternalBlockMapping>,
    action: WriteAction,
) -> bool {
    let part = before.part();
    let original = before.current->0;
    let mappings = state.payload_mappings@;
    let chunk = part.block_number / disk.bat.chunk_ratio;
    if covers_block(disk, part) {
        &&& action == WriteAction::Again
        &&& before.part_done(seq![data_range(part, space.file_offset as int)], after)
        &&& after.tfp_records@ == before.tfp_records@.push(
            TfpRecord {
                block_number: part.block_number,
                original_mapping: original,
                allocated_offset: if fresh {
                    Some(space.file_offset)
                } else {
                    None
                },
            },
        )
        &&& after.needs_flush_before_log == (before.needs_flush_before_log || !space.state.safe())
        &&& new_mappings == mappings.update(
            part.block_number as int,
            InternalBlockMapping::of(
                original.spec_state(),
                true,
                (space.file_offset / MB1) as u32,
            ),
        )
    } else {
        &&& before.same_progress(after)
        &&& after.current == before.current
        &&& after.space == Some(space)
        &&& if stays_partial(disk, original)
            && state.sector_bitmap_mappings@[chunk as int].spec_state() != 6 {
            &&& after.phase == WritePhase::AwaitBitmapSpace
            &&& action == WriteAction::AllocateBitmap {
                chunk_number: chunk,
                length: SECTOR_BITMAP_BLOCK_SIZE,
            }
            &&& new_mappings == mappings
        } else {
            &&& after.phase == WritePhase::AwaitPayloadPersist
            &&& payload_step(
                disk,
                part,
                original,
                space.file_offset,
                mappings,
                new_mappings,
                action,
            )
        }
    }
}

/// The mapping of a partial write is committed in memory, and written next.
pub open spec fn payload_step(
    disk: VhdxFile,
    part: Segment,
    original: InternalBlockMapping,
    file_offset: u64,
    mappings: Seq<InternalBlockMapping>,
    new_mappings: Seq<InternalBlockMapping>,
    action: WriteAction,
) -> bool {
    let committed = committed_mapping(disk, original, file_offset);
    &&& action == WriteAction::Persist {
        block_type: BlockType::Payload,
        number: part.block_number,
        mapping: committed,
    }
    &&& new_mappings == mappings.update(part.block_number as int, committed)
}

/// The sector bitmap block of the chunk is put into space.
pub open spec fn bitmap_space_step(
    disk: VhdxFile,
    before: WriteOp,
    bitmaps: Seq<InternalBlockMapping>,
    file_offset: u64,
    after: WriteOp,
    new_bitmaps: Seq<InternalBlockMapping>,
    action: WriteAction,
) -> bool {
    let chunk = before.part().block_number / disk.bat.chunk_ratio;
    let mapping = InternalBlockMapping::of(6, false, (file_offset / MB1) as u32);
    &&& before.same_progress(after)
    &&& after.current == before.current
    &&& after.space == before.space
    &&& after.phase == WritePhase::AwaitBitmapPersist
    &&& action == WriteAction::Persist {
        block_type: BlockType::SectorBitmap,
        number: chunk,
        mapping,
    }
    &&& new_bitmaps == bitmaps.update(chunk as int, mapping)
}

/// A partial write of a block is finished.
pub open spec fn partial_done_step(
    disk: VhdxFile,
    before: WriteOp,
    after: WriteOp,
    action: WriteAction,
) -> bool {
    let part = before.part();
    &&& before.part_done(
        partial_ranges(disk, part, before.current->0, before.space->0),
        after,
    )
    &&& after.tfp_records@ == before.tfp_records@
    &&& after.needs_flush_before_log == before.needs_flush_before_log
    &&& action == (if before.space->0.state.safe() {
        WriteAction::Again
    } else {
        WriteAction::RequireFlush(
            position_of(payload_index(disk.bat, part.block_number as int)).page_key,
        )
    })
}

/// One step of a write, by what happened before it.
pub open spec fn write_step(
    disk: VhdxFile,
    before: WriteOp,
    state: BatState,
    event: WriteEvent,
    after: WriteOp,
    new_state: BatState,
    action: WriteAction,
) -> bool {
    let mappings = state.payload_mappings@;
    let new_mappings = new_state.payload_mappings@;
    let bitmaps = state.sector_bitmap_mappings@;
    let new_bitmaps = new_state.sector_bitmap_mappings@;
    match event {
        WriteEvent::Continue => {
            &&& new_bitmaps == bitmaps
            &&& if before.phase == WritePhase::Scanning {
                new_mappings == mappings && scan_step(disk, state, before, after, action)
            } else if before.next == before.pending@.len() {
                &&& new_mappings == mappings
                &&& before.same_progress(after)
                &&& after.phase == WritePhase::Finished
                &&& action == WriteAction::Finished
            } else {
                begin_step(disk, before, mappings, after, new_mappings, action)
            }
        },
        WriteEvent::Locked => {
            &&& new_mappings == mappings
            &&& new_bitmaps == bitmaps
            &&& before.same_progress(after)
            &&& if before.no_overlap(state) {
                after.phase == WritePhase::Idle && action == WriteAction::Again
            } else {
                after.phase == WritePhase::AwaitLock && action == WriteAction::UnlockAndWait
            }
        },
        WriteEvent::Reclaimed(ok) => {
            &&& new_bitmaps == bitmaps
            &&& if ok {
                space_step(
                    disk,
                    before,
                    state,
                    NewSpace {
                        file_offset: (before.current->0.mb() * MB1) as u64,
                        state: SpaceState::OwnStale,
                    },
                    false,
                    after,
                    new_mappings,
                    action,
                )
            } else {
                &&& new_mappings == mappings
                &&& before.same_progress(after)
                &&& after.current == before.current
                &&& after.phase == WritePhase::AwaitSpace
                &&& action == WriteAction::Allocate { length: disk.block_size }
            }
        },
        WriteEvent::Space { file_offset, state: space_state } => {
            &&& new_bitmaps == bitmaps
            &&& space_step(
                disk,
                before,
                state,
                NewSpace { file_offset, state: space_state },
                true,
                after,
                new_mappings,
                action,
            )
        },
        WriteEvent::BitmapSpace { file_offset } => {
            &&& new_mappings == mappings
            &&& bitmap_space_step(disk, before, bitmaps, file_offset, after, new_bitmaps, action)
        },
        WriteEvent::Persisted => {
            &&& new_bitmaps == bitmaps
            &&& if before.phase == WritePhase::AwaitBitmapPersist {
                &&& before.same_progress(after)
                &&& after.current == before.current
                &&& after.space == before.space
                &&& after.phase == WritePhase::AwaitPayloadPersist
                &&& payload_step(
                    disk,
                    before.part(),
                    before.current->0,
                    before.space->0.file_offset,
                    mappings,
                    new_mappings,
                    action,
                )
            } else {
                new_mappings == mappings && partial_done_step(disk, before, after, action)
            }
        },
    }
}

pub(crate) proof fn lemma_scan_pending(disk: VhdxFile, state: BatState, parts: Seq<Segment>)
    requires
        parts_ascend(disk, parts),
    ensures
        parts_ascend(disk, scan_pending(disk, state, parts)),
        forall|i: int|
            0 <= i < scan_pending(disk, state, parts).len() ==> parts.contains(
                #[trigger] scan_pending(disk, state, parts)[i],
            ),
    decreases parts.len(),
{
    if parts.len() > 0 {
        let rest = parts.drop_last();
        let before = scan_pending(disk, state, rest);
        let pending = scan_pending(disk, state, parts);
        assert(parts_ascend(disk, rest)) by {
            assert forall|k: int| 0 <= k < rest.len() implies part_of_disk(
                disk,
                #[trigger] rest[k],
            ) by {
                assert(part_of_disk(disk, parts[k]));
            }
            assert forall|i: int, j: int| 0 <= i < j < rest.len() implies (
            #[trigger] rest[i]).block_number < (#[trigger] rest[j]).block_number by {
                assert(parts[i].block_number < parts[j].block_number);
            }
        }
        lemma_scan_pending(disk, state, rest);
        assert forall|i: int| 0 <= i < pending.len() implies parts.contains(
            #[trigger] pending[i],
        ) by {
            if i < before.len() {
                let k = choose|k: int| 0 <= k < rest.len() && rest[k] == before[i];
                assert(parts[k] == pending[i]);
            } else {
                assert(parts[parts.len() - 1] == pending[i]);
            }
        }
        assert forall|k: int| 0 <= k < pending.len() implies part_of_disk(
            disk,
            #[trigger] pending[k],
        ) by {
            let m = choose|m: int| 0 <= m < parts.len() && parts[m] == pending[k];
            assert(part_of_disk(disk, parts[m]));
        }
        assert forall|i: int, j: int| 0 <= i < j < pending.len() implies (
        #[trigger] pending[i]).block_number < (#[trigger] pending[j]).block_number by {
            if j < before.len() {
                assert(before[i].block_number < before[j].block_number);
            } else {
                let m = choose|m: int| 0 <= m < rest.len() && rest[m] == before[i];
                assert(parts[m].block_number < parts[parts.len() - 1].block_number);
            }
        }
    }
}

/// Whether a part is one of those from `lo` up to `hi`.
spec fn occurs(parts: Seq<Segment>, lo: int, hi: int, part: Segment) -> bool {
    exists|m: int| lo <= m < hi && #[trigger] parts[m] == part
}

/// A scan keeps the request in order.
proof fn lemma_scan_keeps_wf(
    disk: VhdxFile,
    state: BatState,
    before: WriteOp,
    after: WriteOp,
    action: WriteAction,
)
    requires
        before.wf(disk),
        before.phase == WritePhase::Scanning,
        scan_step(disk, state, before, after, action),
        after.next <= after.pending.len(),
    ensures
        after.wf(disk),
{
    let parts = before.parts@;
    let stop = after.scanned as int;
    let found = parts.subrange(before.scanned as int, stop);
    let added = scan_pending(disk, state, found);
    assert(parts_ascend(disk, found)) by {
        assert forall|k: int| 0 <= k < found.len() implies part_of_disk(
            disk,
            #[trigger] found[k],
        ) by {
            assert(part_of_disk(disk, parts[before.scanned + k]));
        }
        assert forall|i: int, j: int| 0 <= i < j < found.len() implies (
        #[trigger] found[i]).block_number < (#[trigger] found[j]).block_number by {
            assert(parts[before.scanned + i].block_number < parts[before.scanned
                + j].block_number);
        }
    }
    lemma_scan_pending(disk, state, found);
    let pending = after.pending@;
    let n = before.pending@.len() as int;
    assert forall|i: int| n <= i < pending.len() implies occurs(
        parts,
        before.scanned as int,
        stop,
        #[trigger] pending[i],
    ) by {
        assert(pending[i] == added[i - n]);
        let m = choose|m: int| 0 <= m < found.len() && found[m] == added[i - n];
        assert(parts[before.scanned + m] == pending[i]);
    }
    assert forall|k: int| 0 <= k < pending.len() implies part_of_disk(
        disk,
        #[trigger] pending[k],
    ) by {
        if k < n {
            assert(pending[k] == before.pending@[k]);
        } else {
            let m = choose|m: int| before.scanned <= m < stop && #[trigger] parts[m] == pending[k];
            assert(part_of_disk(disk, parts[m]));
        }
    }
    assert forall|i: int, j: int| 0 <= i < j < pending.len() implies (
    #[trigger] pending[i]).block_number < (#[trigger] pending[j]).block_number by {
        if j < n {
            assert(before.pending@[i].block_number < before.pending@[j].block_number);
        } else if i < n {
            let m = choose|m: int| before.scanned <= m < stop && #[trigger] parts[m] == pending[j];
            assert(before.pending@[i].block_number < parts[m].block_number);
        } else {
            assert(added[i - n].block_number < added[j - n].block_number);
        }
    }
    assert forall|i: int, j: int|
        0 <= i < pending.len() && stop <= j < parts.len() implies (
    #[trigger] pending[i]).block_number < (#[trigger] parts[j]).block_number by {
        if i < n {
            assert(before.pending@[i].block_number < parts[j].block_number);
        } else {
            let m = choose|m: int| before.scanned <= m < stop && #[trigger] parts[m] == pending[i];
            assert(parts[m].block_number < parts[j].block_number);
        }
    }
}

impl VhdxFile {
    /// Accepts a write request. A request of length zero is complete at once.
    /// Before it is resolved, the caller enables writing of data.
    pub fn begin_write(&self, offset: u64, len: u32) -> (r: Result<Option<WriteOp>, VhdxError>)
        requires
            self.wf(),
        ensures
            if self.read_only {
                r == Err::<Option<WriteOp>, VhdxError>(VhdxError::ReadOnly)
            } else if len == 0 {
                r == Ok::<Option<WriteOp>, VhdxError>(None)
            } else if !aligned(*self, offset as int, len as int) {
                r == Err::<Option<WriteOp>, VhdxError>(
                    VhdxError::Corrupt(CorruptionType::UnalignedIo),
                )
            } else if offset + len > self.disk_size {
                r == Err::<Option<WriteOp>, VhdxError>(
                    VhdxError::Corrupt(CorruptionType::ReadBeyondEndOfDisk),
                )
            } else {
                r matches Ok(Some(op)) && {
                    &&& op.wf(*self)
                    &&& op.phase == WritePhase::Scanning
                    &&& op.offset == offset
                    &&& op.len == len
                    &&& op.parts@ == segments_of(
                        self.block_size as int,
                        offset as int,
                        offset + len,
                    )
                    &&& op.scanned == 0
                    &&& op.ranges@.len() == 0
                    &&& op.pending@.len() == 0
                    &&& op.next == 0
                    &&& op.tfp_records@.len() == 0
                    &&& !op.needs_flush_before_log
                }
            },
    {
        if self.read_only {
            return Err(VhdxError::ReadOnly);
        }
        if len == 0 {
            return Ok(None);
        }
        match self.check_request(offset, len) {
            Ok(()) => {},
            Err(e) => {
                return Err(e);
            },
        }
        proof {
            lemma_request_in_disk(*self, offset, len);
            lemma_segments(self.block_size, offset, len);
        }
        let parts = split_request(self.block_size, offset, len);
        Ok(
            Some(
                WriteOp {
                    offset,
                    len,
                    parts,
                    scanned: 0,
                    ranges: Vec::new(),
                    pending: Vec::new(),
                    phase: WritePhase::Scanning,
                    next: 0,
                    current: None,
                    space: None,
                    tfp_records: Vec::new(),
                    needs_flush_before_log: false,
                },
            ),
        )
    }

    fn plan_part(&self, state: &BatState, part: Segment) -> (r: PartPlan)
        requires
            self.wf(),
            state_of_disk(*self, *state),
            part_of_disk(*self, part),
        ensures
            r == scan_part(*self, *state, part),
    {
        let mapping = state.get_payload_mapping(part.block_number);
        if mapping.transitioning_to_fully_present() {
            return PartPlan::Wait;
        }
        let is_full_block = part.block_offset == 0 && part.block_length >= self.block_size;
        match mapping.bat_state() {
            BatEntryState::FullyPresent => {
                PartPlan::Direct(make_data_range(part, mapping.file_offset()))
            },
            BatEntryState::PartiallyPresent => {
                if is_full_block {
                    PartPlan::Allocate
                } else {
                    PartPlan::Direct(make_data_range(part, mapping.file_offset()))
                }
            },
            BatEntryState::NotPresent
            | BatEntryState::Zero
            | BatEntryState::Unmapped
            | BatEntryState::Undefined => PartPlan::Allocate,
        }
    }

    /// Resolves a write, one step at a time: takes what happened since the
    /// last step, and returns what to do next. Once it is finished, `ranges`
    /// of the request says what to write.
    pub fn resolve_write(&self, op: &mut WriteOp, state: &mut BatState, event: WriteEvent) -> (r:
        WriteAction)
        requires
            self.wf(),
            state_of_disk(*self, *old(state)),
            old(op).wf(*self),
            old(op).expects(event),
            old(op).phase == WritePhase::Idle ==> old(op).no_overlap(*old(state)),
        ensures
            state_of_disk(*self, *final(state)),
            final(op).wf(*self),
            write_step(*self, *old(op), *old(state), event, *final(op), *final(state), r),
    {
        match event {
            WriteEvent::Continue => {
                if op.phase == WritePhase::Scanning {
                    op.scan(self, state)
                } else if op.next == op.pending.len() {
                    op.phase = WritePhase::Finished;
                    WriteAction::Finished
                } else {
                    op.begin_block(self, state)
                }
            },
            WriteEvent::Locked => {
                if op.has_overlap(state) {
                    return WriteAction::UnlockAndWait;
                }
                op.phase = WritePhase::Idle;
                WriteAction::Again
            },
            WriteEvent::Reclaimed(ok) => {
                if ok {
                    let file_offset: u64 = op.current.unwrap().file_offset();
                    op.use_space(
                        self,
                        state,
                        NewSpace { file_offset, state: SpaceState::OwnStale },
                        false,
                    )
                } else {
                    op.phase = WritePhase::AwaitSpace;
                    WriteAction::Allocate { length: self.block_size }
                }
            },
            WriteEvent::Space { file_offset, state: space_state } => op.use_space(
                self,
                state,
                NewSpace { file_offset, state: space_state },
                true,
            ),
            WriteEvent::BitmapSpace { file_offset } => op.use_bitmap_space(
                self,
                state,
                file_offset,
            ),
            WriteEvent::Persisted => {
                if op.phase == WritePhase::AwaitBitmapPersist {
                    let action = op.commit_payload(self, state);
                    op.phase = WritePhase::AwaitPayloadPersist;
                    action
                } else {
                    op.payload_persisted(self)
                }
            },
        }
    }
}

impl WriteOp {
    /// Scans the blocks from where the scan stopped. Stops at a block that
    /// another write is allocating.
    fn scan(&mut self, disk: &VhdxFile, state: &BatState) -> (r: WriteAction)
        requires
            disk.wf(),
            state_of_disk(*disk, *state),
            old(self).wf(*disk),
            old(self).phase == WritePhase::Scanning,
        ensures
            final(self).wf(*disk),
            scan_step(*disk, *state, *old(self), *final(self), r),
    {
        let ghost before = *self;
        let ghost parts = self.parts@;
        let ghost from = self.scanned as int;
        assert(parts.subrange(from, from) =~= Seq::<Segment>::empty());
        while self.scanned < self.parts.len()
            invariant
                disk.wf(),
                state_of_disk(*disk, *state),
                before == *old(self),
                before.wf(*disk),
                before.phase == WritePhase::Scanning,
                parts == before.parts@,
                from == before.scanned,
                self.offset == before.offset,
                self.len == before.len,
                self.parts@ == parts,
                self.phase == before.phase,
                self.next == before.next,
                self.tfp_records@ == before.tfp_records@,
                self.needs_flush_before_log == before.needs_flush_before_log,
                from <= self.scanned <= parts.len(),
                first_wait(*disk, *state, parts, from) == first_wait(
                    *disk,
                    *state,
                    parts,
                    self.scanned as int,
                ),
                self.ranges@ == before.ranges@ + scan_ranges(
                    *disk,
                    *state,
                    parts.subrange(from, self.scanned as int),
                ),
                self.pending@ == before.pending@ + scan_pending(
                    *disk,
                    *state,
                    parts.subrange(from, self.scanned as int),
                ),
            decreases parts.len() - self.scanned,
        {
            let part: Segment = self.parts[self.scanned];
            proof {
                let more = parts.subrange(from, self.scanned + 1);
                assert(more.drop_last() =~= parts.subrange(from, self.scanned as int));
                assert(more.last() == part);
                assert(part_of_disk(*disk, parts[self.scanned as int]));
            }
            match disk.plan_part(state, part) {
                PartPlan::Wait => {
                    let action = WriteAction::WaitForBlock(part.block_number);
                    assert(self.next <= self.pending.len());
                    proof {
                        lemma_scan_keeps_wf(*disk, *state, before, *self, action);
                    }
                    return action;
                },
                PartPlan::Direct(range) => {
                    self.ranges.push(range);
                },
                PartPlan::Allocate => {
                    self.pending.push(part);
                },
            }
            self.scanned = self.scanned + 1;
        }
        let action = if self.pending.len() == 0 {
            self.phase = WritePhase::Finished;
            WriteAction::Finished
        } else {
            self.phase = WritePhase::AwaitLock;
            WriteAction::Lock
        };
        proof {
            lemma_scan_keeps_wf(*disk, *state, before, *self, action);
        }
        action
    }

    /// Whether another write is allocating one of the blocks.
    fn has_overlap(&self, state: &BatState) -> (r: bool)
        requires
            self.next == 0,
            forall|k: int|
                0 <= k < self.pending@.len() ==> (#[trigger] self.pending@[k]).block_number
                    < state.payload_mappings@.len(),
        ensures
            r == !self.no_overlap(*state),
    {
        let mut i: usize = 0;
        while i < self.pending.len()
            invariant
                i <= self.pending@.len(),
                self.next == 0,
                forall|k: int|
                    0 <= k < self.pending@.len() ==> (#[trigger] self.pending@[k]).block_number
                        < state.payload_mappings@.len(),
                forall|k: int|
                    0 <= k < i ==> !state.payload_mappings@[(
                    #[trigger] self.pending@[k]).block_number as int].tfp(),
            decreases self.pending@.len() - i,
        {
            let part: Segment = self.pending[i];
            if state.get_payload_mapping(part.block_number).transitioning_to_fully_present() {
                assert(!self.no_overlap(*state)) by {
                    assert(state.payload_mappings@[self.pending@[i as int].block_number as int].tfp());
                }
                return true;
            }
            i += 1;
        }
        false
    }

    /// Starts with the next block.
    fn begin_block(&mut self, disk: &VhdxFile, state: &mut BatState) -> (r: WriteAction)
        requires
            disk.wf(),
            state_of_disk(*disk, *old(state)),
            old(self).wf(*disk),
            old(self).phase == WritePhase::Idle,
            old(self).next < old(self).pending.len(),
        ensures
            state_of_disk(*disk, *final(state)),
            final(state).sector_bitmap_mappings@ == old(state).sector_bitmap_mappings@,
            final(self).wf(*disk),
            begin_step(
                *disk,
                *old(self),
                old(state).payload_mappings@,
                *final(self),
                final(state).payload_mappings@,
                r,
            ),
    {
        let part: Segment = self.pending[self.next];
        assert(part_of_disk(*disk, self.pending@[self.next as int]));
        let is_full_block = part.block_offset == 0 && part.block_length >= disk.block_size;
        let mapping = state.get_payload_mapping(part.block_number);
        let known: BatEntryState = mapping.bat_state();
        if known == BatEntryState::FullyPresent || (known == BatEntryState::PartiallyPresent
            && !is_full_block) {
            self.ranges.push(make_data_range(part, mapping.file_offset()));
            self.next = self.next + 1;
            return WriteAction::Again;
        }
        if known == BatEntryState::PartiallyPresent {
            let marked = InternalBlockMapping::new().with_state(
                mapping.state(),
            ).with_transitioning_to_fully_present(true).with_file_megabyte(mapping.file_megabyte());
            proof {
                law_mapping_parts(7, true, mapping.mb(), mapping);
            }
            state.set_payload_mapping(&disk.bat, part.block_number, marked);
            self.tfp_records.push(
                TfpRecord {
                    block_number: part.block_number,
                    original_mapping: mapping,
                    allocated_offset: None,
                },
            );
            self.ranges.push(make_data_range(part, mapping.file_offset()));
            self.next = self.next + 1;
            return WriteAction::Again;
        }
        self.current = Some(mapping);
        if is_soft_anchored(mapping) {
            self.phase = WritePhase::AwaitReclaim;
            WriteAction::Reclaim {
                block_number: part.block_number,
                file_offset: mapping.file_offset(),
            }
        } else {
            self.phase = WritePhase::AwaitSpace;
            WriteAction::Allocate { length: disk.block_size }
        }
    }

    /// Puts the current block into space, newly allocated or reclaimed.
    fn use_space(
        &mut self,
        disk: &VhdxFile,
        state: &mut BatState,
        space: NewSpace,
        fresh: bool,
    ) -> (r: WriteAction)
        requires
            disk.wf(),
            state_of_disk(*disk, *old(state)),
            old(self).wf(*disk),
            old(self).phase == WritePhase::AwaitReclaim || old(self).phase
                == WritePhase::AwaitSpace,
            space.file_offset / MB1 <= MAX_FILE_MEGABYTE,
        ensures
            state_of_disk(*disk, *final(state)),
            final(state).sector_bitmap_mappings@ == old(state).sector_bitmap_mappings@,
            final(self).wf(*disk),
            space_step(
                *disk,
                *old(self),
                *old(state),
                space,
                fresh,
                *final(self),
                final(state).payload_mappings@,
                r,
            ),
    {
        let part: Segment = self.pending[self.next];
        assert(part_of_disk(*disk, self.pending@[self.next as int]));
        let original: InternalBlockMapping = self.current.unwrap();
        let new_mb: u32 = (space.file_offset / MB1) as u32;
        assert(space.file_offset <= 0xffff_ffff_ffff) by (nonlinear_arith)
            requires
                space.file_offset / 0x10_0000 <= 0x0fff_ffff,
        ;
        if part.block_offset == 0 && part.block_length >= disk.block_size {
            let marked = InternalBlockMapping::new().with_state(
                original.state(),
            ).with_transitioning_to_fully_present(true).with_file_megabyte(new_mb);
            proof {
                law_mapping_parts(original.spec_state(), true, new_mb, original);
            }
            state.set_payload_mapping(&disk.bat, part.block_number, marked);
            self.tfp_records.push(
                TfpRecord {
                    block_number: part.block_number,
                    original_mapping: original,
                    allocated_offset: if fresh {
                        Some(space.file_offset)
                    } else {
                        None
                    },
                },
            );
            if !space.state.is_safe() {
                self.needs_flush_before_log = true;
            }
            self.ranges.push(make_data_range(part, space.file_offset));
            self.next = self.next + 1;
            self.phase = WritePhase::Idle;
            return WriteAction::Again;
        }
        self.space = Some(space);
        if disk.has_parent && original.state() == 0 {
            let chunk_number: u32 = part.block_number / disk.bat.chunk_ratio;
            proof {
                lemma_chunk_in_range(disk.bat, part.block_number);
            }
            if state.get_sbm_mapping(chunk_number).state() != 6 {
                self.phase = WritePhase::AwaitBitmapSpace;
                return WriteAction::AllocateBitmap {
                    chunk_number,
                    length: SECTOR_BITMAP_BLOCK_SIZE,
                };
            }
        }
        self.phase = WritePhase::AwaitPayloadPersist;
        self.commit_payload(disk, state)
    }

    /// Commits the mapping of the current block in memory.
    fn commit_payload(&self, disk: &VhdxFile, state: &mut BatState) -> (r: WriteAction)
        requires
            disk.wf(),
            state_of_disk(*disk, *old(state)),
            self.wf(*disk),
            self.in_partial_block(),
        ensures
            state_of_disk(*disk, *final(state)),
            final(state).sector_bitmap_mappings@ == old(state).sector_bitmap_mappings@,
            payload_step(
                *disk,
                self.part(),
                self.current->0,
                self.space->0.file_offset,
                old(state).payload_mappings@,
                final(state).payload_mappings@,
                r,
            ),
    {
        let part: Segment = self.pending[self.next];
        assert(part_of_disk(*disk, self.pending@[self.next as int]));
        let original: InternalBlockMapping = self.current.unwrap();
        let space: NewSpace = self.space.unwrap();
        let new_mb: u32 = (space.file_offset / MB1) as u32;
        let new_state = if disk.has_parent && original.state() == 0 {
            BatEntryState::PartiallyPresent
        } else {
            BatEntryState::FullyPresent
        };
        let mapping = InternalBlockMapping::new().with_state(
            new_state.to_raw(),
        ).with_transitioning_to_fully_present(false).with_file_megabyte(new_mb);
        proof {
            law_mapping_parts(new_state.raw(), false, new_mb, mapping);
        }
        state.set_payload_mapping(&disk.bat, part.block_number, mapping);
        WriteAction::Persist {
            block_type: BlockType::Payload,
            number: part.block_number,
            mapping,
        }
    }

    /// Puts the sector bitmap block of the current chunk into space.
    fn use_bitmap_space(&mut self, disk: &VhdxFile, state: &mut BatState, file_offset: u64) -> (r:
        WriteAction)
        requires
            disk.wf(),
            state_of_disk(*disk, *old(state)),
            old(self).wf(*disk),
            old(self).phase == WritePhase::AwaitBitmapSpace,
            file_offset / MB1 <= MAX_FILE_MEGABYTE,
        ensures
            state_of_disk(*disk, *final(state)),
            final(state).payload_mappings@ == old(state).payload_mappings@,
            final(self).wf(*disk),
            bitmap_space_step(
                *disk,
                *old(self),
                old(state).sector_bitmap_mappings@,
                file_offset,
                *final(self),
                final(state).sector_bitmap_mappings@,
                r,
            ),
    {
        let part: Segment = self.pending[self.next];
        assert(part_of_disk(*disk, self.pending@[self.next as int]));
        let chunk_number: u32 = part.block_number / disk.bat.chunk_ratio;
        proof {
            lemma_chunk_in_range(disk.bat, part.block_number);
        }
        let new_mb: u32 = (file_offset / MB1) as u32;
        let mapping = InternalBlockMapping::new().with_state(
            BatEntryState::FullyPresent.to_raw(),
        ).with_file_megabyte(new_mb);
        proof {
            law_mapping_parts(6, false, new_mb, mapping);
        }
        state.set_sbm_mapping(&disk.bat, chunk_number, mapping);
        self.phase = WritePhase::AwaitBitmapPersist;
        WriteAction::Persist {
            block_type: BlockType::SectorBitmap,
            number: chunk_number,
            mapping,
        }
    }

    /// Finishes a partial write of the current block.
    fn payload_persisted(&mut self, disk: &VhdxFile) -> (r: WriteAction)
        requires
            disk.wf(),
            old(self).wf(*disk),
            old(self).phase == WritePhase::AwaitPayloadPersist,
        ensures
            final(self).wf(*disk),
            partial_done_step(*disk, *old(self), *final(self), r),
    {
        let part: Segment = self.pending[self.next];
        assert(part_of_disk(*disk, self.pending@[self.next as int]));
        let original: InternalBlockMapping = self.current.unwrap();
        let space: NewSpace = self.space.unwrap();
        let stays_partial = disk.has_parent && original.state() == 0;
        assert(space.file_offset <= 0xffff_ffff_ffff) by (nonlinear_arith)
            requires
                space.file_offset / 0x10_0000 <= 0x0fff_ffff,
        ;
        let end_offset: u32 = part.block_offset + part.block_length;
        if !stays_partial && part.block_offset > 0 && !space.state.is_zero() {
            self.ranges.push(
                WriteRange::Zero { file_offset: space.file_offset, length: part.block_offset },
            );
        }
        self.ranges.push(make_data_range(part, space.file_offset));
        if !stays_partial && end_offset < disk.block_size && !space.state.is_zero() {
            self.ranges.push(
                WriteRange::Zero {
                    file_offset: space.file_offset + end_offset as u64,
                    length: disk.block_size - end_offset,
                },
            );
        }
        self.next = self.next + 1;
        self.phase = WritePhase::Idle;
        if space.state.is_safe() {
            WriteAction::Again
        } else {
            WriteAction::RequireFlush(disk.bat.bat_page_key_for_block(part.block_number))
        }
    }
}

/// A step of a write leaves alone the blocks that it has still to allocate.
/// So if nobody else touches the table, no other write is allocating them
/// then either.
pub proof fn law_write_step_keeps_later_blocks(
    disk: VhdxFile,
    before: WriteOp,
    state: BatState,
    event: WriteEvent,
    after: WriteOp,
    new_state: BatState,
    action: WriteAction,
)
    requires
        disk.wf(),
        state_of_disk(disk, state),
        before.wf(disk),
        before.expects(event),
        before.phase != WritePhase::Scanning,
        before.phase != WritePhase::AwaitLock,
        before.no_overlap(state),
        write_step(disk, before, state, event, after, new_state, action),
        after.wf(disk),
    ensures
        forall|k: int|
            before.next < k < after.pending@.len() ==> new_state.payload_mappings@[(
            #[trigger] after.pending@[k]).block_number as int]
                == state.payload_mappings@[after.pending@[k].block_number as int],
        after.no_overlap(new_state),
{
    let pending = before.pending@;
    assert(after.pending@ == pending);
    assert forall|k: int| after.next <= k < pending.len() implies !new_state.payload_mappings@[(
    #[trigger] pending[k]).block_number as int].tfp() by {
        assert(!state.payload_mappings@[pending[k].block_number as int].tfp());
        assert(part_of_disk(disk, pending[k]));
        if before.next < pending.len() {
            assert(part_of_disk(disk, pending[before.next as int]));
            if k > before.next {
                assert(pending[before.next as int].block_number < pending[k].block_number);
            } else if after.in_partial_block() {
                let mb = (after.space->0.file_offset / MB1) as u32;
                law_mapping_parts(7, false, mb, before.current->0);
                law_mapping_parts(6, false, mb, before.current->0);
            }
        }
    }
    assert forall|k: int| before.next < k < after.pending@.len() implies
        new_state.payload_mappings@[(#[trigger] after.pending@[k]).block_number as int]
        == state.payload_mappings@[after.pending@[k].block_number as int] by {
        assert(part_of_disk(disk, pending[k]));
        assert(part_of_disk(disk, pending[before.next as int]));
        assert(pending[before.next as int].block_number < pending[k].block_number);
    }
}

} // verus!
