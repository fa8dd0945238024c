//! Resolution of read and write requests into ranges of the file.
//!
//! A request on the virtual disk is split at block boundaries, and each part
//! is resolved by the state of its block. The caller carries out the file
//! operations and the waiting in between.

use vstd::arithmetic::div_mod::{
    lemma_div_is_ordered, lemma_fundamental_div_mod, lemma_fundamental_div_mod_converse,
};
use vstd::prelude::*;

use super::bat::{quotient_up, BatState};
use super::error::{CorruptionType, VhdxError};
use super::format::{BatEntryState, MB1};
use super::open::VhdxFile;
use super::refcount::BatGuard;
use super::segment::{lemma_segments, segment_count, segments_of, split_request, Segment};

verus! {

/// Where the data of a part of a read request is.
#[derive(Debug, Clone, Copy, PartialEq, Eq, Structural)]
pub enum ReadRange {
    /// In the file.
    Data {
        /// Byte offset within the virtual disk.
        guest_offset: u64,
        /// Length in bytes.
        length: u32,
        /// Byte offset within the file.
        file_offset: u64,
    },
    /// Nowhere: the range reads as zeros.
    Zero {
        /// Byte offset within the virtual disk.
        guest_offset: u64,
        /// Length in bytes.
        length: u32,
    },
    /// In the parent disk.
    Unmapped {
        /// Byte offset within the virtual disk.
        guest_offset: u64,
        /// Length in bytes.
        length: u32,
    },
}

/// What a part of a write request asks of the file.
#[derive(Debug, Clone, Copy, PartialEq, Eq, Structural)]
pub enum WriteRange {
    /// Write the data of the request.
    Data {
        /// Byte offset within the virtual disk.
        guest_offset: u64,
        /// Length in bytes.
        length: u32,
        /// Byte offset within the file.
        file_offset: u64,
    },
    /// Write zeros, to pad a block that was newly allocated.
    Zero {
        /// Byte offset within the file.
        file_offset: u64,
        /// Length in bytes.
        length: u32,
    },
}

/// How a part of a read request is served.
#[derive(Debug, Clone, Copy, PartialEq, Eq, Structural)]
pub enum ReadStep {
    /// From one range.
    Range(ReadRange),
    /// From the file or from the parent, sector by sector, as the sector
    /// bitmap says.
    PartialBlock {
        /// Byte offset of the block within the file.
        block_file_offset: u64,
        /// Byte offset within the virtual disk.
        guest_offset: u64,
        /// Length in bytes.
        length: u32,
    },
}

/// What has happened since the last step of a flush of the file.
#[derive(Debug, Clone, Copy, PartialEq, Eq, Structural)]
pub enum FlushEvent {
    /// The flush was asked for.
    Start,
    /// The changed pages are committed, up to this LSN.
    Committed(u64),
    /// Their log entry is written.
    Logged,
    /// Everything is flushed.
    Flushed,
}

/// What the caller does next for a flush of the file. Where the action fails,
/// the flush fails.
#[derive(Debug, Clone, Copy, PartialEq, Eq, Structural)]
pub enum FlushAction {
    /// Commit the changed pages.
    Commit,
    /// Wait until the log is written up to this LSN. Even if nothing was
    /// changed, that of another flush may be under way.
    WaitLogged(u64),
    /// Flush the file.
    Flush,
    /// The flush is done.
    Done,
}

/// Where a block is.
#[derive(Debug, Clone, Copy, PartialEq, Eq, Structural)]
pub struct BlockMapping {
    /// The state of the block.
    pub state: BatEntryState,
    /// Byte offset of the block within the file.
    pub file_offset: u64,
}

/// Every block of the state holds a known block state.
pub open spec fn states_known(state: BatState) -> bool {
    &&& forall|i: int|
        0 <= i < state.payload_mappings@.len() ==> BatEntryState::of_raw(
            (#[trigger] state.payload_mappings@[i]).spec_state(),
        ) is Some
    &&& forall|i: int|
        0 <= i < state.sector_bitmap_mappings@.len() ==> BatEntryState::of_raw(
            (#[trigger] state.sector_bitmap_mappings@[i]).spec_state(),
        ) is Some
}

/// The state is one of the disk, and every block of it holds a known state.
pub open spec fn state_of_disk(disk: VhdxFile, state: BatState) -> bool {
    &&& state.wf()
    &&& state.matches_bat(disk.bat)
    &&& states_known(state)
}

/// Whether a request is aligned to the logical sector size.
pub open spec fn aligned(disk: VhdxFile, offset: int, len: int) -> bool {
    offset % disk.logical_sector_size as int == 0 && len % disk.logical_sector_size as int == 0
}

/// How the part of a read request is served, by the state of its block.
pub open spec fn read_step(disk: VhdxFile, state: BatState, part: Segment) -> ReadStep {
    let mapping = state.payload_mappings@[part.block_number as int];
    let guest_offset = part.virtual_offset;
    let length = part.block_length;
    match BatEntryState::of_raw(mapping.spec_state()) {
        Some(BatEntryState::FullyPresent) => ReadStep::Range(
            ReadRange::Data {
                guest_offset,
                length,
                file_offset: (mapping.mb() * MB1 + part.block_offset) as u64,
            },
        ),
        Some(BatEntryState::PartiallyPresent) => ReadStep::PartialBlock {
            block_file_offset: (mapping.mb() * MB1) as u64,
            guest_offset,
            length,
        },
        Some(BatEntryState::NotPresent) => if disk.has_parent {
            ReadStep::Range(ReadRange::Unmapped { guest_offset, length })
        } else {
            ReadStep::Range(ReadRange::Zero { guest_offset, length })
        },
        _ => ReadStep::Range(ReadRange::Zero { guest_offset, length }),
    }
}

/// The part of the virtual disk that a step serves.
pub open spec fn step_guest_range(step: ReadStep) -> (u64, u32) {
    match step {
        ReadStep::Range(ReadRange::Data { guest_offset, length, .. }) => (guest_offset, length),
        ReadStep::Range(ReadRange::Zero { guest_offset, length }) => (guest_offset, length),
        ReadStep::Range(ReadRange::Unmapped { guest_offset, length }) => (guest_offset, length),
        ReadStep::PartialBlock { guest_offset, length, .. } => (guest_offset, length),
    }
}

/// The blocks that a request touches.
pub open spec fn request_guard(disk: VhdxFile, offset: int, len: int) -> BatGuard {
    let bs = disk.block_size as int;
    BatGuard {
        start_block: (offset / bs) as u32,
        block_count: segment_count(bs, offset, offset + len) as u32,
    }
}

/// A request within the disk touches only blocks of the disk.
pub(crate) proof fn lemma_request_in_disk(disk: VhdxFile, offset: u64, len: u32)
    requires
        disk.wf(),
        len > 0,
        offset + len <= disk.disk_size,
    ensures
        (offset + len - 1) / (disk.block_size as int) < disk.bat.data_block_count,
        0 <= offset as int / disk.block_size as int <= (offset + len - 1) / (disk.block_size as int),
{
    let bs = disk.block_size as int;
    let q = quotient_up(disk.disk_size as int, bs);
    lemma_fundamental_div_mod(disk.disk_size + bs - 1, bs);
    lemma_fundamental_div_mod(offset + len - 1, bs);
    let last = (offset + len - 1) / bs;
    assert(last < q) by (nonlinear_arith)
        requires
            disk.disk_size + bs - 1 == bs * q + (disk.disk_size + bs - 1) % bs,
            0 <= (disk.disk_size + bs - 1) % bs < bs,
            offset + len - 1 == bs * last + (offset + len - 1) % bs,
            0 <= (offset + len - 1) % bs,
            offset + len <= disk.disk_size,
            bs > 0,
    ;
    lemma_div_is_ordered(0, offset as int, bs);
    lemma_div_is_ordered(offset as int, offset + len - 1, bs);
    assert(0int / bs == 0) by (nonlinear_arith)
        requires
            bs > 0,
    ;
}

impl VhdxFile {
    /// Whether a request is aligned and lies within the disk.
    pub fn check_request(&self, offset: u64, len: u32) -> (r: Result<(), VhdxError>)
        requires
            self.wf(),
        ensures
            r == (if !aligned(*self, offset as int, len as int) {
                Err::<(), VhdxError>(VhdxError::Corrupt(CorruptionType::UnalignedIo))
            } else if offset + len > self.disk_size {
                Err::<(), VhdxError>(VhdxError::Corrupt(CorruptionType::ReadBeyondEndOfDisk))
            } else {
                Ok::<(), VhdxError>(())
            }),
    {
        let sector: u64 = self.logical_sector_size as u64;
        if offset % sector != 0 || len as u64 % sector != 0 {
            return Err(VhdxError::Corrupt(CorruptionType::UnalignedIo));
        }
        match offset.checked_add(len as u64) {
            Some(end) => {
                if end > self.disk_size {
                    return Err(VhdxError::Corrupt(CorruptionType::ReadBeyondEndOfDisk));
                }
            },
            None => {
                return Err(VhdxError::Corrupt(CorruptionType::ReadBeyondEndOfDisk));
            },
        }
        Ok(())
    }

    /// The blocks that a request within the disk touches: those whose
    /// refcounts it holds.
    pub fn request_blocks(&self, offset: u64, len: u32) -> (r: BatGuard)
        requires
            self.wf(),
            len > 0,
            offset + len <= self.disk_size,
        ensures
            r == request_guard(*self, offset as int, len as int),
            r.start_block + r.block_count <= self.bat.data_block_count,
    {
        proof {
            lemma_request_in_disk(*self, offset, len);
        }
        let start_block: u32 = self.bat.offset_to_block(offset);
        let end_block: u32 = self.bat.offset_to_block(offset + len as u64 - 1);
        BatGuard { start_block, block_count: end_block - start_block + 1 }
    }

    /// Looks up a payload block in the in-memory table.
    pub fn get_block_mapping(&self, state: &BatState, block_number: u32) -> (r: BlockMapping)
        requires
            state_of_disk(*self, *state),
            block_number < self.bat.data_block_count,
        ensures
            ({
                let mapping = state.payload_mappings@[block_number as int];
                &&& BatEntryState::of_raw(mapping.spec_state()) == Some(r.state)
                &&& r.file_offset == mapping.mb() * MB1
            }),
    {
        let mapping = state.get_payload_mapping(block_number);
        BlockMapping { state: mapping.bat_state(), file_offset: mapping.file_offset() }
    }

    /// Looks up the sector bitmap block of a chunk in the in-memory table.
    pub fn get_sector_bitmap_mapping(&self, state: &BatState, chunk_number: u32) -> (r:
        BlockMapping)
        requires
            state_of_disk(*self, *state),
            chunk_number < self.bat.sector_bitmap_block_count,
        ensures
            ({
                let mapping = state.sector_bitmap_mappings@[chunk_number as int];
                &&& BatEntryState::of_raw(mapping.spec_state()) == Some(r.state)
                &&& r.file_offset == mapping.mb() * MB1
            }),
    {
        let mapping = state.get_sbm_mapping(chunk_number);
        BlockMapping { state: mapping.bat_state(), file_offset: mapping.file_offset() }
    }

    /// Flushes the file, one step at a time: takes what happened since the
    /// last step, and returns what to do next. What was changed is committed,
    /// its log entry is written, and only then is everything flushed. A
    /// read-only file cannot be flushed.
    pub fn flush(&self, event: FlushEvent) -> (r: Result<FlushAction, VhdxError>)
        ensures
            r == (match event {
                FlushEvent::Start => if self.read_only {
                    Err::<FlushAction, VhdxError>(VhdxError::ReadOnly)
                } else {
                    Ok::<FlushAction, VhdxError>(FlushAction::Commit)
                },
                FlushEvent::Committed(lsn) => Ok::<FlushAction, VhdxError>(
                    FlushAction::WaitLogged(lsn),
                ),
                FlushEvent::Logged => Ok::<FlushAction, VhdxError>(FlushAction::Flush),
                FlushEvent::Flushed => Ok::<FlushAction, VhdxError>(FlushAction::Done),
            }),
    {
        match event {
            FlushEvent::Start => {
                if self.read_only {
                    return Err(VhdxError::ReadOnly);
                }
                Ok(FlushAction::Commit)
            },
            FlushEvent::Committed(lsn) => Ok(FlushAction::WaitLogged(lsn)),
            FlushEvent::Logged => Ok(FlushAction::Flush),
            FlushEvent::Flushed => Ok(FlushAction::Done),
        }
    }

    fn resolve_read_part(&self, state: &BatState, part: Segment) -> (r: ReadStep)
        requires
            self.wf(),
            state_of_disk(*self, *state),
            part.block_number < self.bat.data_block_count,
        ensures
            r == read_step(*self, *state, part),
    {
        let mapping = state.get_payload_mapping(part.block_number);
        let guest_offset: u64 = part.virtual_offset;
        let length: u32 = part.block_length;
        match mapping.bat_state() {
            BatEntryState::FullyPresent => ReadStep::Range(
                ReadRange::Data {
                    guest_offset,
                    length,
                    file_offset: mapping.file_offset() + part.block_offset as u64,
                },
            ),
            BatEntryState::PartiallyPresent => ReadStep::PartialBlock {
                block_file_offset: mapping.file_offset(),
                guest_offset,
                length,
            },
            BatEntryState::NotPresent => if self.has_parent {
                ReadStep::Range(ReadRange::Unmapped { guest_offset, length })
            } else {
                ReadStep::Range(ReadRange::Zero { guest_offset, length })
            },
            BatEntryState::Zero | BatEntryState::Unmapped | BatEntryState::Undefined => {
                ReadStep::Range(ReadRange::Zero { guest_offset, length })
            },
        }
    }

    /// Resolves a read request. Appends to `steps` how each part is served,
    /// and returns the blocks whose refcounts the read holds.
    pub fn resolve_read(
        &self,
        state: &BatState,
        offset: u64,
        len: u32,
        steps: &mut Vec<ReadStep>,
    ) -> (r: Result<BatGuard, VhdxError>)
        requires
            self.wf(),
            state_of_disk(*self, *state),
        ensures
            if len == 0 {
                &&& r == Ok::<BatGuard, VhdxError>(BatGuard { start_block: 0, block_count: 0 })
                &&& final(steps)@ == old(steps)@
            } else if !aligned(*self, offset as int, len as int) {
                &&& r == Err::<BatGuard, VhdxError>(VhdxError::Corrupt(CorruptionType::UnalignedIo))
                &&& final(steps)@ == old(steps)@
            } else if offset + len > self.disk_size {
                &&& r == Err::<BatGuard, VhdxError>(
                    VhdxError::Corrupt(CorruptionType::ReadBeyondEndOfDisk),
                )
                &&& final(steps)@ == old(steps)@
            } else {
                &&& r == Ok::<BatGuard, VhdxError>(
                    request_guard(*self, offset as int, len as int),
                )
                &&& final(steps)@ == old(steps)@ + segments_of(
                    self.block_size as int,
                    offset as int,
                    offset + len,
                ).map_values(|part: Segment| read_step(*self, *state, part))
            },
    {
        if len == 0 {
            return Ok(BatGuard::empty());
        }
        match self.check_request(offset, len) {
            Ok(()) => {},
            Err(e) => {
                return Err(e);
            },
        }
        proof {
            lemma_request_in_disk(*self, offset, len);
            lemma_segments(self.block_size, offset, len);
        }
        let parts = split_request(self.block_size, offset, len);
        let ghost before = steps@;
        let mut i: usize = 0;
        while i < parts.len()
            invariant
                self.wf(),
                state_of_disk(*self, *state),
                i <= parts@.len(),
                forall|k: int|
                    0 <= k < parts@.len() ==> (#[trigger] parts@[k]).block_number
                        < self.bat.data_block_count,
                steps@ == before + parts@.subrange(0, i as int).map_values(
                    |part: Segment| read_step(*self, *state, part),
                ),
            decreases parts@.len() - i,
        {
            let step = self.resolve_read_part(state, parts[i]);
            assert(parts@.subrange(0, i + 1) == parts@.subrange(0, i as int).push(parts@[i as int]));
            steps.push(step);
            i += 1;
        }
        assert(parts@.subrange(0, i as int) == parts@);
        Ok(self.request_blocks(offset, len))
    }
}

/// The steps of a read serve exactly the bytes of the request, each once and
/// in order.
pub proof fn law_read_serves_the_request(
    disk: VhdxFile,
    state: BatState,
    offset: u64,
    len: u32,
    k: int,
)
    requires
        disk.wf(),
        len > 0,
        offset + len <= disk.disk_size,
        0 <= k < segments_of(disk.block_size as int, offset as int, offset + len).len(),
    ensures
        ({
            let steps = segments_of(
                disk.block_size as int,
                offset as int,
                offset + len,
            ).map_values(|part: Segment| read_step(disk, state, part));
            let (start, length) = step_guest_range(steps[k]);
            &&& length > 0
            &&& step_guest_range(steps[0]).0 == offset
            &&& k + 1 < steps.len() ==> step_guest_range(steps[k + 1]).0 == start + length
            &&& k + 1 == steps.len() ==> start + length == offset + len
        }),
{
    lemma_request_in_disk(disk, offset, len);
    super::segment::law_segments_tile_the_request(disk.block_size, offset, len, k);
}

/// The requests that are aligned are those that start and end at sectors.
pub proof fn law_aligned_request_is_whole_sectors(disk: VhdxFile, first: int, count: int, rest: int)
    requires
        disk.logical_sector_size > 0,
        0 <= rest < disk.logical_sector_size,
    ensures
        ({
            let size = disk.logical_sector_size as int;
            &&& aligned(disk, first * size, count * size)
            &&& aligned(disk, first * size + rest, count * size) <==> rest == 0
            &&& aligned(disk, first * size, count * size + rest) <==> rest == 0
        }),
{
    let size = disk.logical_sector_size as int;
    lemma_fundamental_div_mod_converse(first * size, size, first, 0);
    lemma_fundamental_div_mod_converse(count * size, size, count, 0);
    lemma_fundamental_div_mod_converse(first * size + rest, size, first, rest);
    lemma_fundamental_div_mod_converse(count * size + rest, size, count, rest);
}

/// What is told of a block is its state and its place in the file.
pub proof fn law_block_is_told_as_it_is(
    disk: VhdxFile,
    state: BatState,
    block_number: u32,
    r: BlockMapping,
)
    requires
        state_of_disk(disk, state),
        block_number < disk.bat.data_block_count,
        call_ensures(VhdxFile::get_block_mapping, (&disk, &state, block_number), r),
    ensures
        ({
            let raw = state.payload_mappings@[block_number as int].raw;
            &&& r.file_offset == 0x10_0000 * (raw as int / 16)
            &&& raw % 8 == (match r.state {
                BatEntryState::NotPresent => 0u32,
                BatEntryState::Undefined => 1,
                BatEntryState::Zero => 2,
                BatEntryState::Unmapped => 3,
                BatEntryState::FullyPresent => 6,
                BatEntryState::PartiallyPresent => 7,
            })
        }),
{
}

/// What is told of a sector bitmap block is its state and its place in the
/// file.
pub proof fn law_bitmap_block_is_told_as_it_is(
    disk: VhdxFile,
    state: BatState,
    chunk_number: u32,
    r: BlockMapping,
)
    requires
        state_of_disk(disk, state),
        chunk_number < disk.bat.sector_bitmap_block_count,
        call_ensures(VhdxFile::get_sector_bitmap_mapping, (&disk, &state, chunk_number), r),
    ensures
        ({
            let raw = state.sector_bitmap_mappings@[chunk_number as int].raw;
            &&& r.file_offset == 0x10_0000 * (raw as int / 16)
            &&& raw % 8 == (match r.state {
                BatEntryState::NotPresent => 0u32,
                BatEntryState::Undefined => 1,
                BatEntryState::Zero => 2,
                BatEntryState::Unmapped => 3,
                BatEntryState::FullyPresent => 6,
                BatEntryState::PartiallyPresent => 7,
            })
        }),
{
}

} // verus!
