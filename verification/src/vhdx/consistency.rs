//! What a read gives back of a write.
//!
//! While a write is resolved and settled, the table leads to the space that
//! its data goes to. So a read after it finds the data there.

use vstd::arithmetic::div_mod::lemma_fundamental_div_mod_converse;
use vstd::prelude::*;
use vstd::seq_lib::lemma_multiset_commutative;

use super::bat::{law_mapping_parts, BatState, InternalBlockMapping, MAX_FILE_MEGABYTE};
use super::complete::{
    all_carried, completion_step, lemma_all_carried_concat, law_allocated_part_is_written_once, law_settled_block_keeps_its_space,
    law_scan_loses_no_part, part_bytes, CompletionAction, CompletionEvent, WriteCompletion,
};
use super::format::MB1;
use super::io::{lemma_request_in_disk, read_step, state_of_disk, ReadRange, ReadStep, WriteRange};
use super::open::VhdxFile;
use super::segment::{law_segments_tile_the_request, segments_of, Segment};
use super::write::{
    committed_mapping, covers_block, data_range, first_wait, lemma_scan_pending, part_of_disk, partial_ranges,
    parts_ascend, scan_part, scan_pending, scan_ranges, write_step, NewSpace, PartPlan, WriteAction, WriteEvent,
    WriteOp, WritePhase,
};

verus! {

/// A part of the disk starts where its block and its offset in the block say.
pub open spec fn positioned(disk: VhdxFile, part: Segment) -> bool {
    &&& part_of_disk(disk, part)
    &&& part.virtual_offset == part.block_number * disk.block_size + part.block_offset
}

/// The block whose bytes the range carries.
pub open spec fn range_block(disk: VhdxFile, range: WriteRange) -> int {
    match range {
        WriteRange::Data { guest_offset, .. } => guest_offset as int / disk.block_size as int,
        WriteRange::Zero { .. } => -1,
    }
}

/// The table leads from the bytes that the range carries to where the range
/// writes them.
pub open spec fn placed(
    disk: VhdxFile,
    mappings: Seq<InternalBlockMapping>,
    range: WriteRange,
) -> bool {
    match range {
        WriteRange::Data { guest_offset, length, file_offset } => {
            let block = guest_offset as int / disk.block_size as int;
            let within = guest_offset as int % disk.block_size as int;
            &&& 0 <= block < mappings.len()
            &&& within + length <= disk.block_size
            &&& file_offset == mappings[block].mb() * MB1 + within
            &&& mappings[block].tfp() || mappings[block].allocated()
        },
        WriteRange::Zero { .. } => true,
    }
}

/// The table leads to everything that the write has resolved, and the blocks
/// that it has still to take up are others.
pub open spec fn data_placed(
    disk: VhdxFile,
    op: WriteOp,
    mappings: Seq<InternalBlockMapping>,
) -> bool {
    &&& forall|k: int| 0 <= k < op.parts@.len() ==> positioned(disk, #[trigger] op.parts@[k])
    &&& forall|k: int| 0 <= k < op.pending@.len() ==> positioned(disk, #[trigger] op.pending@[k])
    &&& forall|i: int| 0 <= i < op.ranges@.len() ==> placed(disk, mappings, #[trigger] op.ranges@[i])
    &&& forall|i: int, k: int|
        0 <= i < op.ranges@.len() && op.next <= k < op.pending@.len() ==> range_block(
            disk,
            #[trigger] op.ranges@[i],
        ) != (#[trigger] op.pending@[k]).block_number
    &&& forall|i: int, j: int|
        0 <= i < op.ranges@.len() && op.scanned <= j < op.parts@.len() ==> range_block(
            disk,
            #[trigger] op.ranges@[i],
        ) != (#[trigger] op.parts@[j]).block_number
    &&& op.in_partial_block() ==> op.space->0.file_offset % MB1 == 0
    &&& op.phase == WritePhase::AwaitPayloadPersist ==> mappings[op.part().block_number as int]
        == committed_mapping(disk, op.current->0, op.space->0.file_offset)
}

/// The event hands over space that starts at a whole megabyte.
pub open spec fn space_aligned(event: WriteEvent) -> bool {
    match event {
        WriteEvent::Space { file_offset, .. } => file_offset % MB1 == 0,
        _ => true,
    }
}

/// The bytes of the request that are written by the ranges so far, and those
/// that are still to come.
pub open spec fn owed(op: WriteOp) -> Seq<(u64, u32)> {
    all_carried(op.ranges@) + op.pending@.subrange(
        op.next as int,
        op.pending@.len() as int,
    ).map_values(|part: Segment| part_bytes(part)) + op.parts@.subrange(
        op.scanned as int,
        op.parts@.len() as int,
    ).map_values(|part: Segment| part_bytes(part))
}

pub(crate) proof fn lemma_position(disk: VhdxFile, part: Segment)
    requires
        disk.wf(),
        positioned(disk, part),
    ensures
        part.virtual_offset as int / disk.block_size as int == part.block_number,
        part.virtual_offset as int % disk.block_size as int == part.block_offset,
{
    let bs = disk.block_size as int;
    assert(part.block_number * bs == bs * part.block_number) by (nonlinear_arith);
    lemma_fundamental_div_mod_converse(
        part.virtual_offset as int,
        bs,
        part.block_number as int,
        part.block_offset as int,
    );
}

/// Data that goes to the space of its block is placed.
proof fn lemma_part_is_placed(
    disk: VhdxFile,
    mappings: Seq<InternalBlockMapping>,
    part: Segment,
    base: int,
)
    requires
        disk.wf(),
        positioned(disk, part),
        mappings.len() == disk.bat.data_block_count,
        base == mappings[part.block_number as int].mb() * MB1,
        mappings[part.block_number as int].tfp()
            || mappings[part.block_number as int].allocated(),
    ensures
        placed(disk, mappings, data_range(part, base)),
        range_block(disk, data_range(part, base)) == part.block_number,
{
    lemma_position(disk, part);
    let mb = mappings[part.block_number as int].mb();
    assert(mb * 0x10_0000 <= 0xffff_fff0_0000) by (nonlinear_arith)
        requires
            mb <= 0x0fff_ffff,
    ;
}

pub(crate) proof fn lemma_whole_megabytes(file_offset: u64)
    requires
        file_offset % MB1 == 0,
        file_offset / MB1 <= MAX_FILE_MEGABYTE,
    ensures
        (file_offset / MB1) as u32 * MB1 == file_offset,
{
    assert(file_offset / 0x10_0000 * 0x10_0000 == file_offset) by (nonlinear_arith)
        requires
            file_offset % 0x10_0000 == 0,
    ;
}

/// Whether one of the parts is of the block.
spec fn touches(parts: Seq<Segment>, block: int) -> bool {
    exists|m: int| 0 <= m < parts.len() && (#[trigger] parts[m]).block_number == block
}

/// What a scan writes directly is placed, and of other blocks than what it
/// leaves.
proof fn lemma_scan_places(disk: VhdxFile, state: BatState, parts: Seq<Segment>)
    requires
        disk.wf(),
        state_of_disk(disk, state),
        parts_ascend(disk, parts),
        forall|k: int| 0 <= k < parts.len() ==> positioned(disk, #[trigger] parts[k]),
    ensures
        ({
            let ranges = scan_ranges(disk, state, parts);
            let pending = scan_pending(disk, state, parts);
            &&& forall|i: int|
                0 <= i < ranges.len() ==> placed(
                    disk,
                    state.payload_mappings@,
                    #[trigger] ranges[i],
                ) && touches(parts, range_block(disk, ranges[i]))
            &&& forall|k: int| 0 <= k < pending.len() ==> positioned(disk, #[trigger] pending[k])
            &&& forall|i: int, k: int|
                0 <= i < ranges.len() && 0 <= k < pending.len() ==> range_block(
                    disk,
                    #[trigger] ranges[i],
                ) != (#[trigger] pending[k]).block_number
        }),
    decreases parts.len(),
{
    if parts.len() > 0 {
        let rest = parts.drop_last();
        let last = parts.last();
        let mappings = state.payload_mappings@;
        assert(parts_ascend(disk, rest)) by {
            assert forall|k: int| 0 <= k < rest.len() implies part_of_disk(
                disk,
                #[trigger] rest[k],
            ) by {
                assert(part_of_disk(disk, parts[k]));
            }
            assert forall|i: int, j: int| 0 <= i < j < rest.len() implies (
            #[trigger] rest[i]).block_number < (#[trigger] rest[j]).block_number by {
                assert(parts[i].block_number < parts[j].block_number);
            }
        }
        assert forall|k: int| 0 <= k < rest.len() implies positioned(disk, #[trigger] rest[k]) by {
            assert(positioned(disk, parts[k]));
        }
        lemma_scan_places(disk, state, rest);
        lemma_scan_pending(disk, state, rest);
        let old_ranges = scan_ranges(disk, state, rest);
        let old_pending = scan_pending(disk, state, rest);
        let ranges = scan_ranges(disk, state, parts);
        let pending = scan_pending(disk, state, parts);
        assert(positioned(disk, parts[parts.len() - 1]));
        assert forall|b: int| touches(rest, b) implies touches(parts, b) && b
            < last.block_number by {
            let m = choose|m: int| 0 <= m < rest.len() && (#[trigger] rest[m]).block_number == b;
            assert(parts[m].block_number == b);
            assert(parts[m].block_number < parts[parts.len() - 1].block_number);
        }
        assert forall|k: int| 0 <= k < old_pending.len() implies (
        #[trigger] old_pending[k]).block_number < last.block_number by {
            let m = choose|m: int| 0 <= m < rest.len() && rest[m] == old_pending[k];
            assert(parts[m].block_number < parts[parts.len() - 1].block_number);
        }
        match scan_part(disk, state, last) {
            PartPlan::Direct(range) => {
                lemma_part_is_placed(
                    disk,
                    mappings,
                    last,
                    mappings[last.block_number as int].mb() * MB1,
                );
                assert(ranges == old_ranges.push(range));
                assert(parts[parts.len() - 1].block_number == range_block(disk, range));
                assert(touches(parts, range_block(disk, range)));
            },
            PartPlan::Allocate => {
                assert(pending == old_pending.push(last));
            },
            PartPlan::Wait => {},
        }
    }
}

proof fn lemma_first_wait(
    disk: VhdxFile,
    state: BatState,
    parts: Seq<Segment>,
    from: int,
    k: int,
)
    requires
        0 <= from <= k < first_wait(disk, state, parts, from),
        from <= parts.len(),
    ensures
        scan_part(disk, state, parts[k]) != PartPlan::Wait,
        first_wait(disk, state, parts, from) <= parts.len(),
    decreases parts.len() - from,
{
    if from < k {
        lemma_first_wait(disk, state, parts, from + 1, k);
    } else if from + 1 < first_wait(disk, state, parts, from + 1) {
        lemma_first_wait(disk, state, parts, from + 1, from + 1);
    }
}

/// The data of a range stays placed where no mapping but that of another
/// block changes.
proof fn lemma_other_block_changes(
    disk: VhdxFile,
    mappings: Seq<InternalBlockMapping>,
    ranges: Seq<WriteRange>,
    block: int,
    new: InternalBlockMapping,
)
    requires
        forall|i: int| 0 <= i < ranges.len() ==> placed(disk, mappings, #[trigger] ranges[i]),
        forall|i: int|
            0 <= i < ranges.len() ==> range_block(disk, #[trigger] ranges[i]) != block,
        0 <= block < mappings.len(),
    ensures
        forall|i: int|
            0 <= i < ranges.len() ==> placed(
                disk,
                mappings.update(block, new),
                #[trigger] ranges[i],
            ),
{
    assert forall|i: int| 0 <= i < ranges.len() implies placed(
        disk,
        mappings.update(block, new),
        #[trigger] ranges[i],
    ) by {
        assert(placed(disk, mappings, ranges[i]));
    }
}

/// The current part is done: its data is placed, and so is all before it.
proof fn lemma_part_done_is_placed(
    disk: VhdxFile,
    before: WriteOp,
    mappings: Seq<InternalBlockMapping>,
    after: WriteOp,
    new_mappings: Seq<InternalBlockMapping>,
    added: Seq<WriteRange>,
)
    requires
        before.wf(disk),
        data_placed(disk, before, mappings),
        before.next < before.pending@.len(),
        before.phase != WritePhase::Scanning,
        before.part_done(added, after),
        forall|i: int|
            0 <= i < before.ranges@.len() ==> placed(
                disk,
                new_mappings,
                #[trigger] before.ranges@[i],
            ),
        forall|i: int|
            0 <= i < added.len() ==> {
                &&& placed(disk, new_mappings, #[trigger] added[i])
                &&& range_block(disk, added[i]) == before.part().block_number || range_block(
                    disk,
                    added[i],
                ) == -1
            },
    ensures
        data_placed(disk, after, new_mappings),
{
    let ranges = after.ranges@;
    let n = before.ranges@.len() as int;
    assert forall|i: int| 0 <= i < ranges.len() implies placed(
        disk,
        new_mappings,
        #[trigger] ranges[i],
    ) by {
        if i < n {
            assert(ranges[i] == before.ranges@[i]);
        } else {
            assert(ranges[i] == added[i - n]);
        }
    }
    assert forall|i: int, k: int|
        0 <= i < ranges.len() && after.next <= k < after.pending@.len() implies range_block(
        disk,
        #[trigger] ranges[i],
    ) != (#[trigger] after.pending@[k]).block_number by {
        assert(after.pending@[k] == before.pending@[k]);
        if i < n {
            assert(ranges[i] == before.ranges@[i]);
        } else {
            assert(ranges[i] == added[i - n]);
            assert(before.pending@[before.next as int].block_number
                < before.pending@[k].block_number);
        }
    }
}

/// The ranges of a partial write are placed once its mapping is committed.
proof fn lemma_partial_ranges_are_placed(
    disk: VhdxFile,
    mappings: Seq<InternalBlockMapping>,
    part: Segment,
    original: InternalBlockMapping,
    space: NewSpace,
)
    requires
        disk.wf(),
        positioned(disk, part),
        mappings.len() == disk.bat.data_block_count,
        space.file_offset % MB1 == 0,
        space.file_offset / MB1 <= MAX_FILE_MEGABYTE,
        mappings[part.block_number as int] == committed_mapping(disk, original, space.file_offset),
    ensures
        ({
            let ranges = partial_ranges(disk, part, original, space);
            forall|i: int|
                0 <= i < ranges.len() ==> {
                    &&& placed(disk, mappings, #[trigger] ranges[i])
                    &&& range_block(disk, ranges[i]) == part.block_number || range_block(
                        disk,
                        ranges[i],
                    ) == -1
                }
        }),
{
    let mb = (space.file_offset / MB1) as u32;
    lemma_whole_megabytes(space.file_offset);
    law_mapping_parts(6, false, mb, original);
    law_mapping_parts(7, false, mb, original);
    lemma_part_is_placed(disk, mappings, part, space.file_offset as int);
    let ranges = partial_ranges(disk, part, original, space);
    assert forall|i: int| 0 <= i < ranges.len() implies {
        &&& placed(disk, mappings, #[trigger] ranges[i])
        &&& range_block(disk, ranges[i]) == part.block_number || range_block(disk, ranges[i])
            == -1
    } by {
        assert(ranges[i] == data_range(part, space.file_offset as int) || ranges[i] is Zero);
    }
}

/// A write that was just accepted has nothing to place yet.
pub proof fn law_new_write_is_placed(
    disk: VhdxFile,
    op: WriteOp,
    mappings: Seq<InternalBlockMapping>,
)
    requires
        disk.wf(),
        op.len > 0,
        op.offset + op.len <= disk.disk_size,
        op.parts@ == segments_of(disk.block_size as int, op.offset as int, op.offset + op.len),
        op.phase == WritePhase::Scanning,
        op.scanned == 0,
        op.ranges@.len() == 0,
        op.pending@.len() == 0,
        op.next == 0,
    ensures
        data_placed(disk, op, mappings),
        owed(op) == op.parts@.map_values(|part: Segment| part_bytes(part)),
{
    lemma_request_in_disk(disk, op.offset, op.len);
    assert forall|k: int| 0 <= k < op.parts@.len() implies positioned(
        disk,
        #[trigger] op.parts@[k],
    ) by {
        law_segments_tile_the_request(disk.block_size, op.offset, op.len, k);
        super::segment::lemma_segments(disk.block_size, op.offset, op.len);
        assert(op.parts@[k].block_number < disk.bat.data_block_count);
    }
    assert(owed(op) =~= op.parts@.map_values(|part: Segment| part_bytes(part)));
}

/// Each step of a write keeps its data placed: the table leads from the bytes
/// that the ranges carry to where they are written.
#[verifier::rlimit(30)]
pub proof fn law_write_step_places_its_data(
    disk: VhdxFile,
    before: WriteOp,
    state: BatState,
    event: WriteEvent,
    after: WriteOp,
    new_state: BatState,
    action: WriteAction,
)
    requires
        disk.wf(),
        state_of_disk(disk, state),
        before.wf(disk),
        before.expects(event),
        space_aligned(event),
        data_placed(disk, before, state.payload_mappings@),
        write_step(disk, before, state, event, after, new_state, action),
        after.wf(disk),
    ensures
        data_placed(disk, after, new_state.payload_mappings@),
{
    let mappings = state.payload_mappings@;
    let new_mappings = new_state.payload_mappings@;
    if before.phase == WritePhase::Scanning {
        lemma_scan_step_places(disk, before, state, after, new_state, action);
    } else if event is Locked || (event is Continue && before.next == before.pending@.len()) || event
        == WriteEvent::Reclaimed(false) || event is BitmapSpace {
        assert(data_placed(disk, after, new_mappings));
    } else {
        let part = before.part();
        let block = part.block_number as int;
        let mapping = mappings[block];
        assert(positioned(disk, before.pending@[before.next as int]));
        assert forall|i: int| 0 <= i < before.ranges@.len() implies range_block(
            disk,
            #[trigger] before.ranges@[i],
        ) != block by {
            assert(before.pending@[before.next as int].block_number == block);
        }
        lemma_other_block_changes(disk, mappings, before.ranges@, block, new_mappings[block]);
        match event {
            WriteEvent::Continue => {
                law_mapping_parts(7, true, mapping.mb(), mapping);
                if mapping.spec_state() == 6 || mapping.spec_state() == 7 {
                    assert(new_mappings =~= mappings.update(block, new_mappings[block]));
                    lemma_part_is_placed(disk, new_mappings, part, mapping.mb() * MB1);
                    lemma_part_done_is_placed(
                        disk,
                        before,
                        mappings,
                        after,
                        new_mappings,
                        seq![data_range(part, mapping.mb() * MB1)],
                    );
                }
            },
            WriteEvent::Persisted => {
                if before.phase == WritePhase::AwaitBitmapPersist {
                    assert(new_mappings =~= mappings.update(block, new_mappings[block]));
                } else {
                    lemma_partial_ranges_are_placed(
                        disk,
                        new_mappings,
                        part,
                        before.current->0,
                        before.space->0,
                    );
                    lemma_part_done_is_placed(
                        disk,
                        before,
                        mappings,
                        after,
                        new_mappings,
                        partial_ranges(disk, part, before.current->0, before.space->0),
                    );
                }
            },
            _ => {
                let file_offset = match event {
                    WriteEvent::Space { file_offset, .. } => file_offset,
                    _ => (before.current->0.mb() * MB1) as u64,
                };
                let mb = (file_offset / MB1) as u32;
                law_mapping_parts(before.current->0.spec_state(), true, mb, mapping);
                assert(new_mappings =~= mappings.update(block, new_mappings[block]));
                assert(file_offset % MB1 == 0 && file_offset / MB1 <= MAX_FILE_MEGABYTE);
                lemma_whole_megabytes(file_offset);
                if covers_block(disk, part) {
                    lemma_part_is_placed(disk, new_mappings, part, file_offset as int);
                    lemma_part_done_is_placed(
                        disk,
                        before,
                        mappings,
                        after,
                        new_mappings,
                        seq![data_range(part, file_offset as int)],
                    );
                }
            },
        }
    }
}

/// While the write waits for space for a block, the block has none.
pub open spec fn block_awaits_space(op: WriteOp, mappings: Seq<InternalBlockMapping>) -> bool {
    op.in_block() && op.phase != WritePhase::AwaitPayloadPersist
        ==> !mappings[op.part().block_number as int].allocated()
}

/// A step of a write never takes the space of a block that has some, nor
/// gives it other space: what earlier writes put there stays where it is.
pub proof fn law_write_step_keeps_the_space_of_blocks(
    disk: VhdxFile,
    before: WriteOp,
    state: BatState,
    event: WriteEvent,
    after: WriteOp,
    new_state: BatState,
    action: WriteAction,
    block: int,
)
    requires
        disk.wf(),
        state_of_disk(disk, state),
        before.wf(disk),
        before.expects(event),
        block_awaits_space(before, state.payload_mappings@),
        write_step(disk, before, state, event, after, new_state, action),
        0 <= block < state.payload_mappings@.len(),
    ensures
        block_awaits_space(after, new_state.payload_mappings@),
        state.payload_mappings@[block].allocated() ==> {
            &&& new_state.payload_mappings@[block].allocated()
            &&& new_state.payload_mappings@[block].mb() == state.payload_mappings@[block].mb()
        },
{
    let mapping = state.payload_mappings@[block];
    law_mapping_parts(7, true, mapping.mb(), mapping);
    if before.in_block() {
        assert(part_of_disk(disk, before.pending@[before.next as int]));
    }
}

proof fn lemma_scan_step_places(
    disk: VhdxFile,
    before: WriteOp,
    state: BatState,
    after: WriteOp,
    new_state: BatState,
    action: WriteAction,
)
    requires
        disk.wf(),
        state_of_disk(disk, state),
        before.wf(disk),
        before.phase == WritePhase::Scanning,
        data_placed(disk, before, state.payload_mappings@),
        write_step(disk, before, state, WriteEvent::Continue, after, new_state, action),
        after.wf(disk),
    ensures
        data_placed(disk, after, new_state.payload_mappings@),
{
    let mappings = state.payload_mappings@;
    let parts = before.parts@;
    let from = before.scanned as int;
    let stop = after.scanned as int;
    let found = parts.subrange(from, stop);
    let n = before.ranges@.len() as int;
    let p = before.pending@.len() as int;
    assert(parts_ascend(disk, found)) by {
        assert forall|k: int| 0 <= k < found.len() implies part_of_disk(
            disk,
            #[trigger] found[k],
        ) by {
            assert(part_of_disk(disk, parts[from + k]));
        }
        assert forall|i: int, j: int| 0 <= i < j < found.len() implies (
        #[trigger] found[i]).block_number < (#[trigger] found[j]).block_number by {
            assert(parts[from + i].block_number < parts[from + j].block_number);
        }
    }
    assert forall|k: int| 0 <= k < found.len() implies positioned(disk, #[trigger] found[k]) by {
        assert(positioned(disk, parts[from + k]));
    }
    lemma_scan_places(disk, state, found);
    lemma_scan_pending(disk, state, found);
    let added = scan_ranges(disk, state, found);
    let left = scan_pending(disk, state, found);
    let ranges = after.ranges@;
    let pending = after.pending@;
    // The block of a new range is that of a part of this scan.
    assert forall|i: int| n <= i < ranges.len() implies exists|m: int|
        from <= m < stop && (#[trigger] parts[m]).block_number == range_block(
            disk,
            #[trigger] ranges[i],
        ) by {
        assert(ranges[i] == added[i - n]);
        assert(touches(found, range_block(disk, added[i - n])));
        let m = choose|m: int|
            0 <= m < found.len() && (#[trigger] found[m]).block_number == range_block(
                disk,
                added[i - n],
            );
        assert(parts[from + m].block_number == range_block(disk, ranges[i]));
    }
    assert forall|i: int| 0 <= i < ranges.len() implies placed(
        disk,
        mappings,
        #[trigger] ranges[i],
    ) by {
        if i < n {
            assert(ranges[i] == before.ranges@[i]);
        } else {
            assert(ranges[i] == added[i - n]);
        }
    }
    assert forall|k: int| 0 <= k < pending.len() implies positioned(
        disk,
        #[trigger] pending[k],
    ) by {
        if k < p {
            assert(pending[k] == before.pending@[k]);
        } else {
            assert(pending[k] == left[k - p]);
        }
    }
    assert forall|i: int, k: int|
        0 <= i < ranges.len() && after.next <= k < pending.len() implies range_block(
        disk,
        #[trigger] ranges[i],
    ) != (#[trigger] pending[k]).block_number by {
        if k < p {
            assert(pending[k] == before.pending@[k]);
            if i < n {
                assert(ranges[i] == before.ranges@[i]);
            } else {
                let m = choose|m: int|
                    from <= m < stop && (#[trigger] parts[m]).block_number == range_block(
                        disk,
                        ranges[i],
                    );
                assert(before.pending@[k].block_number < parts[m].block_number);
            }
        } else {
            assert(pending[k] == left[k - p]);
            if i < n {
                assert(ranges[i] == before.ranges@[i]);
                let m = choose|m: int| 0 <= m < found.len() && found[m] == left[k - p];
                assert(parts[from + m] == pending[k]);
            } else {
                assert(ranges[i] == added[i - n]);
            }
        }
    }
    assert forall|i: int, j: int|
        0 <= i < ranges.len() && stop <= j < parts.len() implies range_block(
        disk,
        #[trigger] ranges[i],
    ) != (#[trigger] parts[j]).block_number by {
        if i < n {
            assert(ranges[i] == before.ranges@[i]);
        } else {
            let m = choose|m: int|
                from <= m < stop && (#[trigger] parts[m]).block_number == range_block(
                    disk,
                    ranges[i],
                );
            assert(parts[m].block_number < parts[j].block_number);
        }
    }
}

/// Each step of a write loses no byte of the request and takes none twice:
/// what its ranges carry and what is still to come are together the same.
pub proof fn law_write_step_loses_no_part(
    disk: VhdxFile,
    before: WriteOp,
    state: BatState,
    event: WriteEvent,
    after: WriteOp,
    new_state: BatState,
    action: WriteAction,
)
    requires
        disk.wf(),
        state_of_disk(disk, state),
        before.wf(disk),
        before.expects(event),
        write_step(disk, before, state, event, after, new_state, action),
        after.wf(disk),
    ensures
        owed(after).to_multiset() == owed(before).to_multiset(),
{
    let bytes = |part: Segment| part_bytes(part);
    let next = before.next as int;
    let pending = before.pending@;
    if before.phase == WritePhase::Scanning {
        lemma_scan_step_loses_no_part(disk, before, state, after, new_state, action);
    } else if after.next == before.next {
        assert(owed(after) =~= owed(before));
    } else {
        let part = before.part();
        let rest = pending.subrange(next, pending.len() as int);
        let rest_after = pending.subrange(next + 1, pending.len() as int);
        assert(rest.map_values(bytes) =~= seq![part_bytes(part)] + rest_after.map_values(bytes));
        let mapping = state.payload_mappings@[part.block_number as int];
        let here = NewSpace {
            file_offset: (mapping.mb() * MB1) as u64,
            state: super::write::SpaceState::Zero,
        };
        assert(mapping.mb() * 0x10_0000 <= 0xffff_fff0_0000) by (nonlinear_arith)
            requires
                mapping.mb() <= 0x0fff_ffff,
        ;
        let reclaimed = NewSpace {
            file_offset: (before.current->0.mb() * MB1) as u64,
            state: super::write::SpaceState::OwnStale,
        };
        law_allocated_part_is_written_once(disk, part, mapping, here, before.ranges@);
        law_allocated_part_is_written_once(disk, part, mapping, reclaimed, before.ranges@);
        match event {
            WriteEvent::Space { file_offset, state: space_state } => {
                law_allocated_part_is_written_once(
                    disk,
                    part,
                    mapping,
                    NewSpace { file_offset, state: space_state },
                    before.ranges@,
                );
            },
            WriteEvent::Persisted => {
                law_allocated_part_is_written_once(
                    disk,
                    part,
                    before.current->0,
                    before.space->0,
                    before.ranges@,
                );
            },
            _ => {},
        }
        assert(all_carried(after.ranges@) =~= all_carried(before.ranges@).push(part_bytes(part)));
        assert(owed(after) =~= owed(before));
    }
}

proof fn lemma_scan_step_loses_no_part(
    disk: VhdxFile,
    before: WriteOp,
    state: BatState,
    after: WriteOp,
    new_state: BatState,
    action: WriteAction,
)
    requires
        before.wf(disk),
        before.phase == WritePhase::Scanning,
        write_step(disk, before, state, WriteEvent::Continue, after, new_state, action),
    ensures
        owed(after).to_multiset() == owed(before).to_multiset(),
{
    let bytes = |part: Segment| part_bytes(part);
    let parts = before.parts@;
    let from = before.scanned as int;
    let stop = after.scanned as int;
    let end = parts.len() as int;
    let found = parts.subrange(from, stop);
    let ranges = scan_ranges(disk, state, found);
    let left = scan_pending(disk, state, found);
    assert forall|k: int| 0 <= k < found.len() implies scan_part(
        disk,
        state,
        #[trigger] found[k],
    ) != PartPlan::Wait by {
        lemma_first_wait(disk, state, parts, from, from + k);
    }
    law_scan_loses_no_part(disk, state, found);
    lemma_all_carried_concat(before.ranges@, ranges);
    let a = all_carried(before.ranges@);
    let b = before.pending@.map_values(bytes);
    let c = all_carried(ranges);
    let d = left.map_values(bytes);
    let f = found.map_values(bytes);
    let rest = parts.subrange(stop, end).map_values(bytes);
    assert(before.pending@.subrange(0, before.pending@.len() as int) =~= before.pending@);
    assert(after.pending@.subrange(0, after.pending@.len() as int) =~= after.pending@);
    assert(after.pending@.map_values(bytes) =~= b + d);
    assert(parts.subrange(from, end).map_values(bytes) =~= f + rest);
    assert(owed(before) =~= a + b + (f + rest));
    assert(owed(after) =~= (a + c) + (b + d) + rest);
    lemma_multiset_commutative(a + b, f + rest);
    lemma_multiset_commutative(a, b);
    lemma_multiset_commutative(f, rest);
    lemma_multiset_commutative((a + c) + (b + d), rest);
    lemma_multiset_commutative(a + c, b + d);
    lemma_multiset_commutative(a, c);
    lemma_multiset_commutative(b, d);
    lemma_multiset_commutative(c, d);
    assert(owed(after).to_multiset() =~= owed(before).to_multiset());
}

/// A write that is resolved carries exactly the bytes of its request: if none
/// was lost on the way, its ranges carry them all, each once.
pub proof fn law_resolved_write_carries_the_request(disk: VhdxFile, op: WriteOp)
    requires
        op.wf(disk),
        op.phase == WritePhase::Finished,
        owed(op).to_multiset() == op.parts@.map_values(
            |part: Segment| part_bytes(part),
        ).to_multiset(),
    ensures
        all_carried(op.ranges@).to_multiset() == op.parts@.map_values(
            |part: Segment| part_bytes(part),
        ).to_multiset(),
{
    assert(owed(op) =~= all_carried(op.ranges@));
}

/// Settling a write keeps its data placed.
pub proof fn law_completion_keeps_data_placed(
    disk: VhdxFile,
    before: WriteCompletion,
    mappings: Seq<InternalBlockMapping>,
    event: CompletionEvent,
    after: WriteCompletion,
    new_mappings: Seq<InternalBlockMapping>,
    action: CompletionAction,
    range: WriteRange,
)
    requires
        before.wf(disk),
        before.expects(event),
        mappings.len() == disk.bat.data_block_count,
        completion_step(disk, before, mappings, event, after, new_mappings, action),
        placed(disk, mappings, range),
    ensures
        placed(disk, new_mappings, range),
{
    if event is Continue && before.next < before.parts@.len() {
        let part = before.parts@[before.next as int];
        assert(part_of_disk(disk, before.parts@[before.next as int]));
        law_settled_block_keeps_its_space(mappings[part.block_number as int]);
    }
}

/// A read finds what was written: of bytes that the table leads to, and whose
/// block is settled, a read is served from where the write put them. (Of a
/// block that is partially present, it is served from there for the sectors
/// that the sector bitmap marks as present.)
pub proof fn law_read_finds_what_was_written(
    disk: VhdxFile,
    state: BatState,
    guest_offset: u64,
    length: u32,
    file_offset: u64,
    part: Segment,
)
    requires
        disk.wf(),
        state_of_disk(disk, state),
        placed(
            disk,
            state.payload_mappings@,
            WriteRange::Data { guest_offset, length, file_offset },
        ),
        positioned(disk, part),
        guest_offset <= part.virtual_offset,
        part.virtual_offset + part.block_length <= guest_offset + length,
        !state.payload_mappings@[part.block_number as int].tfp(),
    ensures
        ({
            let found = file_offset + (part.virtual_offset - guest_offset);
            match read_step(disk, state, part) {
                ReadStep::Range(ReadRange::Data { guest_offset: at, length: count, file_offset: from }) => {
                    at == part.virtual_offset && count == part.block_length && from == found
                },
                ReadStep::PartialBlock { block_file_offset, guest_offset: at, length: count } => {
                    at == part.virtual_offset && count == part.block_length && block_file_offset
                        + part.block_offset == found
                },
                _ => false,
            }
        }),
{
    lemma_position(disk, part);
    let bs = disk.block_size as int;
    let block = guest_offset as int / bs;
    let within = guest_offset as int % bs;
    vstd::arithmetic::div_mod::lemma_fundamental_div_mod(guest_offset as int, bs);
    let shift = part.virtual_offset - guest_offset;
    assert(part.block_number == block && part.block_offset == within + shift) by {
        assert(block * bs == bs * block) by (nonlinear_arith);
        lemma_fundamental_div_mod_converse(
            part.virtual_offset as int,
            bs,
            block,
            within + shift,
        );
    }
    let mapping = state.payload_mappings@[block];
    let mb = mapping.mb();
    assert(mapping.allocated());
    assert(file_offset == mb * MB1 + within);
    assert(mb * 0x10_0000 <= 0xffff_fff0_0000) by (nonlinear_arith)
        requires
            mb <= 0x0fff_ffff,
    ;
}

} // verus!
