//! What a virtual disk shows: the bytes that a read is served with, and what a
//! write does to them.
//!
//! The bytes of the file, those of the parent and those to be written are
//! functions of their offset. The sector bitmap is a function that says of
//! each byte of the virtual disk whether it is marked as present.

use vstd::arithmetic::div_mod::{lemma_fundamental_div_mod, lemma_fundamental_div_mod_converse};
use vstd::prelude::*;

use super::bat::{
    law_indices_are_within_the_table, law_mapping_parts, payload_index, BatState, BlockType,
    InternalBlockMapping, MAX_FILE_MEGABYTE,
};
use super::bat_page::position_of;
use super::cache::PageKey;
use super::complete::{
    completion_step, settled, CompletionAction, CompletionEvent, WriteCompletion,
};
use super::consistency::{
    data_placed, lemma_whole_megabytes, positioned, space_aligned,
};
use super::error::VhdxError;
use super::format::MB1;
use super::io::{
    lemma_request_in_disk, read_step, request_guard, state_of_disk, step_guest_range, ReadRange,
    ReadStep, WriteRange,
};
use super::open::VhdxFile;
use super::refcount::BatGuard;
use super::segment::{law_segments_tile_the_request, lemma_segments, segments_of, Segment};
use super::write::{
    covers_block, data_range, part_of_disk, partial_ranges, scan_part, write_step, PartPlan,
    SpaceState, WriteAction, WriteEvent, WriteOp, WritePhase,
};

verus! {

/// The byte that the disk shows at `x`, in a block with the given mapping: a
/// byte of the file if the block is fully present, or partially present and
/// the byte is marked; one of the parent if it is partially present and the
/// byte is not marked, or if the block is not present at all and there is a
/// parent; zero otherwise.
pub open spec fn shown(
    disk: VhdxFile,
    mapping: InternalBlockMapping,
    file: spec_fn(int) -> u8,
    present: spec_fn(int) -> bool,
    parent: spec_fn(int) -> u8,
    x: int,
) -> u8 {
    let at = mapping.mb() * 0x10_0000 + x % disk.block_size as int;
    if mapping.spec_state() == 6 {
        file(at)
    } else if mapping.spec_state() == 7 {
        if present(x) {
            file(at)
        } else {
            parent(x)
        }
    } else if mapping.spec_state() == 0 && disk.has_parent {
        parent(x)
    } else {
        0
    }
}

/// The byte that a step of a read gives for `x`.
pub open spec fn served(
    disk: VhdxFile,
    step: ReadStep,
    file: spec_fn(int) -> u8,
    present: spec_fn(int) -> bool,
    parent: spec_fn(int) -> u8,
    x: int,
) -> u8 {
    match step {
        ReadStep::Range(ReadRange::Data { guest_offset, file_offset, .. }) => file(
            file_offset + (x - guest_offset),
        ),
        ReadStep::Range(ReadRange::Zero { .. }) => 0,
        ReadStep::Range(ReadRange::Unmapped { .. }) => parent(x),
        ReadStep::PartialBlock { block_file_offset, .. } => if present(x) {
            file(block_file_offset + x % disk.block_size as int)
        } else {
            parent(x)
        },
    }
}

/// Whether a byte is one of the part.
pub open spec fn in_part(part: Segment, x: int) -> bool {
    part.virtual_offset <= x < part.virtual_offset + part.block_length
}

/// A byte of a part is in the block of the part, as far behind the start of
/// the part there as in the disk.
proof fn lemma_byte_of_part(disk: VhdxFile, part: Segment, x: int)
    requires
        disk.wf(),
        positioned(disk, part),
        in_part(part, x),
    ensures
        x / disk.block_size as int == part.block_number,
        x % disk.block_size as int == part.block_offset + (x - part.virtual_offset),
{
    let bs = disk.block_size as int;
    assert(part.block_number * bs == bs * part.block_number) by (nonlinear_arith);
    lemma_fundamental_div_mod_converse(
        x,
        bs,
        part.block_number as int,
        part.block_offset + (x - part.virtual_offset),
    );
}

/// A byte of a block that is not one of a part of the block is before it or
/// behind it in the block too.
proof fn lemma_byte_beside_part(disk: VhdxFile, part: Segment, x: int)
    requires
        disk.wf(),
        positioned(disk, part),
        x / disk.block_size as int == part.block_number,
    ensures
        0 <= x % (disk.block_size as int) < disk.block_size,
        x - part.virtual_offset == x % disk.block_size as int - part.block_offset,
        in_part(part, x) <==> part.block_offset <= x % (disk.block_size as int) < part.block_offset
            + part.block_length,
{
    let bs = disk.block_size as int;
    lemma_fundamental_div_mod(x, bs);
    assert(part.block_number * bs == bs * (x / bs)) by (nonlinear_arith)
        requires
            x / bs == part.block_number,
    ;
}

proof fn lemma_file_offsets(mapping: InternalBlockMapping)
    ensures
        mapping.mb() * MB1 == mapping.mb() * 0x10_0000,
        mapping.mb() * MB1 <= 0xffff_fff0_0000,
{
    let mb = mapping.mb();
    assert(mb * 0x10_0000 <= 0xffff_fff0_0000) by (nonlinear_arith)
        requires
            mb <= 0x0fff_ffff,
    ;
}

/// Where a part of a read comes from, by the state of its block alone: from
/// the file if it is fully present, from the file and the parent if it is
/// partially present, from the parent alone exactly if the disk has one and
/// the block is not present, and nowhere, so that it is zeros, in every other
/// case. A block that was zeroed or trimmed never shows the parent. The step
/// serves the whole part and nothing else.
pub proof fn law_read_source_is_decided_by_the_state(disk: VhdxFile, state: BatState, part: Segment)
    requires
        disk.wf(),
        state_of_disk(disk, state),
        part_of_disk(disk, part),
    ensures
        ({
            let raw = state.payload_mappings@[part.block_number as int].spec_state();
            let step = read_step(disk, state, part);
            &&& step_guest_range(step) == (part.virtual_offset, part.block_length)
            &&& (step matches ReadStep::Range(ReadRange::Data { .. })) <==> raw == 6
            &&& (step is PartialBlock) <==> raw == 7
            &&& (step matches ReadStep::Range(ReadRange::Unmapped { .. })) <==> disk.has_parent
                && raw == 0
            &&& (step matches ReadStep::Range(ReadRange::Zero { .. })) <==> raw == 1 || raw == 2
                || raw == 3 || (raw == 0 && !disk.has_parent)
        }),
{
    assert(super::format::BatEntryState::of_raw(
        state.payload_mappings@[part.block_number as int].spec_state(),
    ) is Some);
}

/// A part of a read is served with the bytes that the disk shows.
pub proof fn law_read_part_shows_the_disk(
    disk: VhdxFile,
    state: BatState,
    part: Segment,
    file: spec_fn(int) -> u8,
    present: spec_fn(int) -> bool,
    parent: spec_fn(int) -> u8,
    x: int,
)
    requires
        disk.wf(),
        state_of_disk(disk, state),
        positioned(disk, part),
        in_part(part, x),
    ensures
        served(disk, read_step(disk, state, part), file, present, parent, x) == shown(
            disk,
            state.payload_mappings@[x / disk.block_size as int],
            file,
            present,
            parent,
            x,
        ),
{
    let mapping = state.payload_mappings@[part.block_number as int];
    lemma_byte_of_part(disk, part, x);
    lemma_file_offsets(mapping);
    law_read_source_is_decided_by_the_state(disk, state, part);
}

/// A part of a request, by any of its bytes.
proof fn lemma_part_of_byte(disk: VhdxFile, offset: u64, len: u32, x: int)
    requires
        disk.wf(),
        len > 0,
        offset + len <= disk.disk_size,
        offset <= x < offset + len,
    ensures
        ({
            let parts = segments_of(disk.block_size as int, offset as int, offset + len);
            let k = x / disk.block_size as int - offset as int / disk.block_size as int;
            &&& 0 <= k < parts.len()
            &&& positioned(disk, parts[k])
            &&& in_part(parts[k], x)
            &&& parts[k].block_number == x / disk.block_size as int
        }),
{
    let bs = disk.block_size as int;
    let parts = segments_of(bs, offset as int, offset + len);
    let first = offset as int / bs;
    let k = x / bs - first;
    lemma_request_in_disk(disk, offset, len);
    lemma_segments(disk.block_size, offset, len);
    vstd::arithmetic::div_mod::lemma_div_is_ordered(offset as int, x, bs);
    vstd::arithmetic::div_mod::lemma_div_is_ordered(x, offset + len - 1, bs);
    assert(parts.len() == (offset + len - 1) / bs - first + 1);
    law_segments_tile_the_request(disk.block_size, offset, len, k);
    law_segments_tile_the_request(disk.block_size, offset, len, 0);
    let part = parts[k];
    lemma_fundamental_div_mod(x, bs);
    let b = x / bs;
    assert(b * bs == bs * b) by (nonlinear_arith);
    assert((b + 1) * bs == b * bs + bs) by (nonlinear_arith);
    assert(part == super::segment::segment_at(bs, offset as int, offset + len, k));
}

/// Every byte of a read request is served, by the step of its block, with what
/// the disk shows there.
pub proof fn law_read_shows_the_disk(
    disk: VhdxFile,
    state: BatState,
    offset: u64,
    len: u32,
    file: spec_fn(int) -> u8,
    present: spec_fn(int) -> bool,
    parent: spec_fn(int) -> u8,
    x: int,
)
    requires
        disk.wf(),
        state_of_disk(disk, state),
        len > 0,
        offset + len <= disk.disk_size,
        offset <= x < offset + len,
    ensures
        ({
            let steps = segments_of(
                disk.block_size as int,
                offset as int,
                offset + len,
            ).map_values(|part: Segment| read_step(disk, state, part));
            let k = x / disk.block_size as int - offset as int / disk.block_size as int;
            let (start, length) = step_guest_range(steps[k]);
            &&& 0 <= k < steps.len()
            &&& start <= x < start + length
            &&& served(disk, steps[k], file, present, parent, x) == shown(
                disk,
                state.payload_mappings@[x / disk.block_size as int],
                file,
                present,
                parent,
                x,
            )
        }),
{
    let parts = segments_of(disk.block_size as int, offset as int, offset + len);
    let k = x / disk.block_size as int - offset as int / disk.block_size as int;
    lemma_part_of_byte(disk, offset, len, x);
    law_read_part_shows_the_disk(disk, state, parts[k], file, present, parent, x);
    law_read_source_is_decided_by_the_state(disk, state, parts[k]);
}

/// The byte of the file at `i` after a range is written.
pub open spec fn put(
    file: spec_fn(int) -> u8,
    range: WriteRange,
    data: spec_fn(int) -> u8,
    i: int,
) -> u8 {
    match range {
        WriteRange::Data { guest_offset, length, file_offset } => if file_offset <= i < file_offset
            + length {
            data(guest_offset + (i - file_offset))
        } else {
            file(i)
        },
        WriteRange::Zero { file_offset, length } => if file_offset <= i < file_offset + length {
            0
        } else {
            file(i)
        },
    }
}

/// The file after ranges are written, in order.
pub open spec fn written(
    file: spec_fn(int) -> u8,
    ranges: Seq<WriteRange>,
    data: spec_fn(int) -> u8,
) -> spec_fn(int) -> u8
    decreases ranges.len(),
{
    if ranges.len() == 0 {
        file
    } else {
        let before = written(file, ranges.drop_last(), data);
        |i: int| put(before, ranges.last(), data, i)
    }
}

proof fn lemma_written_one(file: spec_fn(int) -> u8, range: WriteRange, data: spec_fn(int) -> u8)
    ensures
        forall|i: int| #[trigger] written(file, seq![range], data)(i) == put(file, range, data, i),
{
    let ranges = seq![range];
    assert(ranges.drop_last() =~= Seq::<WriteRange>::empty());
    assert(written(file, ranges.drop_last(), data) == file);
}

proof fn lemma_written_push(
    file: spec_fn(int) -> u8,
    ranges: Seq<WriteRange>,
    range: WriteRange,
    data: spec_fn(int) -> u8,
)
    ensures
        forall|i: int| #[trigger]
            written(file, ranges.push(range), data)(i) == put(
                written(file, ranges, data),
                range,
                data,
                i,
            ),
{
    assert(ranges.push(range).drop_last() =~= ranges);
}

/// The mapping of a block once the write is complete.
pub open spec fn completed(mapping: InternalBlockMapping) -> InternalBlockMapping {
    if mapping.tfp() {
        settled(mapping)
    } else {
        mapping
    }
}

/// The bits of the sector bitmap after those of the part are set.
pub open spec fn with_bits(present: spec_fn(int) -> bool, part: Segment) -> spec_fn(int) -> bool {
    |y: int| present(y) || in_part(part, y)
}

/// The bits once a write of the part is complete: those of the part are set if
/// the block is partially present.
pub open spec fn bits_after(
    mapping: InternalBlockMapping,
    part: Segment,
    present: spec_fn(int) -> bool,
) -> spec_fn(int) -> bool {
    if mapping.spec_state() == 7 {
        with_bits(present, part)
    } else {
        present
    }
}

/// The ranges of a part into the space of a block set the bytes of the part,
/// and no other byte that the block shows: with the mapping `after`, the disk
/// shows the data in the part, and beside it what it showed with the mapping
/// `before`.
pub open spec fn sets_exactly(
    disk: VhdxFile,
    part: Segment,
    before: InternalBlockMapping,
    after: InternalBlockMapping,
    ranges: Seq<WriteRange>,
    file: spec_fn(int) -> u8,
    data: spec_fn(int) -> u8,
    present: spec_fn(int) -> bool,
    parent: spec_fn(int) -> u8,
) -> bool {
    let bits = bits_after(after, part, present);
    &&& forall|x: int|
        x / disk.block_size as int == part.block_number ==> #[trigger] shown(
            disk,
            after,
            written(file, ranges, data),
            bits,
            parent,
            x,
        ) == if in_part(part, x) {
            data(x)
        } else {
            shown(disk, before, file, present, parent, x)
        }
    &&& forall|k: int| 0 <= k < ranges.len() ==> within_space(disk, after, #[trigger] ranges[k])
}

/// The range writes only into the space of the block.
pub open spec fn within_space(
    disk: VhdxFile,
    mapping: InternalBlockMapping,
    range: WriteRange,
) -> bool {
    let base = mapping.mb() * 0x10_0000;
    match range {
        WriteRange::Data { length, file_offset, .. } => base <= file_offset && file_offset + length
            <= base + disk.block_size,
        WriteRange::Zero { length, file_offset } => base <= file_offset && file_offset + length
            <= base + disk.block_size,
    }
}

/// A part that goes as it is to the space of its block.
proof fn lemma_one_range_sets(
    disk: VhdxFile,
    part: Segment,
    before: InternalBlockMapping,
    after: InternalBlockMapping,
    file: spec_fn(int) -> u8,
    data: spec_fn(int) -> u8,
    present: spec_fn(int) -> bool,
    parent: spec_fn(int) -> u8,
)
    requires
        disk.wf(),
        positioned(disk, part),
        after.spec_state() == 6 || after.spec_state() == 7,
        covers_block(disk, part) || (before.mb() == after.mb() && before.spec_state()
            == after.spec_state()),
    ensures
        sets_exactly(
            disk,
            part,
            before,
            after,
            seq![data_range(part, after.mb() * MB1)],
            file,
            data,
            present,
            parent,
        ),
{
    let range = data_range(part, after.mb() * MB1);
    let ranges = seq![range];
    lemma_file_offsets(after);
    lemma_written_one(file, range, data);
    let bits = bits_after(after, part, present);
    assert forall|x: int| x / disk.block_size as int == part.block_number implies #[trigger] shown(
        disk,
        after,
        written(file, ranges, data),
        bits,
        parent,
        x,
    ) == if in_part(part, x) {
        data(x)
    } else {
        shown(disk, before, file, present, parent, x)
    } by {
        lemma_byte_beside_part(disk, part, x);
        let at = after.mb() * 0x10_0000 + x % disk.block_size as int;
        assert(written(file, ranges, data)(at) == put(file, range, data, at));
    }
}

/// A part that goes to new space, with what is beside it.
proof fn lemma_partial_ranges_set(
    disk: VhdxFile,
    part: Segment,
    before: InternalBlockMapping,
    after: InternalBlockMapping,
    space: super::write::NewSpace,
    file: spec_fn(int) -> u8,
    data: spec_fn(int) -> u8,
    present: spec_fn(int) -> bool,
    parent: spec_fn(int) -> u8,
)
    requires
        disk.wf(),
        positioned(disk, part),
        !before.allocated(),
        space.file_offset == after.mb() * MB1,
        after == super::write::committed_mapping(disk, before, space.file_offset),
        space.state == SpaceState::Zero ==> forall|i: int|
            space.file_offset <= i < space.file_offset + disk.block_size ==> #[trigger] file(i) == 0,
        before.spec_state() == 0 ==> forall|y: int|
            y / disk.block_size as int == part.block_number ==> !#[trigger] present(y),
    ensures
        sets_exactly(
            disk,
            part,
            before,
            after,
            partial_ranges(disk, part, before, space),
            file,
            data,
            present,
            parent,
        ),
{
    let mb = after.mb();
    lemma_file_offsets(after);
    assert(space.file_offset as int / MB1 as int == mb) by {
        let m = mb as int;
        assert(m * 0x10_0000 / 0x10_0000 == m) by (nonlinear_arith);
    }
    law_mapping_parts(6, false, (space.file_offset as int / MB1 as int) as u32, before);
    law_mapping_parts(7, false, (space.file_offset as int / MB1 as int) as u32, before);
    let ranges = partial_ranges(disk, part, before, space);
    let data_part = data_range(part, space.file_offset as int);
    let pad = !super::write::stays_partial(disk, before) && space.state != SpaceState::Zero;
    let end = part.block_offset + part.block_length;
    let head_range = WriteRange::Zero { file_offset: space.file_offset, length: part.block_offset };
    let tail_range = WriteRange::Zero {
        file_offset: (space.file_offset + end) as u64,
        length: (disk.block_size - end) as u32,
    };
    let head = if pad && part.block_offset > 0 {
        seq![head_range]
    } else {
        Seq::empty()
    };
    assert(head.push(data_part) =~= head + seq![data_part]);
    lemma_written_push(file, head, data_part, data);
    if pad && part.block_offset > 0 {
        lemma_written_one(file, head_range, data);
    }
    if pad && end < disk.block_size {
        assert(ranges =~= head.push(data_part).push(tail_range));
        lemma_written_push(file, head.push(data_part), tail_range, data);
    } else {
        assert(ranges =~= head.push(data_part));
    }
    let bits = bits_after(after, part, present);
    assert forall|x: int| x / disk.block_size as int == part.block_number implies #[trigger] shown(
        disk,
        after,
        written(file, ranges, data),
        bits,
        parent,
        x,
    ) == if in_part(part, x) {
        data(x)
    } else {
        shown(disk, before, file, present, parent, x)
    } by {
        lemma_byte_beside_part(disk, part, x);
        let at = mb * 0x10_0000 + x % disk.block_size as int;
        let after_data = written(file, head.push(data_part), data);
        assert(after_data(at) == put(written(file, head, data), data_part, data, at));
        if pad && part.block_offset > 0 {
            assert(written(file, head, data)(at) == put(file, head_range, data, at));
        }
        if pad && end < disk.block_size {
            assert(written(file, ranges, data)(at) == put(after_data, tail_range, data, at));
        }
    }
    assert forall|k: int| 0 <= k < ranges.len() implies within_space(
        disk,
        after,
        #[trigger] ranges[k],
    ) by {
        assert(ranges[k] == head_range && head.len() > 0 || ranges[k] == data_part || ranges[k]
            == tail_range);
    }
}

/// What a scan writes in place sets exactly its bytes: the block keeps its
/// mapping. A block is waited for exactly if another write is at it, and is
/// taken up only if it has no space or can be promoted as a whole.
pub proof fn law_scanned_part_sets_exactly_its_bytes(
    disk: VhdxFile,
    state: BatState,
    part: Segment,
    file: spec_fn(int) -> u8,
    data: spec_fn(int) -> u8,
    present: spec_fn(int) -> bool,
    parent: spec_fn(int) -> u8,
)
    requires
        disk.wf(),
        state_of_disk(disk, state),
        positioned(disk, part),
    ensures
        ({
            let mapping = state.payload_mappings@[part.block_number as int];
            let raw = mapping.spec_state();
            let whole = part.block_offset == 0 && part.block_length == disk.block_size;
            match scan_part(disk, state, part) {
                PartPlan::Wait => mapping.tfp(),
                PartPlan::Direct(range) => !mapping.tfp() && sets_exactly(
                    disk,
                    part,
                    mapping,
                    mapping,
                    seq![range],
                    file,
                    data,
                    present,
                    parent,
                ),
                PartPlan::Allocate => !mapping.tfp() && raw != 6 && (raw == 7 ==> whole),
            }
        }),
{
    let mapping = state.payload_mappings@[part.block_number as int];
    if mapping.spec_state() == 6 || mapping.spec_state() == 7 {
        lemma_one_range_sets(disk, part, mapping, mapping, file, data, present, parent);
    }
}

/// The space that a step puts the current block into.
pub open spec fn space_of_step(before: WriteOp, event: WriteEvent) -> (u64, SpaceState) {
    match event {
        WriteEvent::Space { file_offset, state } => (file_offset, state),
        WriteEvent::Reclaimed(_) => ((before.current->0.mb() * MB1) as u64, SpaceState::OwnStale),
        _ => (before.space->0.file_offset, before.space->0.state),
    }
}

/// A write changes the bytes of its request and no others: when a part is
/// done, its ranges, together with the mapping of its block as it is once the
/// write is complete, and with the bits of the part if the block is partially
/// present then, make the block show the data in the part and everywhere else
/// what it showed before. They write nowhere but into the space of the block.
///
/// Space that is said to hold zeros does, and no bit is set of a block that is
/// not present.
pub proof fn law_write_sets_exactly_its_bytes(
    disk: VhdxFile,
    before: WriteOp,
    state: BatState,
    event: WriteEvent,
    after: WriteOp,
    new_state: BatState,
    action: WriteAction,
    file: spec_fn(int) -> u8,
    data: spec_fn(int) -> u8,
    present: spec_fn(int) -> bool,
    parent: spec_fn(int) -> u8,
)
    requires
        disk.wf(),
        state_of_disk(disk, state),
        before.wf(disk),
        before.expects(event),
        before.phase != WritePhase::Scanning,
        space_aligned(event),
        data_placed(disk, before, state.payload_mappings@),
        write_step(disk, before, state, event, after, new_state, action),
        after.next == before.next + 1,
        before.in_block() ==> !before.current->0.allocated() && !before.current->0.tfp(),
        !before.in_block() ==> !state.payload_mappings@[before.part().block_number as int].tfp(),
        ({
            let (offset, kind) = space_of_step(before, event);
            before.in_block() && kind == SpaceState::Zero ==> forall|i: int|
                offset <= i < offset + disk.block_size ==> #[trigger] file(i) == 0
        }),
        before.in_block() && before.current->0.spec_state() == 0 ==> forall|y: int|
            y / disk.block_size as int == before.part().block_number ==> !#[trigger] present(y),
    ensures
        ({
            let part = before.part();
            let block = part.block_number as int;
            let original = if before.in_block() {
                before.current->0
            } else {
                state.payload_mappings@[block]
            };
            &&& before.ranges@ == after.ranges@.subrange(0, before.ranges@.len() as int)
            &&& sets_exactly(
                disk,
                part,
                original,
                completed(new_state.payload_mappings@[block]),
                after.ranges@.subrange(before.ranges@.len() as int, after.ranges@.len() as int),
                file,
                data,
                present,
                parent,
            )
        }),
{
    let part = before.part();
    let block = part.block_number as int;
    let mapping = state.payload_mappings@[block];
    let new_mapping = new_state.payload_mappings@[block];
    let done = completed(new_mapping);
    let n = before.ranges@.len() as int;
    let added = after.ranges@.subrange(n, after.ranges@.len() as int);
    assert(positioned(disk, before.pending@[before.next as int]));
    match event {
        WriteEvent::Continue => {
            law_mapping_parts(7, true, mapping.mb(), mapping);
            law_mapping_parts(6, false, mapping.mb(), mapping);
            assert(added =~= seq![data_range(part, mapping.mb() * MB1)]);
            assert(before.ranges@ =~= after.ranges@.subrange(0, n));
            lemma_one_range_sets(disk, part, mapping, done, file, data, present, parent);
        },
        WriteEvent::Persisted => {
            let space = before.space->0;
            let original = before.current->0;
            lemma_whole_megabytes(space.file_offset);
            law_mapping_parts(6, false, (space.file_offset as int / MB1 as int) as u32, original);
            law_mapping_parts(7, false, (space.file_offset as int / MB1 as int) as u32, original);
            assert(added =~= partial_ranges(disk, part, original, space));
            assert(before.ranges@ =~= after.ranges@.subrange(0, n));
            lemma_partial_ranges_set(
                disk,
                part,
                original,
                done,
                space,
                file,
                data,
                present,
                parent,
            );
        },
        _ => {
            let original = before.current->0;
            let (offset, _) = space_of_step(before, event);
            let mb = (offset / MB1) as u32;
            lemma_file_offsets(original);
            if event is Reclaimed {
                assert(offset % MB1 == 0 && offset / MB1 <= MAX_FILE_MEGABYTE) by {
                    let m = original.mb() as int;
                    assert(m * 0x10_0000 % 0x10_0000 == 0 && m * 0x10_0000 / 0x10_0000 == m)
                        by (nonlinear_arith);
                }
            }
            lemma_whole_megabytes(offset);
            law_mapping_parts(original.spec_state(), true, mb, original);
            law_mapping_parts(6, false, mb, original);
            assert(added =~= seq![data_range(part, offset as int)]);
            assert(before.ranges@ =~= after.ranges@.subrange(0, n));
            lemma_one_range_sets(disk, part, original, done, file, data, present, parent);
        },
    }
}

/// A block becomes partially present by a partial write exactly if the disk
/// has a parent and the block was not present, so that the parent goes on
/// showing in the rest; whatever showed zeros before goes on doing so, in the
/// file, and the block is fully present. The mapping names the space that the
/// block got.
pub proof fn law_partial_write_commits_the_right_state(
    disk: VhdxFile,
    before: WriteOp,
    state: BatState,
    event: WriteEvent,
    after: WriteOp,
    new_state: BatState,
    action: WriteAction,
)
    requires
        disk.wf(),
        state_of_disk(disk, state),
        before.wf(disk),
        before.expects(event),
        write_step(disk, before, state, event, after, new_state, action),
        after.phase == WritePhase::AwaitPayloadPersist,
    ensures
        ({
            let block = before.part().block_number;
            let mapping = new_state.payload_mappings@[block as int];
            &&& action == WriteAction::Persist { block_type: BlockType::Payload, number: block, mapping }
            &&& mapping.spec_state() == (if disk.has_parent && before.current->0.spec_state()
                == 0 {
                7u8
            } else {
                6u8
            })
            &&& !mapping.tfp()
            &&& mapping.mb() == after.space->0.file_offset as int / 0x10_0000
            &&& !(before.part().block_offset == 0 && before.part().block_length
                == disk.block_size)
        }),
{
    let space = after.space->0;
    let mb = (space.file_offset as int / MB1 as int) as u32;
    assert(part_of_disk(disk, before.pending@[before.next as int]));
    law_mapping_parts(6, false, mb, before.current->0);
    law_mapping_parts(7, false, mb, before.current->0);
}

/// A completion asks for the bits of exactly the bytes of the request that lie
/// in blocks that are partially present: the step that takes up a block asks
/// for all of them in that block and for no others, and every byte of the
/// request is in a block that is taken up. A transitioning block becomes fully
/// present in the space that it has, and is written to the table as that, and
/// no other block changes.
pub proof fn law_completion_marks_exactly_the_written_bytes(
    disk: VhdxFile,
    offset: u64,
    len: u32,
    before: WriteCompletion,
    mappings: Seq<InternalBlockMapping>,
    after: WriteCompletion,
    new_mappings: Seq<InternalBlockMapping>,
    action: CompletionAction,
    x: int,
)
    requires
        disk.wf(),
        len > 0,
        offset + len <= disk.disk_size,
        mappings.len() == disk.bat.data_block_count,
        before.wf(disk),
        before.expects(CompletionEvent::Continue),
        before.parts@ == segments_of(disk.block_size as int, offset as int, offset + len),
        before.next < before.parts@.len(),
        completion_step(
            disk,
            before,
            mappings,
            CompletionEvent::Continue,
            after,
            new_mappings,
            action,
        ),
    ensures
        ({
            let block = offset as int / disk.block_size as int + before.next;
            let mapping = mappings[block];
            &&& 0 <= block < mappings.len()
            &&& after.next == before.next + 1
            &&& (action is SetBitmapBits) <==> disk.has_parent && !mapping.tfp()
                && mapping.spec_state() == 7 && !before.bitmap_failed
            &&& action matches CompletionAction::SetBitmapBits { virtual_offset, length }
                ==> ((virtual_offset <= x < virtual_offset + length) <==> (offset <= x < offset
                + len && x / disk.block_size as int == block))
            &&& (action is Persist) <==> mapping.tfp() && before.error is None
            &&& action matches CompletionAction::Persist { block_number, mapping: m }
                ==> block_number == block && m == new_mappings[block]
            &&& mapping.tfp() ==> new_mappings[block].spec_state() == 6
                && !new_mappings[block].tfp() && new_mappings[block].mb() == mapping.mb()
                && after.had_tfp
            &&& !mapping.tfp() ==> new_mappings[block] == mapping
            &&& forall|b: int|
                0 <= b < mappings.len() && b != block ==> #[trigger] new_mappings[b] == mappings[b]
        }),
        offset <= x < offset + len ==> {
            let k = x / disk.block_size as int - offset as int / disk.block_size as int;
            0 <= k < before.parts@.len()
        },
{
    let bs = disk.block_size as int;
    let part = before.parts@[before.next as int];
    lemma_request_in_disk(disk, offset, len);
    lemma_segments(disk.block_size, offset, len);
    law_segments_tile_the_request(disk.block_size, offset, len, before.next as int);
    assert(part_of_disk(disk, before.parts@[before.next as int]));
    assert(part == super::segment::segment_at(bs, offset as int, offset + len, before.next as int));
    let block = part.block_number as int;
    law_mapping_parts(6, false, mappings[block].mb(), mappings[block]);
    if in_part(part, x) {
        lemma_byte_of_part(disk, part, x);
        lemma_part_in_request(disk, offset, len, before.next as int, x);
    }
    if offset <= x < offset + len {
        lemma_part_of_byte(disk, offset, len, x);
    }
}

proof fn lemma_part_in_request(disk: VhdxFile, offset: u64, len: u32, k: int, x: int)
    requires
        disk.wf(),
        len > 0,
        offset + len <= disk.disk_size,
        0 <= k < segments_of(disk.block_size as int, offset as int, offset + len).len(),
        in_part(segments_of(disk.block_size as int, offset as int, offset + len)[k], x),
    ensures
        offset <= x < offset + len,
{
    let bs = disk.block_size as int;
    lemma_request_in_disk(disk, offset, len);
    lemma_segments(disk.block_size, offset, len);
    super::segment::lemma_segment_bounds(bs, offset as int, offset + len, k);
    assert(segments_of(bs, offset as int, offset + len)[k] == super::segment::segment_at(
        bs,
        offset as int,
        offset + len,
        k,
    ));
}

/// The page of the table that holds the entry of a payload block.
pub open spec fn page_holds_block(disk: VhdxFile, key: PageKey, block: int) -> bool {
    let at = 8 * (block + block / disk.bat.chunk_ratio as int);
    &&& key.tag == 0
    &&& key.offset % 4096 == 0
    &&& key.offset <= at < key.offset + 4096
}

/// What a completion does once an outside action is done: after a mapping was
/// written over data that has to be flushed first, the page that holds it
/// waits for that flush; a failure is kept; a failure to set bits outweighs
/// one to write a mapping.
pub proof fn law_completion_orders_data_before_the_table(
    disk: VhdxFile,
    before: WriteCompletion,
    mappings: Seq<InternalBlockMapping>,
    event: CompletionEvent,
    after: WriteCompletion,
    new_mappings: Seq<InternalBlockMapping>,
    action: CompletionAction,
)
    requires
        disk.wf(),
        before.wf(disk),
        before.expects(event),
        !(event is Continue),
        completion_step(disk, before, mappings, event, after, new_mappings, action),
    ensures
        new_mappings == mappings,
        after.next == before.next,
        after.had_tfp == before.had_tfp,
        match event {
            CompletionEvent::Persisted(Ok(_)) => {
                &&& after.error == before.error
                &&& before.needs_flush_before_log ==> (
                action matches CompletionAction::RequireFlush(key) && page_holds_block(
                    disk,
                    key,
                    before.parts@[before.next - 1].block_number as int,
                ))
                &&& !before.needs_flush_before_log ==> action == CompletionAction::Again
            },
            CompletionEvent::Persisted(Err(e)) => after.error == Some(e) && action
                == CompletionAction::Again,
            CompletionEvent::BitmapSet(Ok(_)) => after.error == before.error && action
                == CompletionAction::Again,
            CompletionEvent::BitmapSet(Err(e)) => after.error == Some(e) && after.bitmap_failed
                && action == CompletionAction::Again,
            _ => true,
        },
{
    if before.next > 0 {
        assert(part_of_disk(disk, before.parts@[before.next - 1]));
        lemma_page_of_block(disk, before.parts@[before.next - 1].block_number);
    }
}

proof fn lemma_page_of_block(disk: VhdxFile, block_number: u32)
    requires
        disk.wf(),
        block_number < disk.bat.data_block_count,
    ensures
        page_holds_block(
            disk,
            position_of(payload_index(disk.bat, block_number as int)).page_key,
            block_number as int,
        ),
{
    law_indices_are_within_the_table(disk.bat, BlockType::Payload, block_number);
    let n = payload_index(disk.bat, block_number as int);
    assert(n / 512 * 4096 <= 8 * n < n / 512 * 4096 + 4096 && n / 512 * 4096 % 4096 == 0);
}

/// Space that may show old data of another block forces a flush before the
/// table is logged, and no other does: of a block that is covered the whole
/// write, of a partial block its page. The space of a block is asked for as a
/// whole.
pub proof fn law_unsafe_space_forces_a_flush(
    disk: VhdxFile,
    before: WriteOp,
    state: BatState,
    event: WriteEvent,
    after: WriteOp,
    new_state: BatState,
    action: WriteAction,
)
    requires
        disk.wf(),
        state_of_disk(disk, state),
        before.wf(disk),
        before.expects(event),
        write_step(disk, before, state, event, after, new_state, action),
    ensures
        after.needs_flush_before_log == (before.needs_flush_before_log || ((
        event matches WriteEvent::Space { state: SpaceState::CrossStale, .. }) && after.next
            > before.next)),
        before.phase == WritePhase::AwaitPayloadPersist ==> if before.space->0.state
            == SpaceState::CrossStale {
            action matches WriteAction::RequireFlush(key) && page_holds_block(
                disk,
                key,
                before.part().block_number as int,
            )
        } else {
            action == WriteAction::Again
        },
        action matches WriteAction::RequireFlush(_) ==> before.phase
            == WritePhase::AwaitPayloadPersist,
        action matches WriteAction::Allocate { length } ==> length == disk.block_size,
        action matches WriteAction::AllocateBitmap { length, chunk_number } ==> length == 0x10_0000
            && chunk_number == before.part().block_number / disk.bat.chunk_ratio,
        action matches WriteAction::Reclaim { block_number, file_offset } ==> {
            let mapping = state.payload_mappings@[block_number as int];
            &&& block_number == before.part().block_number
            &&& mapping.spec_state() == 1 || mapping.spec_state() == 3
            &&& mapping.mb() != 0
            &&& file_offset == mapping.mb() * 0x10_0000
        },
{
    if before.in_block() {
        assert(part_of_disk(disk, before.pending@[before.next as int]));
        lemma_page_of_block(disk, before.part().block_number);
    }
    if before.phase == WritePhase::Idle && before.next < before.pending@.len() {
        assert(part_of_disk(disk, before.pending@[before.next as int]));
        lemma_file_offsets(state.payload_mappings@[before.part().block_number as int]);
    }
}

/// The sector bitmap block of the chunk that the current part is in is there,
/// or is being made, as the phase of the write says.
pub open spec fn bitmap_in_step(
    disk: VhdxFile,
    op: WriteOp,
    bitmaps: Seq<InternalBlockMapping>,
) -> bool {
    let chunk = op.part().block_number as int / disk.bat.chunk_ratio as int;
    &&& op.phase == WritePhase::AwaitBitmapSpace ==> bitmaps[chunk].spec_state() != 6
    &&& op.phase == WritePhase::AwaitBitmapPersist ==> bitmaps[chunk].spec_state() == 6
}

/// A block that becomes partially present has a sector bitmap block: one is
/// allocated before, unless the chunk has one, and none that is there is ever
/// replaced.
pub proof fn law_partially_present_block_has_a_bitmap(
    disk: VhdxFile,
    before: WriteOp,
    state: BatState,
    event: WriteEvent,
    after: WriteOp,
    new_state: BatState,
    action: WriteAction,
    c: int,
)
    requires
        disk.wf(),
        state_of_disk(disk, state),
        before.wf(disk),
        before.expects(event),
        bitmap_in_step(disk, before, state.sector_bitmap_mappings@),
        write_step(disk, before, state, event, after, new_state, action),
        0 <= c < state.sector_bitmap_mappings@.len(),
    ensures
        bitmap_in_step(disk, after, new_state.sector_bitmap_mappings@),
        after.phase == WritePhase::AwaitPayloadPersist && disk.has_parent
            && before.current->0.spec_state() == 0
            ==> new_state.sector_bitmap_mappings@[before.part().block_number as int
            / disk.bat.chunk_ratio as int].spec_state() == 6,
        state.sector_bitmap_mappings@[c].spec_state() == 6
            ==> new_state.sector_bitmap_mappings@[c] == state.sector_bitmap_mappings@[c],
        event matches WriteEvent::BitmapSpace { file_offset } ==> {
            let chunk = before.part().block_number as int / disk.bat.chunk_ratio as int;
            let mapping = new_state.sector_bitmap_mappings@[chunk];
            &&& mapping.mb() == file_offset as int / 0x10_0000
            &&& !mapping.tfp()
            &&& action == WriteAction::Persist {
                block_type: BlockType::SectorBitmap,
                number: chunk as u32,
                mapping,
            }
        },
{
    if before.in_block() {
        assert(part_of_disk(disk, before.pending@[before.next as int]));
        if disk.has_parent {
            super::write::lemma_chunk_in_range(disk.bat, before.part().block_number);
        }
    }
    if let WriteEvent::BitmapSpace { file_offset } = event {
        law_mapping_parts(6, false, (file_offset / MB1) as u32, before.current->0);
    }
}

/// The blocks that a request holds are exactly those that it has a byte in.
pub proof fn law_request_holds_exactly_its_blocks(
    disk: VhdxFile,
    offset: u64,
    len: u32,
    block: int,
)
    requires
        disk.wf(),
        len > 0,
        offset + len <= disk.disk_size,
    ensures
        ({
            let guard = request_guard(disk, offset as int, len as int);
            (guard.start_block <= block < guard.start_block + guard.block_count) <==> exists|x: int|
                offset <= x < offset + len && #[trigger] (x / disk.block_size as int) == block
        }),
{
    let bs = disk.block_size as int;
    let guard = request_guard(disk, offset as int, len as int);
    lemma_request_in_disk(disk, offset, len);
    let first = offset as int / bs;
    let last = (offset + len - 1) / bs;
    assert(guard.start_block == first && guard.block_count == last - first + 1);
    if first <= block <= last {
        let x = if block == first {
            offset as int
        } else {
            block * bs
        };
        lemma_fundamental_div_mod(offset as int, bs);
        lemma_fundamental_div_mod(offset + len - 1, bs);
        if block > first {
            assert(block * bs / bs == block && offset <= block * bs <= offset + len - 1)
                by (nonlinear_arith)
                requires
                    bs > 0,
                    first + 1 <= block <= last,
                    offset == bs * first + offset as int % bs,
                    offset as int % bs < bs,
                    offset + len - 1 == bs * last + (offset + len - 1) % bs,
                    0 <= (offset + len - 1) % bs,
            ;
        }
        assert(x / bs == block);
    }
    assert forall|x: int| offset <= x < offset + len implies first <= (#[trigger] (x / bs))
        && x / bs <= last by {
        vstd::arithmetic::div_mod::lemma_div_is_ordered(offset as int, x, bs);
        vstd::arithmetic::div_mod::lemma_div_is_ordered(x, offset + len - 1, bs);
    }
}

/// How the part of a write in one block is taken up: a block that is being
/// made fully present is waited for; one that is fully present, or partially
/// and not covered as a whole, is written where it is; every other is left to
/// be allocated.
pub proof fn law_part_is_planned_by_its_block(disk: VhdxFile, state: BatState, part: Segment)
    requires
        part_of_disk(disk, part),
        state_of_disk(disk, state),
    ensures
        ({
            let mapping = state.payload_mappings@[part.block_number as int];
            let plan = scan_part(disk, state, part);
            let whole = part.block_length == disk.block_size;
            &&& plan is Wait <==> mapping.raw / 8 % 2 == 1
            &&& plan is Direct <==> mapping.raw / 8 % 2 == 0 && (mapping.raw % 8 == 6 || (
            mapping.raw % 8 == 7 && !whole))
            &&& plan matches PartPlan::Direct(range) ==> range == (WriteRange::Data {
                guest_offset: part.virtual_offset,
                length: part.block_length,
                file_offset: (mapping.raw / 16 * 0x10_0000 + part.block_offset) as u64,
            })
        }),
{
}

/// How a block that is to be allocated is begun with: one that has become
/// present in the meantime is written where it is, and one that is partially
/// present and covered as a whole is marked as becoming fully present there.
/// For every other, the space that it had before is asked back if it was
/// unmapped or undefined and had any, and new space is asked for if not. No
/// other block changes.
pub proof fn law_block_is_begun_by_its_state(
    disk: VhdxFile,
    before: WriteOp,
    state: BatState,
    after: WriteOp,
    new_state: BatState,
    action: WriteAction,
    b: int,
)
    requires
        disk.wf(),
        state_of_disk(disk, state),
        before.wf(disk),
        before.phase == WritePhase::Idle,
        before.next < before.pending@.len(),
        write_step(disk, before, state, WriteEvent::Continue, after, new_state, action),
        0 <= b < state.payload_mappings@.len(),
    ensures
        ({
            let part = before.part();
            let block = part.block_number as int;
            let mapping = state.payload_mappings@[block];
            let new_mapping = new_state.payload_mappings@[block];
            let kind = mapping.spec_state();
            let whole = part.block_length == disk.block_size;
            &&& action is Again <==> kind == 6 || kind == 7
            &&& action is Again <==> after.next == before.next + 1
            &&& action is Reclaim <==> (kind == 1 || kind == 3) && mapping.mb() != 0
            &&& action is Allocate <==> kind == 0 || kind == 2 || ((kind == 1 || kind == 3)
                && mapping.mb() == 0)
            &&& !(action is Again) ==> after.current == Some(mapping)
            &&& kind == 7 && whole ==> {
                &&& new_mapping.tfp()
                &&& new_mapping.spec_state() == 7
                &&& new_mapping.mb() == mapping.mb()
            }
            &&& b != block || !(kind == 7 && whole) ==> new_state.payload_mappings@[b]
                == state.payload_mappings@[b]
        }),
{
    let part = before.part();
    assert(part_of_disk(disk, before.pending@[before.next as int]));
    let mapping = state.payload_mappings@[part.block_number as int];
    law_mapping_parts(7, true, mapping.mb(), mapping);
}

/// Space for a block that is covered as a whole is mapped at once, as that of
/// a block that is becoming fully present from the state that it had. Space
/// that was asked back is the space that the block had, and if it is not to be
/// had new space is asked for. No other block changes.
pub proof fn law_space_of_a_covered_block_is_mapped(
    disk: VhdxFile,
    before: WriteOp,
    state: BatState,
    event: WriteEvent,
    after: WriteOp,
    new_state: BatState,
    action: WriteAction,
    b: int,
)
    requires
        disk.wf(),
        state_of_disk(disk, state),
        before.wf(disk),
        before.expects(event),
        event is Space || event is Reclaimed,
        write_step(disk, before, state, event, after, new_state, action),
        0 <= b < state.payload_mappings@.len(),
    ensures
        ({
            let part = before.part();
            let block = part.block_number as int;
            let new_mapping = new_state.payload_mappings@[block];
            let refused = event == WriteEvent::Reclaimed(false);
            let mb = match event {
                WriteEvent::Space { file_offset, .. } => file_offset as int / 0x10_0000,
                _ => before.current->0.mb() as int,
            };
            &&& refused ==> action is Allocate && new_state.payload_mappings@
                == state.payload_mappings@ && after.current == before.current
            &&& !refused && part.block_length == disk.block_size ==> {
                &&& action is Again
                &&& after.next == before.next + 1
                &&& new_mapping.tfp()
                &&& new_mapping.spec_state() == before.current->0.spec_state()
                &&& new_mapping.mb() == mb
            }
            &&& !refused && part.block_length != disk.block_size ==> {
                &&& after.next == before.next
                &&& after.space is Some
                &&& after.space->0.file_offset as int / 0x10_0000 == mb
                &&& !new_mapping.tfp() || new_mapping == state.payload_mappings@[block]
            }
            &&& b != block ==> new_state.payload_mappings@[b] == state.payload_mappings@[b]
        }),
{
    let part = before.part();
    assert(part_of_disk(disk, before.pending@[before.next as int]));
    let original = before.current->0;
    lemma_file_offsets(original);
    if let WriteEvent::Space { file_offset, .. } = event {
        law_mapping_parts(original.spec_state(), true, (file_offset / MB1) as u32, original);
        law_mapping_parts(7, false, (file_offset / MB1) as u32, original);
        law_mapping_parts(6, false, (file_offset / MB1) as u32, original);
    } else {
        let file_offset = (original.mb() * MB1) as u64;
        assert(file_offset as int / 0x10_0000 == original.mb());
        law_mapping_parts(original.spec_state(), true, original.mb(), original);
        law_mapping_parts(7, false, original.mb(), original);
        law_mapping_parts(6, false, original.mb(), original);
    }
}

/// A read that is accepted adds a step for each block that it touches, and
/// every byte that it asks for is served, by the step of its block, with what
/// the disk shows there. One that is refused, or asks for nothing, adds none.
pub proof fn law_resolved_read_shows_the_disk(
    disk: VhdxFile,
    state: BatState,
    offset: u64,
    len: u32,
    steps: &mut Vec<ReadStep>,
    r: Result<BatGuard, VhdxError>,
    file: spec_fn(int) -> u8,
    present: spec_fn(int) -> bool,
    parent: spec_fn(int) -> u8,
    x: int,
)
    requires
        disk.wf(),
        state_of_disk(disk, state),
        call_ensures(VhdxFile::resolve_read, (&disk, &state, offset, len, steps), r),
    ensures
        r is Err || len == 0 ==> final(steps)@ == old(steps)@,
        r is Ok <==> len == 0 || (offset as int % disk.logical_sector_size as int == 0 && len as int
            % disk.logical_sector_size as int == 0 && offset + len <= disk.disk_size),
        r is Ok && offset <= x < offset + len ==> {
            let k = old(steps)@.len() + x / disk.block_size as int - offset as int
                / disk.block_size as int;
            let mapping = state.payload_mappings@[x / disk.block_size as int];
            &&& old(steps)@.len() <= k < final(steps)@.len()
            &&& served(disk, final(steps)@[k], file, present, parent, x) == shown(
                disk,
                mapping,
                file,
                present,
                parent,
                x,
            )
        },
        r matches Ok(guard) ==> offset <= x < offset + len ==> guard.start_block <= x
            / disk.block_size as int && x / disk.block_size as int - guard.start_block
            < guard.block_count,
{
    if r is Ok && offset <= x < offset + len {
        law_read_shows_the_disk(disk, state, offset, len, file, present, parent, x);
        law_request_holds_exactly_its_blocks(disk, offset, len, x / disk.block_size as int);
    }
}

} // verus!
