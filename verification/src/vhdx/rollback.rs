//! The way back of a write that fails or is aborted.

use vstd::prelude::*;

use super::bat::{
    law_mapping_parts, payload_index, Bat, BatState, BlockType, InternalBlockMapping,
};
use super::bat_page::{entry_position, position_of};
use super::format::MB1;
use super::io::{state_of_disk, WriteRange};
use super::open::VhdxFile;
use super::write::{
    covers_block, part_of_disk, records_valid, write_step, SpaceRelease, TfpRecord, WriteAction,
    WriteEvent, WriteOp, WritePhase,
};

verus! {

/// What an abort has to know of a write: the blocks that it marked.
#[derive(Debug)]
pub struct WriteCompletionRecords {
    /// The blocks.
    pub tfp_records: Vec<TfpRecord>,
}

/// The mappings with the recorded blocks put back, in order.
pub open spec fn reverted(
    mappings: Seq<InternalBlockMapping>,
    records: Seq<TfpRecord>,
) -> Seq<InternalBlockMapping>
    decreases records.len(),
{
    if records.len() == 0 {
        mappings
    } else {
        reverted(mappings, records.drop_last()).update(
            records.last().block_number as int,
            records.last().original_mapping,
        )
    }
}

/// The newly allocated space of the recorded blocks, in order.
pub open spec fn record_releases(records: Seq<TfpRecord>, length: u32) -> Seq<SpaceRelease>
    decreases records.len(),
{
    if records.len() == 0 {
        Seq::empty()
    } else {
        let before = record_releases(records.drop_last(), length);
        match records.last().allocated_offset {
            Some(file_offset) => before.push(SpaceRelease { file_offset, length }),
            None => before,
        }
    }
}

impl WriteOp {
    /// Gives the write up after a failure: every block that it marked is put
    /// back as it was. Returns the newly allocated space, to be released.
    /// Space that a trimmed block had reclaimed stays its own. The caller
    /// wakes whoever waits for a block.
    pub fn fail(self, disk: &VhdxFile, state: &mut BatState) -> (r: Vec<SpaceRelease>)
        requires
            disk.wf(),
            state_of_disk(*disk, *old(state)),
            self.wf(*disk),
        ensures
            state_of_disk(*disk, *final(state)),
            final(state).payload_mappings@ == reverted(
                old(state).payload_mappings@,
                self.tfp_records@,
            ),
            final(state).sector_bitmap_mappings@ == old(state).sector_bitmap_mappings@,
            r@ == record_releases(self.tfp_records@, disk.block_size),
    {
        let records = self.tfp_records;
        let mut releases: Vec<SpaceRelease> = Vec::new();
        let ghost before = state.payload_mappings@;
        let ghost bitmaps = state.sector_bitmap_mappings@;
        assert(records@.subrange(0, 0) == Seq::<TfpRecord>::empty());
        let mut i: usize = 0;
        while i < records.len()
            invariant
                i <= records@.len(),
                disk.wf(),
                state_of_disk(*disk, *state),
                records_valid(*disk, records@),
                state.payload_mappings@ == reverted(before, records@.subrange(0, i as int)),
                state.sector_bitmap_mappings@ == bitmaps,
                releases@ == record_releases(records@.subrange(0, i as int), disk.block_size),
            decreases records@.len() - i,
        {
            let record: TfpRecord = records[i];
            proof {
                let more = records@.subrange(0, i + 1);
                assert(more.drop_last() == records@.subrange(0, i as int));
                assert(more.last() == record);
                assert(records@[i as int].block_number < disk.bat.data_block_count);
            }
            state.set_payload_mapping(&disk.bat, record.block_number, record.original_mapping);
            match record.allocated_offset {
                Some(file_offset) => {
                    releases.push(SpaceRelease { file_offset, length: disk.block_size });
                },
                None => {},
            }
            i += 1;
        }
        assert(records@.subrange(0, i as int) == records@);
        releases
    }

    /// Ends the resolution. Returns what to write, whether the data has to be
    /// flushed before the table is logged, and what an abort has to know.
    pub fn finish(self) -> (r: (Vec<WriteRange>, bool, WriteCompletionRecords))
        requires
            self.phase == WritePhase::Finished,
        ensures
            r.0@ == self.ranges@,
            r.1 == self.needs_flush_before_log,
            r.2.tfp_records@ == self.tfp_records@,
    {
        (
            self.ranges,
            self.needs_flush_before_log,
            WriteCompletionRecords { tfp_records: self.tfp_records },
        )
    }
}

/// No two records are of the same block.
pub open spec fn records_distinct(records: Seq<TfpRecord>) -> bool {
    forall|i: int, j: int|
        0 <= i < j < records.len() ==> (#[trigger] records[i]).block_number != (
        #[trigger] records[j]).block_number
}

/// Whether one of the records is of the block.
pub open spec fn recorded(records: Seq<TfpRecord>, block: int) -> bool {
    exists|i: int| 0 <= i < records.len() && (#[trigger] records[i]).block_number == block
}

proof fn lemma_reverted(mappings: Seq<InternalBlockMapping>, records: Seq<TfpRecord>, block: int)
    requires
        records_distinct(records),
        forall|i: int|
            0 <= i < records.len() ==> (#[trigger] records[i]).block_number < mappings.len(),
        0 <= block < mappings.len(),
    ensures
        reverted(mappings, records).len() == mappings.len(),
        !recorded(records, block) ==> reverted(mappings, records)[block] == mappings[block],
        forall|i: int|
            0 <= i < records.len() && (#[trigger] records[i]).block_number == block ==> reverted(
                mappings,
                records,
            )[block] == records[i].original_mapping,
    decreases records.len(),
{
    if records.len() > 0 {
        let rest = records.drop_last();
        assert(records_distinct(rest)) by {
            assert forall|i: int, j: int| 0 <= i < j < rest.len() implies (
            #[trigger] rest[i]).block_number != (#[trigger] rest[j]).block_number by {
                assert(records[i].block_number != records[j].block_number);
            }
        }
        lemma_reverted(mappings, rest, block);
        if !recorded(records, block) {
            assert(records[records.len() - 1].block_number != block);
            assert(!recorded(rest, block)) by {
                if recorded(rest, block) {
                    let i = choose|i: int|
                        0 <= i < rest.len() && (#[trigger] rest[i]).block_number == block;
                    assert(records[i].block_number == block);
                }
            }
        }
        assert forall|i: int|
            0 <= i < records.len() && (#[trigger] records[i]).block_number
                == block implies reverted(mappings, records)[block]
            == records[i].original_mapping by {
            if i < records.len() - 1 {
                assert(rest[i].block_number == block);
                assert(records[i].block_number != records[records.len() - 1].block_number);
            }
        }
    }
}

/// Whether the block is one of a partial write that has been taken up, which
/// may have committed space to it.
pub open spec fn committed_block(disk: VhdxFile, op: WriteOp, block: int) -> bool {
    ||| exists|k: int|
        0 <= k < op.next && (#[trigger] op.pending@[k]).block_number == block && !covers_block(
            disk,
            op.pending@[k],
        )
    ||| op.phase == WritePhase::AwaitPayloadPersist && op.part().block_number == block
}

/// The write has recorded what it found of each block that it marked, each
/// once, and nothing but these blocks and those that partial writes have
/// committed differs from the table at the start.
pub open spec fn changes_recorded(
    disk: VhdxFile,
    op: WriteOp,
    start: Seq<InternalBlockMapping>,
    mappings: Seq<InternalBlockMapping>,
) -> bool {
    let records = op.tfp_records@;
    &&& start.len() == mappings.len()
    &&& records_distinct(records)
    &&& forall|i: int|
        0 <= i < records.len() ==> {
            &&& (#[trigger] records[i]).original_mapping == start[records[i].block_number as int]
            &&& mappings[records[i].block_number as int].tfp()
            &&& covered_before(disk, op, records[i].block_number as int)
        }
    &&& forall|b: int|
        0 <= b < mappings.len() && #[trigger] mappings[b] != start[b] ==> recorded(records, b)
            || committed_block(disk, op, b)
    &&& op.in_block() && op.phase != WritePhase::AwaitPayloadPersist ==> op.current->0
        == start[op.part().block_number as int]
}

/// Whether a part that is done covers the block.
pub open spec fn covered_before(disk: VhdxFile, op: WriteOp, block: int) -> bool {
    exists|k: int|
        0 <= k < op.next && (#[trigger] op.pending@[k]).block_number == block && covers_block(
            disk,
            op.pending@[k],
        )
}

/// A write that was just accepted has changed nothing.
pub proof fn law_new_write_has_changed_nothing(
    disk: VhdxFile,
    op: WriteOp,
    mappings: Seq<InternalBlockMapping>,
)
    requires
        op.phase == WritePhase::Scanning,
        op.tfp_records@.len() == 0,
    ensures
        changes_recorded(disk, op, mappings, mappings),
{
}

/// A part that is done is not of the block of the next part.
proof fn lemma_next_block_is_other(disk: VhdxFile, op: WriteOp)
    requires
        op.wf(disk),
        op.next < op.pending@.len(),
        op.phase != WritePhase::AwaitPayloadPersist,
    ensures
        !covered_before(disk, op, op.part().block_number as int),
        !committed_block(disk, op, op.part().block_number as int),
{
    assert forall|k: int| 0 <= k < op.next implies (#[trigger] op.pending@[k]).block_number
        != op.pending@[op.next as int].block_number by {}
}

/// What was done before a part is done is still done after it.
proof fn lemma_done_stays_done(disk: VhdxFile, before: WriteOp, after: WriteOp, block: int)
    requires
        before.wf(disk),
        after.pending@ == before.pending@ || before.next == 0,
        before.next <= after.next,
        before.phase != WritePhase::AwaitPayloadPersist,
    ensures
        covered_before(disk, before, block) ==> covered_before(disk, after, block),
        committed_block(disk, before, block) ==> committed_block(disk, after, block),
{
    if covered_before(disk, before, block) {
        let k = choose|k: int|
            0 <= k < before.next && (#[trigger] before.pending@[k]).block_number == block
                && covers_block(disk, before.pending@[k]);
        assert(after.pending@[k].block_number == block);
    }
    if committed_block(disk, before, block) {
        let k = choose|k: int|
            0 <= k < before.next && (#[trigger] before.pending@[k]).block_number == block
                && !covers_block(disk, before.pending@[k]);
        assert(after.pending@[k].block_number == block);
    }
}

/// A record that is added is of a new block.
proof fn lemma_record_added(
    disk: VhdxFile,
    before: WriteOp,
    start: Seq<InternalBlockMapping>,
    mappings: Seq<InternalBlockMapping>,
    record: TfpRecord,
)
    requires
        before.wf(disk),
        before.next < before.pending@.len(),
        before.phase != WritePhase::AwaitPayloadPersist,
        changes_recorded(disk, before, start, mappings),
        record.block_number == before.part().block_number,
    ensures
        records_distinct(before.tfp_records@.push(record)),
        !recorded(before.tfp_records@, record.block_number as int),
        forall|b: int|
            recorded(before.tfp_records@, b) ==> #[trigger] recorded(
                before.tfp_records@.push(record),
                b,
            ),
        recorded(before.tfp_records@.push(record), record.block_number as int),
{
    let records = before.tfp_records@;
    let pushed = records.push(record);
    lemma_next_block_is_other(disk, before);
    assert forall|i: int| 0 <= i < records.len() implies (#[trigger] records[i]).block_number
        != record.block_number by {
        assert(covered_before(disk, before, records[i].block_number as int));
    }
    assert forall|i: int, j: int| 0 <= i < j < pushed.len() implies (
    #[trigger] pushed[i]).block_number != (#[trigger] pushed[j]).block_number by {
        if j < records.len() {
            assert(records[i].block_number != records[j].block_number);
        } else {
            assert(records[i].block_number != record.block_number);
        }
    }
    assert forall|b: int| recorded(records, b) implies #[trigger] recorded(pushed, b) by {
        let i = choose|i: int| 0 <= i < records.len() && (#[trigger] records[i]).block_number == b;
        assert(pushed[i].block_number == b);
    }
    assert(pushed[records.len() as int].block_number == record.block_number);
}

/// A step of a write records what it changes. So of a run of steps,
/// with nobody else touching its blocks, the records say what each marked
/// block was at the start.
pub proof fn law_write_step_records_its_changes(
    disk: VhdxFile,
    before: WriteOp,
    state: BatState,
    event: WriteEvent,
    after: WriteOp,
    new_state: BatState,
    action: WriteAction,
    start: Seq<InternalBlockMapping>,
)
    requires
        disk.wf(),
        state_of_disk(disk, state),
        before.wf(disk),
        before.expects(event),
        changes_recorded(disk, before, start, state.payload_mappings@),
        write_step(disk, before, state, event, after, new_state, action),
        after.wf(disk),
    ensures
        changes_recorded(disk, after, start, new_state.payload_mappings@),
{
    let mappings = state.payload_mappings@;
    let new_mappings = new_state.payload_mappings@;
    let records = before.tfp_records@;
    if before.phase == WritePhase::AwaitPayloadPersist {
        let at = before.next as int;
        assert forall|b: int| #[trigger] committed_block(disk, before, b) implies committed_block(
            disk,
            after,
            b,
        ) by {
            if before.part().block_number == b {
                assert(after.pending@[at].block_number == b);
            } else {
                let k = choose|k: int|
                    0 <= k < before.next && (#[trigger] before.pending@[k]).block_number == b
                        && !covers_block(disk, before.pending@[k]);
                assert(after.pending@[k].block_number == b);
            }
        }
        assert forall|i: int| 0 <= i < records.len() implies covered_before(
            disk,
            after,
            (#[trigger] records[i]).block_number as int,
        ) by {
            let b = records[i].block_number as int;
            assert(covered_before(disk, before, b));
            let k = choose|k: int|
                0 <= k < before.next && (#[trigger] before.pending@[k]).block_number == b
                    && covers_block(disk, before.pending@[k]);
            assert(after.pending@[k].block_number == b);
        }
    } else {
        assert forall|b: int| #[trigger] committed_block(disk, before, b) implies committed_block(
            disk,
            after,
            b,
        ) by {
            lemma_done_stays_done(disk, before, after, b);
        }
        assert forall|i: int| 0 <= i < records.len() implies covered_before(
            disk,
            after,
            (#[trigger] records[i]).block_number as int,
        ) by {
            lemma_done_stays_done(disk, before, after, records[i].block_number as int);
        }
        if before.next < before.pending@.len() && before.phase != WritePhase::Scanning
            && before.phase != WritePhase::AwaitLock {
            let part = before.part();
            let block = part.block_number as int;
            let mapping = mappings[block];
            assert(part_of_disk(disk, before.pending@[before.next as int]));
            lemma_next_block_is_other(disk, before);
            assert forall|i: int| 0 <= i < records.len() implies (
            #[trigger] records[i]).block_number != block by {
                assert(covered_before(disk, before, records[i].block_number as int));
            }
            assert(!recorded(records, block));
            assert(mapping == start[block]);
            law_mapping_parts(7, true, mapping.mb(), mapping);
            if after.next > before.next {
                let new = after.tfp_records@;
                if new.len() > records.len() {
                    lemma_record_added(disk, before, start, mappings, new.last());
                    assert(new == records.push(new.last()));
                    assert(after.pending@[before.next as int].block_number == block);
                    assert(covered_before(disk, after, block));
                    if let WriteEvent::Space { file_offset, .. } = event {
                        law_mapping_parts(
                            before.current->0.spec_state(),
                            true,
                            (file_offset / MB1) as u32,
                            mapping,
                        );
                    } else if event is Reclaimed {
                        law_mapping_parts(before.current->0.spec_state(), true, mapping.mb(), mapping);
                    }
                    assert(new_mappings[block].tfp());
                    assert forall|i: int| 0 <= i < new.len() implies {
                        &&& (#[trigger] new[i]).original_mapping == start[new[i].block_number as int]
                        &&& new_mappings[new[i].block_number as int].tfp()
                        &&& covered_before(disk, after, new[i].block_number as int)
                    } by {
                        if i < records.len() {
                            assert(new[i] == records[i]);
                        }
                    }
                    assert forall|b: int|
                        0 <= b < new_mappings.len() && #[trigger] new_mappings[b]
                            != start[b] implies recorded(new, b) || committed_block(
                        disk,
                        after,
                        b,
                    ) by {
                        if b != block {
                            assert(mappings[b] != start[b]);
                        }
                    }
                }
            } else if after.phase == WritePhase::AwaitPayloadPersist {
                assert(committed_block(disk, after, block));
                assert forall|b: int|
                    0 <= b < new_mappings.len() && #[trigger] new_mappings[b]
                        != start[b] implies recorded(records, b) || committed_block(
                    disk,
                    after,
                    b,
                ) by {
                    if b != block {
                        assert(mappings[b] != start[b]);
                    }
                }
            }
        }
    }
}

/// A write that fails puts every block that it marked back as it was at the
/// start; what it has not changed stays, and so does what partial writes have
/// committed.
pub proof fn law_failed_write_restores_the_table(
    disk: VhdxFile,
    op: WriteOp,
    start: Seq<InternalBlockMapping>,
    mappings: Seq<InternalBlockMapping>,
    block: int,
)
    requires
        op.wf(disk),
        mappings.len() == disk.bat.data_block_count,
        changes_recorded(disk, op, start, mappings),
        0 <= block < mappings.len(),
    ensures
        ({
            let restored = reverted(mappings, op.tfp_records@);
            &&& restored.len() == start.len()
            &&& restored[block] == start[block] || (committed_block(disk, op, block)
                && restored[block] == mappings[block])
        }),
{
    let records = op.tfp_records@;
    lemma_reverted(mappings, records, block);
    if recorded(records, block) {
        let i = choose|i: int|
            0 <= i < records.len() && (#[trigger] records[i]).block_number == block;
        assert(reverted(mappings, records)[block] == records[i].original_mapping);
    }
}

/// The mappings with the recorded blocks put back, in order, as far as they
/// are transitioning.
pub open spec fn aborted(
    mappings: Seq<InternalBlockMapping>,
    records: Seq<TfpRecord>,
) -> Seq<InternalBlockMapping>
    decreases records.len(),
{
    if records.len() == 0 {
        mappings
    } else {
        let before = aborted(mappings, records.drop_last());
        let record = records.last();
        if before[record.block_number as int].tfp() {
            before.update(record.block_number as int, record.original_mapping)
        } else {
            before
        }
    }
}

/// The records of the blocks that an abort puts back, in order.
pub open spec fn abort_records(
    mappings: Seq<InternalBlockMapping>,
    records: Seq<TfpRecord>,
) -> Seq<TfpRecord>
    decreases records.len(),
{
    if records.len() == 0 {
        Seq::empty()
    } else {
        let before = abort_records(mappings, records.drop_last());
        if aborted(mappings, records.drop_last())[records.last().block_number as int].tfp() {
            before.push(records.last())
        } else {
            before
        }
    }
}

/// The pages of the table that hold the recorded blocks, in order.
pub open spec fn record_pages(bat: Bat, records: Seq<TfpRecord>) -> Seq<usize> {
    records.map_values(
        |record: TfpRecord|
            position_of(payload_index(bat, record.block_number as int)).page_number,
    )
}

/// What the caller does after an abort.
#[derive(Debug)]
pub struct AbortOutcome {
    /// The space to release.
    pub releases: Vec<SpaceRelease>,
    /// The pages of the table to mark as dirty, one for each block that was
    /// put back.
    pub dirty_pages: Vec<usize>,
    /// Whether to wake whoever waits for a block.
    pub notify: bool,
}

impl VhdxFile {
    /// Gives up a write whose data was not written: every block that it
    /// marked and that is still transitioning goes back to the state it had,
    /// its newly allocated space is released, and its page of the table is
    /// dirty: one that was built meanwhile holds no space for it.
    pub fn abort_write_sync(&self, state: &mut BatState, records: &WriteCompletionRecords) -> (r:
        AbortOutcome)
        requires
            self.wf(),
            state_of_disk(*self, *old(state)),
            records_valid(*self, records.tfp_records@),
        ensures
            state_of_disk(*self, *final(state)),
            final(state).sector_bitmap_mappings@ == old(state).sector_bitmap_mappings@,
            final(state).payload_mappings@ == aborted(
                old(state).payload_mappings@,
                records.tfp_records@,
            ),
            ({
                let put_back = abort_records(
                    old(state).payload_mappings@,
                    records.tfp_records@,
                );
                &&& r.releases@ == record_releases(put_back, self.block_size)
                &&& r.dirty_pages@ == record_pages(self.bat, put_back)
                &&& r.notify == (put_back.len() > 0)
            }),
    {
        let mut releases: Vec<SpaceRelease> = Vec::new();
        let mut dirty_pages: Vec<usize> = Vec::new();
        let ghost before = state.payload_mappings@;
        let ghost bitmaps = state.sector_bitmap_mappings@;
        let ghost all = records.tfp_records@;
        let mut i: usize = 0;
        assert(all.subrange(0, 0) == Seq::<TfpRecord>::empty());
        assert(record_pages(self.bat, Seq::empty()) =~= Seq::<usize>::empty());
        while i < records.tfp_records.len()
            invariant
                i <= all.len(),
                all == records.tfp_records@,
                self.wf(),
                state_of_disk(*self, *state),
                records_valid(*self, all),
                state.payload_mappings@ == aborted(before, all.subrange(0, i as int)),
                state.sector_bitmap_mappings@ == bitmaps,
                releases@ == record_releases(
                    abort_records(before, all.subrange(0, i as int)),
                    self.block_size,
                ),
                dirty_pages@ == record_pages(
                    self.bat,
                    abort_records(before, all.subrange(0, i as int)),
                ),
            decreases all.len() - i,
        {
            let record: TfpRecord = records.tfp_records[i];
            let ghost done = abort_records(before, all.subrange(0, i as int));
            proof {
                let more = all.subrange(0, i + 1);
                assert(more.drop_last() == all.subrange(0, i as int));
                assert(more.last() == record);
                assert(all[i as int].block_number < self.bat.data_block_count);
                assert(done.push(record).drop_last() =~= done);
            }
            let mapping = state.get_payload_mapping(record.block_number);
            if mapping.transitioning_to_fully_present() {
                state.set_payload_mapping(&self.bat, record.block_number, record.original_mapping);
                match record.allocated_offset {
                    Some(file_offset) => {
                        releases.push(SpaceRelease { file_offset, length: self.block_size });
                    },
                    None => {},
                }
                let entry: u32 = self.bat.block_entry_index(
                    BlockType::Payload,
                    record.block_number,
                );
                dirty_pages.push(entry_position(entry).page_number);
                assert(record_pages(self.bat, done.push(record)) =~= record_pages(
                    self.bat,
                    done,
                ).push(position_of(payload_index(self.bat, record.block_number as int)).page_number));
            }
            i += 1;
        }
        assert(all.subrange(0, i as int) == all);
        let notify = dirty_pages.len() > 0;
        AbortOutcome { releases, dirty_pages, notify }
    }
}

proof fn lemma_abort_reverts(mappings: Seq<InternalBlockMapping>, records: Seq<TfpRecord>)
    requires
        records_distinct(records),
        forall|i: int|
            0 <= i < records.len() ==> {
                &&& (#[trigger] records[i]).block_number < mappings.len()
                &&& mappings[records[i].block_number as int].tfp()
            },
    ensures
        aborted(mappings, records) == reverted(mappings, records),
        abort_records(mappings, records) == records,
    decreases records.len(),
{
    if records.len() > 0 {
        let rest = records.drop_last();
        let last = records.last();
        assert(records_distinct(rest)) by {
            assert forall|i: int, j: int| 0 <= i < j < rest.len() implies (
            #[trigger] rest[i]).block_number != (#[trigger] rest[j]).block_number by {
                assert(records[i].block_number != records[j].block_number);
            }
        }
        assert forall|i: int| 0 <= i < rest.len() implies {
            &&& (#[trigger] rest[i]).block_number < mappings.len()
            &&& mappings[rest[i].block_number as int].tfp()
        } by {
            assert(rest[i] == records[i]);
        }
        lemma_abort_reverts(mappings, rest);
        assert(records[records.len() - 1] == last);
        assert(!recorded(rest, last.block_number as int)) by {
            if recorded(rest, last.block_number as int) {
                let i = choose|i: int|
                    0 <= i < rest.len() && (#[trigger] rest[i]).block_number == last.block_number;
                assert(records[i].block_number != records[records.len() - 1].block_number);
            }
        }
        lemma_reverted(mappings, rest, last.block_number as int);
        assert(rest.push(last) =~= records);
    } else {
        assert(records =~= Seq::<TfpRecord>::empty());
    }
}

/// Aborting a write undoes it as a failure does: every block that it marked is
/// as it was at the start, all space that was newly allocated for them is
/// released and no other, and the page of each is marked as dirty.
pub proof fn law_abort_undoes_the_write(
    disk: VhdxFile,
    op: WriteOp,
    start: Seq<InternalBlockMapping>,
    mappings: Seq<InternalBlockMapping>,
    block: int,
)
    requires
        op.wf(disk),
        mappings.len() == disk.bat.data_block_count,
        changes_recorded(disk, op, start, mappings),
        0 <= block < mappings.len(),
    ensures
        ({
            let restored = aborted(mappings, op.tfp_records@);
            &&& restored.len() == start.len()
            &&& restored[block] == start[block] || (committed_block(disk, op, block)
                && restored[block] == mappings[block])
        }),
        abort_records(mappings, op.tfp_records@) == op.tfp_records@,
{
    lemma_abort_reverts(mappings, op.tfp_records@);
    law_failed_write_restores_the_table(disk, op, start, mappings, block);
}

/// An abort puts back exactly the blocks that its write recorded and that are
/// still becoming fully present: such a block gets the mapping that it had,
/// and every other keeps the one that it has.
pub proof fn law_abort_puts_back_unfinished_blocks(
    mappings: Seq<InternalBlockMapping>,
    records: Seq<TfpRecord>,
    block: int,
)
    requires
        records_distinct(records),
        forall|i: int|
            0 <= i < records.len() ==> (#[trigger] records[i]).block_number < mappings.len(),
        0 <= block < mappings.len(),
    ensures
        aborted(mappings, records).len() == mappings.len(),
        !mappings[block].tfp() ==> aborted(mappings, records)[block] == mappings[block],
        !recorded(records, block) ==> aborted(mappings, records)[block] == mappings[block],
        forall|i: int|
            0 <= i < records.len() && (#[trigger] records[i]).block_number == block
                && mappings[block].tfp() ==> aborted(mappings, records)[block]
                == records[i].original_mapping,
        abort_records(mappings, records) == records.filter(
            |record: TfpRecord| mappings[record.block_number as int].tfp(),
        ),
    decreases records.len(),
{
    reveal(Seq::filter);
    if records.len() > 0 {
        let rest = records.drop_last();
        let last = records[records.len() - 1];
        assert forall|i: int| 0 <= i < rest.len() implies (#[trigger] rest[i]).block_number
            < mappings.len() by {
            assert(rest[i] == records[i]);
        }
        assert(records_distinct(rest)) by {
            assert forall|i: int, j: int| 0 <= i < j < rest.len() implies (
            #[trigger] rest[i]).block_number != (#[trigger] rest[j]).block_number by {
                assert(records[i].block_number != records[j].block_number);
            }
        }
        law_abort_puts_back_unfinished_blocks(mappings, rest, block);
        law_abort_puts_back_unfinished_blocks(mappings, rest, last.block_number as int);
        assert(!recorded(rest, last.block_number as int)) by {
            assert forall|i: int| 0 <= i < rest.len() implies (#[trigger] rest[i]).block_number
                != last.block_number by {
                assert(records[i].block_number != records[records.len() - 1].block_number);
            }
        }
        assert forall|i: int|
            0 <= i < records.len() && (#[trigger] records[i]).block_number == block
                && mappings[block].tfp() implies aborted(mappings, records)[block]
            == records[i].original_mapping by {
            if i < rest.len() {
                assert(rest[i] == records[i]);
                assert(records[i].block_number != records[records.len() - 1].block_number);
            }
        }
        if recorded(rest, block) {
            let i = choose|i: int| 0 <= i < rest.len() && (#[trigger] rest[i]).block_number
                == block;
            assert(records[i].block_number == block);
        }
        if last.block_number == block {
            assert(recorded(records, block));
        }
    }
}

/// Waiters are woken exactly if an abort puts a block back, and then there is
/// a page to write for it.
pub proof fn law_abort_wakes_waiters(
    disk: VhdxFile,
    state: &mut BatState,
    records: WriteCompletionRecords,
    r: AbortOutcome,
)
    requires
        disk.wf(),
        state_of_disk(disk, *old(state)),
        records_valid(disk, records.tfp_records@),
        records_distinct(records.tfp_records@),
        call_ensures(VhdxFile::abort_write_sync, (&disk, state, &records), r),
    ensures
        r.notify <==> r.dirty_pages@.len() > 0,
        r.notify <==> records.tfp_records@.filter(
            |record: TfpRecord| old(state).payload_mappings@[record.block_number as int].tfp(),
        ).len() > 0,
        r.releases@.len() <= r.dirty_pages@.len(),
{
    let all = records.tfp_records@;
    let mappings = old(state).payload_mappings@;
    if all.len() > 0 {
        assert forall|i: int| 0 <= i < all.len() implies (#[trigger] all[i]).block_number
            < mappings.len() by {
            assert(all[i].block_number < disk.bat.data_block_count);
        }
        law_abort_puts_back_unfinished_blocks(mappings, all, all[0].block_number as int);
    } else {
        reveal(Seq::filter);
    }
    lemma_release_count(abort_records(mappings, all), disk.block_size);
}

proof fn lemma_release_count(records: Seq<TfpRecord>, length: u32)
    ensures
        record_releases(records, length).len() <= records.len(),
    decreases records.len(),
{
    if records.len() > 0 {
        lemma_release_count(records.drop_last(), length);
    }
}

} // verus!
