//! What requests are refused for, what they wait for, and what space they take
//! and give back.

use vstd::prelude::*;

use super::bat::{law_indices_are_within_the_table, payload_index, Bat, BatState, BlockType};
use super::bat_page::law_position_is_that_of_the_entry;
use super::error::{CorruptionType, VhdxError};
use super::io::{state_of_disk, FlushAction, FlushEvent};
use super::log_task::{CommitAction, CommitEvent, LogTask, LogTaskError};
use super::open::VhdxFile;
use super::rollback::{record_pages, record_releases};
use super::write::{
    covers_block, first_wait, scan_part, write_step, PartPlan, SpaceRelease, TfpRecord,
    WriteAction, WriteEvent, WriteOp, WritePhase,
};

verus! {

/// A request is refused exactly if it does not start and end at sectors, which
/// counts first, or reaches beyond the disk. A write is refused for the same
/// reasons, and before all others if the disk is read-only; one without bytes
/// is nothing to do.
pub proof fn law_requests_are_refused_alike(
    disk: VhdxFile,
    offset: u64,
    len: u32,
    check: Result<(), VhdxError>,
    write: Result<Option<WriteOp>, VhdxError>,
)
    requires
        disk.wf(),
        call_ensures(VhdxFile::check_request, (&disk, offset, len), check),
        call_ensures(VhdxFile::begin_write, (&disk, offset, len), write),
    ensures
        check is Ok <==> offset as int % disk.logical_sector_size as int == 0 && len as int
            % disk.logical_sector_size as int == 0 && offset + len <= disk.disk_size,
        check matches Err(e) ==> e == VhdxError::Corrupt(
            if offset as int % disk.logical_sector_size as int != 0 || len as int
                % disk.logical_sector_size as int != 0 {
                CorruptionType::UnalignedIo
            } else {
                CorruptionType::ReadBeyondEndOfDisk
            },
        ),
        disk.read_only ==> write == Err::<Option<WriteOp>, VhdxError>(VhdxError::ReadOnly),
        !disk.read_only && len == 0 ==> write == Ok::<Option<WriteOp>, VhdxError>(None),
        !disk.read_only && len > 0 ==> match check {
            Err(e) => write == Err::<Option<WriteOp>, VhdxError>(e),
            Ok(_) => write matches Ok(Some(op)) && op.phase == WritePhase::Scanning && op.offset
                == offset && op.len == len,
        },
{
}

/// A flush commits what is cached, waits until that is logged and then flushes
/// the file. A disk that is read-only has nothing to flush.
pub proof fn law_flush_goes_through_the_log(
    disk: VhdxFile,
    lsn: u64,
    start: Result<FlushAction, VhdxError>,
    committed: Result<FlushAction, VhdxError>,
    logged: Result<FlushAction, VhdxError>,
    flushed: Result<FlushAction, VhdxError>,
)
    requires
        call_ensures(VhdxFile::flush, (&disk, FlushEvent::Start), start),
        call_ensures(VhdxFile::flush, (&disk, FlushEvent::Committed(lsn)), committed),
        call_ensures(VhdxFile::flush, (&disk, FlushEvent::Logged), logged),
        call_ensures(VhdxFile::flush, (&disk, FlushEvent::Flushed), flushed),
    ensures
        start is Err <==> disk.read_only,
        start matches Err(e) ==> e == VhdxError::ReadOnly,
        start matches Ok(action) ==> action == FlushAction::Commit,
        committed == Ok::<FlushAction, VhdxError>(FlushAction::WaitLogged(lsn)),
        logged == Ok::<FlushAction, VhdxError>(FlushAction::Flush),
        flushed == Ok::<FlushAction, VhdxError>(FlushAction::Done),
{
}

/// A transaction is logged after the flush that it needs, and published once
/// it is written. One that does not fit waits for the oldest one to be
/// applied and for that to be flushed, and is then written again; without any
/// that it could wait for, it never will fit.
pub proof fn law_transaction_is_logged_in_order(
    task: LogTask,
    pre_log_fsn: Option<u64>,
    page_count: usize,
    fits: bool,
    fsn: u64,
    start: Result<CommitAction, LogTaskError>,
    flushed: Result<CommitAction, LogTaskError>,
    written: Result<CommitAction, LogTaskError>,
    applied: Result<CommitAction, LogTaskError>,
    moved: Result<CommitAction, LogTaskError>,
)
    requires
        call_ensures(
            LogTask::handle_commit,
            (&task, pre_log_fsn, page_count, CommitEvent::Start),
            start,
        ),
        call_ensures(
            LogTask::handle_commit,
            (&task, pre_log_fsn, page_count, CommitEvent::Flushed),
            flushed,
        ),
        call_ensures(
            LogTask::handle_commit,
            (&task, pre_log_fsn, page_count, CommitEvent::Written(fits)),
            written,
        ),
        call_ensures(
            LogTask::handle_commit,
            (&task, pre_log_fsn, page_count, CommitEvent::Applied(fsn)),
            applied,
        ),
        call_ensures(
            LogTask::handle_commit,
            (&task, pre_log_fsn, page_count, CommitEvent::TailsMoved),
            moved,
        ),
    ensures
        pre_log_fsn matches Some(needed) ==> start == Ok::<CommitAction, LogTaskError>(
            CommitAction::Flush(needed),
        ),
        pre_log_fsn is None ==> start == Ok::<CommitAction, LogTaskError>(CommitAction::WriteEntry),
        flushed == Ok::<CommitAction, LogTaskError>(CommitAction::WriteEntry),
        fits ==> written == Ok::<CommitAction, LogTaskError>(CommitAction::Publish),
        !fits && task@.len() > 0 ==> written == Ok::<CommitAction, LogTaskError>(
            CommitAction::WaitApplied(task@[0].lsn),
        ),
        !fits && task@.len() == 0 ==> written == Err::<CommitAction, LogTaskError>(
            LogTaskError::TransactionTooBig(page_count),
        ),
        applied == Ok::<CommitAction, LogTaskError>(CommitAction::FlushTails(fsn)),
        moved == Ok::<CommitAction, LogTaskError>(CommitAction::WriteEntry),
{
}

proof fn lemma_first_wait(
    disk: VhdxFile,
    state: BatState,
    parts: Seq<super::segment::Segment>,
    from: int,
    k: int,
)
    requires
        0 <= from <= parts.len(),
    ensures
        ({
            let stop = first_wait(disk, state, parts, from);
            &&& from <= stop <= parts.len()
            &&& from <= k < stop ==> scan_part(disk, state, parts[k]) != PartPlan::Wait
            &&& stop < parts.len() ==> scan_part(disk, state, parts[stop]) == PartPlan::Wait
        }),
    decreases parts.len() - from,
{
    if from < parts.len() && scan_part(disk, state, parts[from]) != PartPlan::Wait {
        lemma_first_wait(disk, state, parts, from + 1, k);
    }
}

/// A write waits for the first of its blocks that another write is making
/// fully present, and for no other; it goes on once there is none. With
/// nothing left to allocate it is done, and otherwise it takes the lock.
pub proof fn law_scan_waits_for_transitioning_blocks(
    disk: VhdxFile,
    before: WriteOp,
    state: BatState,
    after: WriteOp,
    new_state: BatState,
    action: WriteAction,
    k: int,
)
    requires
        disk.wf(),
        before.wf(disk),
        before.phase == WritePhase::Scanning,
        write_step(disk, before, state, WriteEvent::Continue, after, new_state, action),
    ensures
        before.scanned <= k < after.scanned
            ==> !state.payload_mappings@[before.parts@[k].block_number as int].tfp(),
        action matches WriteAction::WaitForBlock(block) ==> {
            &&& after.scanned < before.parts@.len()
            &&& block == before.parts@[after.scanned as int].block_number
            &&& state.payload_mappings@[block as int].tfp()
            &&& after.phase == WritePhase::Scanning
        },
        !(action is WaitForBlock) ==> {
            &&& after.scanned == before.parts@.len()
            &&& action == (if after.pending@.len() == 0 {
                WriteAction::Finished
            } else {
                WriteAction::Lock
            })
        },
{
    lemma_first_wait(disk, state, before.parts@, before.scanned as int, k);
}

/// A write keeps the lock exactly if none of the blocks that it has to
/// allocate is being made fully present by another.
pub proof fn law_lock_is_kept_without_overlap(
    disk: VhdxFile,
    before: WriteOp,
    state: BatState,
    after: WriteOp,
    new_state: BatState,
    action: WriteAction,
)
    requires
        before.phase == WritePhase::AwaitLock,
        before.wf(disk),
        write_step(disk, before, state, WriteEvent::Locked, after, new_state, action),
    ensures
        action is Again || action is UnlockAndWait,
        action is UnlockAndWait <==> exists|k: int|
            0 <= k < before.pending@.len() && state.payload_mappings@[(
            #[trigger] before.pending@[k]).block_number as int].tfp(),
        after.phase == (if action is Again {
            WritePhase::Idle
        } else {
            WritePhase::AwaitLock
        }),
{
}

/// Space that a write takes from the allocator for a block that it covers is
/// recorded with it, for the block and with the mapping that the block had;
/// space that the block had before is not, and nothing else is recorded.
pub proof fn law_record_owns_the_new_space(
    disk: VhdxFile,
    before: WriteOp,
    state: BatState,
    event: WriteEvent,
    after: WriteOp,
    new_state: BatState,
    action: WriteAction,
)
    requires
        disk.wf(),
        state_of_disk(disk, state),
        before.wf(disk),
        before.expects(event),
        write_step(disk, before, state, event, after, new_state, action),
    ensures
        ({
            let covered = before.in_block() && covers_block(disk, before.part());
            match event {
                WriteEvent::Space { file_offset, .. } => if covered {
                    after.tfp_records@ == before.tfp_records@.push(
                        TfpRecord {
                            block_number: before.part().block_number,
                            original_mapping: before.current->0,
                            allocated_offset: Some(file_offset),
                        },
                    )
                } else {
                    after.tfp_records@ == before.tfp_records@
                },
                WriteEvent::Reclaimed(true) => if covered {
                    after.tfp_records@ == before.tfp_records@.push(
                        TfpRecord {
                            block_number: before.part().block_number,
                            original_mapping: before.current->0,
                            allocated_offset: None,
                        },
                    )
                } else {
                    after.tfp_records@ == before.tfp_records@
                },
                WriteEvent::Continue => after.tfp_records@ == before.tfp_records@ || (
                before.phase == WritePhase::Idle && {
                    let part = before.part();
                    let mapping = state.payload_mappings@[part.block_number as int];
                    &&& covers_block(disk, part)
                    &&& mapping.spec_state() == 7
                    &&& after.tfp_records@ == before.tfp_records@.push(
                        TfpRecord {
                            block_number: part.block_number,
                            original_mapping: mapping,
                            allocated_offset: None,
                        },
                    )
                }),
                _ => after.tfp_records@ == before.tfp_records@,
            }
        }),
{
}

/// The space that a failed or aborted write gives back is the space of the
/// length of a block that it took from the allocator, each once.
pub proof fn law_taken_space_is_given_back(
    records: Seq<TfpRecord>,
    length: u32,
    file_offset: u64,
)
    ensures
        record_releases(records, length).contains(SpaceRelease { file_offset, length })
            <==> exists|i: int|
            0 <= i < records.len() && (#[trigger] records[i]).allocated_offset == Some(file_offset),
        forall|k: int|
            0 <= k < record_releases(records, length).len() ==> (#[trigger] record_releases(
                records,
                length,
            )[k]).length == length,
        record_releases(records, length).len() == records.filter(
            |record: TfpRecord| record.allocated_offset is Some,
        ).len(),
    decreases records.len(),
{
    reveal(Seq::filter);
    let release = SpaceRelease { file_offset, length };
    let all = record_releases(records, length);
    if records.len() > 0 {
        let rest = records.drop_last();
        let last = records[records.len() - 1];
        law_taken_space_is_given_back(rest, length, file_offset);
        let before = record_releases(rest, length);
        if let Some(taken) = last.allocated_offset {
            let new = SpaceRelease { file_offset: taken, length };
            assert(all == before.push(new));
            assert(all[before.len() as int] == new);
            if before.contains(release) {
                let k = choose|k: int| 0 <= k < before.len() && before[k] == release;
                assert(all[k] == release);
            }
            if all.contains(release) && new != release {
                let k = choose|k: int| 0 <= k < all.len() && all[k] == release;
                assert(before[k] == release);
            }
        }
        if before.contains(release) {
            let i = choose|i: int|
                0 <= i < rest.len() && (#[trigger] rest[i]).allocated_offset == Some(file_offset);
            assert(records[i] == rest[i]);
        }
        assert forall|i: int|
            0 <= i < rest.len() && (#[trigger] records[i]).allocated_offset == Some(
                file_offset,
            ) implies before.contains(release) by {
            assert(rest[i] == records[i]);
        }
    }
}

/// The pages that an aborted write makes dirty are those that hold the entries
/// of the blocks that it puts back.
pub proof fn law_page_of_a_record_holds_its_entry(bat: Bat, records: Seq<TfpRecord>, i: int)
    requires
        bat.wf(),
        0 <= i < records.len(),
        records[i].block_number < bat.data_block_count,
    ensures
        record_pages(bat, records).len() == records.len(),
        ({
            let block = records[i].block_number as int;
            let at = 8 * (block + block / bat.chunk_ratio as int);
            let page = record_pages(bat, records)[i] as int;
            4096 * page <= at && at + 8 <= 4096 * (page + 1)
        }),
{
    law_indices_are_within_the_table(bat, BlockType::Payload, records[i].block_number);
    law_position_is_that_of_the_entry(
        payload_index(bat, records[i].block_number as int) as u32,
    );
}

} // verus!
