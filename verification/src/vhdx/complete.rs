//! What the ranges of a write carry, and the completion of a write whose data
//! is written.

use vstd::prelude::*;

use super::bat::{law_mapping_parts, payload_index, BatState, InternalBlockMapping};
use super::bat_page::position_of;
use super::cache::PageKey;
use super::error::VhdxError;
use super::format::BatEntryState;
use super::io::{lemma_request_in_disk, state_of_disk, WriteRange};
use super::open::VhdxFile;
use super::segment::{lemma_segments, segments_of, split_request, Segment};
use super::write::{
    covers_block, data_range, part_of_disk, partial_ranges, parts_ascend, scan_part, scan_pending,
    scan_ranges, stays_partial, NewSpace, PartPlan, SpaceState,
};

verus! {

/// A partial write into space that may hold old data sets every byte of the
/// block: zeros before the data, the data, and zeros after it, without a gap
/// and without an overlap.
pub proof fn law_partial_write_sets_the_whole_block(
    disk: VhdxFile,
    part: Segment,
    original: InternalBlockMapping,
    space: NewSpace,
)
    requires
        part_of_disk(disk, part),
        !covers_block(disk, part),
        !stays_partial(disk, original),
        space.state != SpaceState::Zero,
        space.file_offset + disk.block_size <= u64::MAX,
    ensures
        ({
            let ranges = partial_ranges(disk, part, original, space);
            let (data, tail) = if part.block_offset > 0 {
                (1int, 2int)
            } else {
                (0, 1)
            };
            let end = part.block_offset + part.block_length;
            &&& part.block_offset > 0 ==> ranges[0] == (WriteRange::Zero {
                file_offset: space.file_offset,
                length: part.block_offset,
            })
            &&& ranges[data] == (WriteRange::Data {
                guest_offset: part.virtual_offset,
                length: part.block_length,
                file_offset: (space.file_offset + part.block_offset) as u64,
            })
            &&& end < disk.block_size ==> ranges[tail] == (WriteRange::Zero {
                file_offset: (space.file_offset + end) as u64,
                length: (disk.block_size - end) as u32,
            })
            &&& ranges.len() == tail + (if end < disk.block_size {
                1int
            } else {
                0
            })
        }),
{
}

/// The bytes of the request that a range carries.
pub open spec fn carried(range: WriteRange) -> Seq<(u64, u32)> {
    match range {
        WriteRange::Data { guest_offset, length, .. } => seq![(guest_offset, length)],
        WriteRange::Zero { .. } => Seq::empty(),
    }
}

/// The bytes of the request that the ranges carry, in order.
pub open spec fn all_carried(ranges: Seq<WriteRange>) -> Seq<(u64, u32)>
    decreases ranges.len(),
{
    if ranges.len() == 0 {
        Seq::empty()
    } else {
        all_carried(ranges.drop_last()) + carried(ranges.last())
    }
}

pub(crate) proof fn lemma_all_carried_concat(a: Seq<WriteRange>, b: Seq<WriteRange>)
    ensures
        all_carried(a + b) == all_carried(a) + all_carried(b),
    decreases b.len(),
{
    if b.len() == 0 {
        assert(a + b == a);
    } else {
        assert((a + b).drop_last() == a + b.drop_last());
        lemma_all_carried_concat(a, b.drop_last());
    }
    assert(all_carried(a + b) =~= all_carried(a) + all_carried(b));
}

proof fn lemma_all_carried_one(r: WriteRange)
    ensures
        all_carried(seq![r]) == carried(r),
{
    assert(seq![r].drop_last() == Seq::<WriteRange>::empty());
    assert(all_carried(Seq::<WriteRange>::empty()) == Seq::<(u64, u32)>::empty());
    assert(all_carried(seq![r]) =~= carried(r));
}

/// Each block that is allocated writes its part of the request exactly once,
/// whichever way it is allocated.
pub proof fn law_allocated_part_is_written_once(
    disk: VhdxFile,
    part: Segment,
    original: InternalBlockMapping,
    space: NewSpace,
    before: Seq<WriteRange>,
)
    ensures
        all_carried(before + seq![data_range(part, space.file_offset as int)]) == all_carried(
            before,
        ).push((part.virtual_offset, part.block_length)),
        all_carried(before + partial_ranges(disk, part, original, space)) == all_carried(
            before,
        ).push((part.virtual_offset, part.block_length)),
{
    let pad = !stays_partial(disk, original) && space.state != SpaceState::Zero;
    let end = part.block_offset + part.block_length;
    let data = seq![data_range(part, space.file_offset as int)];
    let zero_head = WriteRange::Zero { file_offset: space.file_offset, length: part.block_offset };
    let zero_tail = WriteRange::Zero {
        file_offset: (space.file_offset + end) as u64,
        length: (disk.block_size - end) as u32,
    };
    let head = if pad && part.block_offset > 0 {
        seq![zero_head]
    } else {
        Seq::empty()
    };
    let tail = if pad && end < disk.block_size {
        seq![zero_tail]
    } else {
        Seq::empty()
    };
    assert(partial_ranges(disk, part, original, space) == head + data + tail);
    lemma_all_carried_one(data_range(part, space.file_offset as int));
    lemma_all_carried_one(zero_head);
    lemma_all_carried_one(zero_tail);
    lemma_all_carried_concat(head, data);
    lemma_all_carried_concat(head + data, tail);
    lemma_all_carried_concat(before, data);
    lemma_all_carried_concat(before, partial_ranges(disk, part, original, space));
    assert(all_carried(head) =~= Seq::<(u64, u32)>::empty());
    assert(all_carried(tail) =~= Seq::<(u64, u32)>::empty());
    assert(all_carried(head + data + tail) =~= seq![(part.virtual_offset, part.block_length)]);
    assert(all_carried(before) + seq![(part.virtual_offset, part.block_length)] =~= all_carried(
        before,
    ).push((part.virtual_offset, part.block_length)));
}

/// The bytes of the request that a part stands for.
pub open spec fn part_bytes(part: Segment) -> (u64, u32) {
    (part.virtual_offset, part.block_length)
}

/// A scan that does not have to wait loses no part of the request and takes
/// none twice: what it writes directly and what it leaves to be allocated are
/// together the parts.
pub proof fn law_scan_loses_no_part(disk: VhdxFile, state: BatState, parts: Seq<Segment>)
    requires
        forall|k: int|
            0 <= k < parts.len() ==> scan_part(disk, state, #[trigger] parts[k]) != PartPlan::Wait,
    ensures
        (all_carried(scan_ranges(disk, state, parts)) + scan_pending(disk, state, parts).map_values(
            |part: Segment| part_bytes(part),
        )).to_multiset() == parts.map_values(|part: Segment| part_bytes(part)).to_multiset(),
    decreases parts.len(),
{
    let bytes = |part: Segment| part_bytes(part);
    let direct = all_carried(scan_ranges(disk, state, parts));
    let pending = scan_pending(disk, state, parts).map_values(bytes);
    if parts.len() == 0 {
        assert(direct + pending =~= parts.map_values(bytes));
    } else {
        let rest = parts.drop_last();
        let last = parts.last();
        assert forall|k: int| 0 <= k < rest.len() implies scan_part(
            disk,
            state,
            #[trigger] rest[k],
        ) != PartPlan::Wait by {
            assert(rest[k] == parts[k]);
        }
        assert(parts[parts.len() - 1] == last);
        law_scan_loses_no_part(disk, state, rest);
        let rest_ranges = scan_ranges(disk, state, rest);
        let rest_direct = all_carried(rest_ranges);
        let rest_pending = scan_pending(disk, state, rest).map_values(bytes);
        assert(parts.map_values(bytes) =~= rest.map_values(bytes).push(part_bytes(last)));
        rest.map_values(bytes).to_multiset_ensures();
        (rest_direct + rest_pending).to_multiset_ensures();
        match scan_part(disk, state, last) {
            PartPlan::Direct(range) => {
                assert(rest_ranges.push(range) =~= rest_ranges + seq![range]);
                lemma_all_carried_concat(rest_ranges, seq![range]);
                lemma_all_carried_one(range);
                assert(direct =~= rest_direct.push(part_bytes(last)));
                vstd::seq_lib::lemma_multiset_commutative(direct, pending);
                vstd::seq_lib::lemma_multiset_commutative(rest_direct, rest_pending);
                rest_direct.to_multiset_ensures();
            },
            PartPlan::Allocate => {
                assert(pending =~= rest_pending.push(part_bytes(last)));
                vstd::seq_lib::lemma_multiset_commutative(direct, pending);
                vstd::seq_lib::lemma_multiset_commutative(rest_direct, rest_pending);
                rest_pending.to_multiset_ensures();
            },
            PartPlan::Wait => {},
        }
    }
}

/// How far a completion has come.
#[derive(Debug, Clone, Copy, PartialEq, Eq, Structural)]
pub enum CompletionPhase {
    /// The next part can be settled.
    Idle,
    /// The mapping of a block is being written.
    AwaitPersist,
    /// The sector bitmap is being updated.
    AwaitBitmap,
    /// Nothing is left to do.
    Finished,
}

/// A write whose data is written, while its blocks are settled one after the
/// other.
#[derive(Debug)]
pub struct WriteCompletion {
    /// The parts of the request.
    pub parts: Vec<Segment>,
    /// The number of parts that were taken up.
    pub next: usize,
    /// How far the completion has come.
    pub phase: CompletionPhase,
    /// Whether a block was transitioning.
    pub had_tfp: bool,
    /// Whether the data has to be flushed before the table is logged.
    pub needs_flush_before_log: bool,
    /// The failure to report.
    pub error: Option<VhdxError>,
    /// Whether an update of the sector bitmap has failed.
    pub bitmap_failed: bool,
}

/// What has happened since the last step of a completion.
#[derive(Debug)]
pub enum CompletionEvent {
    /// The completion may go on.
    Continue,
    /// The mapping was written, or was not.
    Persisted(Result<(), VhdxError>),
    /// The sector bitmap was updated, or was not.
    BitmapSet(Result<(), VhdxError>),
}

/// What the caller does next for a completion.
#[derive(Debug, Clone, Copy, PartialEq, Eq, Structural)]
pub enum CompletionAction {
    /// Go on.
    Again,
    /// Write the mapping of the block to its page of the table.
    Persist {
        /// The block.
        block_number: u32,
        /// Its mapping.
        mapping: InternalBlockMapping,
    },
    /// Mark the sectors of the part as present in the sector bitmap.
    SetBitmapBits {
        /// Byte offset within the virtual disk.
        virtual_offset: u64,
        /// Length in bytes.
        length: u32,
    },
    /// See to it that the page of the table is not logged before what is
    /// written up to now is flushed, and go on.
    RequireFlush(PageKey),
    /// The completion is finished.
    Finished,
}

/// How a completion ends.
#[derive(Debug)]
pub struct CompletionOutcome {
    /// Whether to wake whoever waits for a block.
    pub notify: bool,
    /// The result of the write.
    pub result: Result<(), VhdxError>,
}

/// The mapping of a transitioning block once its data is written.
pub open spec fn settled(mapping: InternalBlockMapping) -> InternalBlockMapping {
    InternalBlockMapping::of(6, false, mapping.mb())
}

impl WriteCompletion {
    /// The request is one of the disk, and has in hand what its phase says.
    pub open spec fn wf(self, disk: VhdxFile) -> bool {
        &&& parts_ascend(disk, self.parts@)
        &&& self.next <= self.parts.len()
        &&& self.phase == CompletionPhase::AwaitPersist ==> self.next > 0 && self.error is None
        &&& self.phase == CompletionPhase::AwaitBitmap ==> self.next > 0 && !self.bitmap_failed
        &&& self.phase == CompletionPhase::Finished ==> self.next == self.parts.len()
        &&& self.bitmap_failed ==> self.error is Some
    }

    /// The event is one that the completion waits for.
    pub open spec fn expects(self, event: CompletionEvent) -> bool {
        match event {
            CompletionEvent::Continue => self.phase == CompletionPhase::Idle,
            CompletionEvent::Persisted(_) => self.phase == CompletionPhase::AwaitPersist,
            CompletionEvent::BitmapSet(_) => self.phase == CompletionPhase::AwaitBitmap,
        }
    }
}

/// The next part is settled. A transitioning block becomes fully present
/// even after a failure; its mapping is written only if nothing failed
/// before. A block that stays partially present gets the bits of the sectors
/// that were written, unless that failed for another.
pub open spec fn settle_step(
    disk: VhdxFile,
    before: WriteCompletion,
    mappings: Seq<InternalBlockMapping>,
    after: WriteCompletion,
    new_mappings: Seq<InternalBlockMapping>,
    action: CompletionAction,
) -> bool {
    let part = before.parts@[before.next as int];
    let mapping = mappings[part.block_number as int];
    &&& after.next == before.next + 1
    &&& after.error == before.error
    &&& after.bitmap_failed == before.bitmap_failed
    &&& if mapping.tfp() {
        &&& after.had_tfp
        &&& new_mappings == mappings.update(part.block_number as int, settled(mapping))
        &&& if before.error is None {
            &&& after.phase == CompletionPhase::AwaitPersist
            &&& action == CompletionAction::Persist {
                block_number: part.block_number,
                mapping: settled(mapping),
            }
        } else {
            &&& after.phase == CompletionPhase::Idle
            &&& action == CompletionAction::Again
        }
    } else {
        &&& after.had_tfp == before.had_tfp
        &&& new_mappings == mappings
        &&& if disk.has_parent && mapping.spec_state() == 7 && !before.bitmap_failed {
            &&& after.phase == CompletionPhase::AwaitBitmap
            &&& action == CompletionAction::SetBitmapBits {
                virtual_offset: part.virtual_offset,
                length: part.block_length,
            }
        } else {
            &&& after.phase == CompletionPhase::Idle
            &&& action == CompletionAction::Again
        }
    }
}

/// One step of a completion, by what happened before it.
pub open spec fn completion_step(
    disk: VhdxFile,
    before: WriteCompletion,
    mappings: Seq<InternalBlockMapping>,
    event: CompletionEvent,
    after: WriteCompletion,
    new_mappings: Seq<InternalBlockMapping>,
    action: CompletionAction,
) -> bool {
    &&& after.parts@ == before.parts@
    &&& after.needs_flush_before_log == before.needs_flush_before_log
    &&& match event {
        CompletionEvent::Continue => if before.next == before.parts@.len() {
            &&& after.next == before.next
            &&& after.had_tfp == before.had_tfp
            &&& after.error == before.error
            &&& after.bitmap_failed == before.bitmap_failed
            &&& after.phase == CompletionPhase::Finished
            &&& action == CompletionAction::Finished
            &&& new_mappings == mappings
        } else {
            settle_step(disk, before, mappings, after, new_mappings, action)
        },
        CompletionEvent::Persisted(result) => {
            &&& after.next == before.next
            &&& after.had_tfp == before.had_tfp
            &&& after.bitmap_failed == before.bitmap_failed
            &&& after.phase == CompletionPhase::Idle
            &&& new_mappings == mappings
            &&& match result {
                Ok(_) => {
                    &&& after.error == before.error
                    &&& action == (if before.needs_flush_before_log {
                        CompletionAction::RequireFlush(
                            position_of(
                                payload_index(
                                    disk.bat,
                                    before.parts@[before.next - 1].block_number as int,
                                ),
                            ).page_key,
                        )
                    } else {
                        CompletionAction::Again
                    })
                },
                Err(e) => after.error == Some(e) && action == CompletionAction::Again,
            }
        },
        CompletionEvent::BitmapSet(result) => {
            &&& after.next == before.next
            &&& after.had_tfp == before.had_tfp
            &&& after.phase == CompletionPhase::Idle
            &&& action == CompletionAction::Again
            &&& new_mappings == mappings
            &&& match result {
                Ok(_) => {
                    &&& after.error == before.error
                    &&& after.bitmap_failed == before.bitmap_failed
                },
                Err(e) => after.error == Some(e) && after.bitmap_failed,
            }
        },
    }
}

impl VhdxFile {
    /// Starts to settle a write. A write of length zero is done at once.
    pub fn begin_completion(&self, offset: u64, len: u32, needs_flush_before_log: bool) -> (r: Option<
        WriteCompletion,
    >)
        requires
            self.wf(),
            offset + len <= self.disk_size,
        ensures
            len == 0 <==> r is None,
            r matches Some(op) ==> {
                &&& op.wf(*self)
                &&& op.parts@ == segments_of(self.block_size as int, offset as int, offset + len)
                &&& op.next == 0
                &&& op.phase == CompletionPhase::Idle
                &&& !op.had_tfp
                &&& op.needs_flush_before_log == needs_flush_before_log
                &&& op.error is None
                &&& !op.bitmap_failed
            },
    {
        if len == 0 {
            return None;
        }
        proof {
            lemma_request_in_disk(*self, offset, len);
            lemma_segments(self.block_size, offset, len);
        }
        Some(
            WriteCompletion {
                parts: split_request(self.block_size, offset, len),
                next: 0,
                phase: CompletionPhase::Idle,
                had_tfp: false,
                needs_flush_before_log,
                error: None,
                bitmap_failed: false,
            },
        )
    }

    /// Settles a write, one step at a time: takes what happened since the
    /// last step, and returns what to do next. A failure is kept until every
    /// part is settled, so that nobody waits for a block in vain: nothing more
    /// is written to the table then, and after one to update the sector
    /// bitmap, which is the one that is reported, none of its bits either.
    pub fn complete_write_inner(
        &self,
        op: &mut WriteCompletion,
        state: &mut BatState,
        event: CompletionEvent,
    ) -> (r: CompletionAction)
        requires
            self.wf(),
            state_of_disk(*self, *old(state)),
            old(op).wf(*self),
            old(op).expects(event),
        ensures
            state_of_disk(*self, *final(state)),
            final(state).sector_bitmap_mappings@ == old(state).sector_bitmap_mappings@,
            final(op).wf(*self),
            completion_step(
                *self,
                *old(op),
                old(state).payload_mappings@,
                event,
                *final(op),
                final(state).payload_mappings@,
                r,
            ),
    {
        match event {
            CompletionEvent::Continue => {
                if op.next == op.parts.len() {
                    op.phase = CompletionPhase::Finished;
                    return CompletionAction::Finished;
                }
                op.settle_part(self, state)
            },
            CompletionEvent::Persisted(result) => {
                op.phase = CompletionPhase::Idle;
                match result {
                    Err(e) => {
                        op.error = Some(e);
                        CompletionAction::Again
                    },
                    Ok(_) => {
                        if op.needs_flush_before_log {
                            let part: Segment = op.parts[op.next - 1];
                            assert(part_of_disk(*self, op.parts@[op.next - 1]));
                            CompletionAction::RequireFlush(
                                self.bat.bat_page_key_for_block(part.block_number),
                            )
                        } else {
                            CompletionAction::Again
                        }
                    },
                }
            },
            CompletionEvent::BitmapSet(result) => {
                op.phase = CompletionPhase::Idle;
                match result {
                    Ok(_) => {},
                    Err(e) => {
                        op.error = Some(e);
                        op.bitmap_failed = true;
                    },
                }
                CompletionAction::Again
            },
        }
    }
}

impl WriteCompletion {
    /// Settles the next part.
    fn settle_part(&mut self, disk: &VhdxFile, state: &mut BatState) -> (r: CompletionAction)
        requires
            disk.wf(),
            state_of_disk(*disk, *old(state)),
            old(self).wf(*disk),
            old(self).phase == CompletionPhase::Idle,
            old(self).next < old(self).parts.len(),
        ensures
            state_of_disk(*disk, *final(state)),
            final(state).sector_bitmap_mappings@ == old(state).sector_bitmap_mappings@,
            final(self).wf(*disk),
            final(self).parts@ == old(self).parts@,
            final(self).needs_flush_before_log == old(self).needs_flush_before_log,
            settle_step(
                *disk,
                *old(self),
                old(state).payload_mappings@,
                *final(self),
                final(state).payload_mappings@,
                r,
            ),
    {
        let part: Segment = self.parts[self.next];
        assert(part_of_disk(*disk, self.parts@[self.next as int]));
        let mapping = state.get_payload_mapping(part.block_number);
        self.next = self.next + 1;
        if mapping.transitioning_to_fully_present() {
            self.had_tfp = true;
            let settled_mapping = InternalBlockMapping::new().with_state(
                BatEntryState::FullyPresent.to_raw(),
            ).with_transitioning_to_fully_present(false).with_file_megabyte(
                mapping.file_megabyte(),
            );
            proof {
                law_mapping_parts(6, false, mapping.mb(), mapping);
            }
            state.set_payload_mapping(&disk.bat, part.block_number, settled_mapping);
            if self.error.is_none() {
                self.phase = CompletionPhase::AwaitPersist;
                return CompletionAction::Persist {
                    block_number: part.block_number,
                    mapping: settled_mapping,
                };
            }
        } else if disk.has_parent && !self.bitmap_failed {
            if mapping.bat_state() == BatEntryState::PartiallyPresent {
                self.phase = CompletionPhase::AwaitBitmap;
                return CompletionAction::SetBitmapBits {
                    virtual_offset: part.virtual_offset,
                    length: part.block_length,
                };
            }
        }
        CompletionAction::Again
    }

    /// Ends the completion. Waiters are woken whenever a block was
    /// transitioning, also after a failure.
    pub fn finish(self) -> (r: CompletionOutcome)
        requires
            self.phase == CompletionPhase::Finished,
        ensures
            r.notify == self.had_tfp,
            r.result == (match self.error {
                None => Ok::<(), VhdxError>(()),
                Some(e) => Err::<(), VhdxError>(e),
            }),
    {
        CompletionOutcome {
            notify: self.had_tfp,
            result: match self.error {
                None => Ok(()),
                Some(e) => Err(e),
            },
        }
    }
}

/// Every part that a completion has taken up is settled, and one that is
/// finished has taken up all, whatever failed: if nobody else touches the
/// table, no block of them is transitioning.
pub proof fn law_completion_settles_its_blocks(
    disk: VhdxFile,
    before: WriteCompletion,
    mappings: Seq<InternalBlockMapping>,
    event: CompletionEvent,
    after: WriteCompletion,
    new_mappings: Seq<InternalBlockMapping>,
    action: CompletionAction,
    k: int,
)
    requires
        before.wf(disk),
        before.expects(event),
        mappings.len() == disk.bat.data_block_count,
        completion_step(disk, before, mappings, event, after, new_mappings, action),
        0 <= k < after.next,
        k < before.next ==> !mappings[before.parts@[k].block_number as int].tfp(),
    ensures
        !new_mappings[after.parts@[k].block_number as int].tfp(),
        after.phase == CompletionPhase::Finished ==> after.next == after.parts@.len(),
{
    assert(part_of_disk(disk, before.parts@[k]));
    if before.next < before.parts@.len() {
        let part = before.parts@[before.next as int];
        assert(part_of_disk(disk, before.parts@[before.next as int]));
        law_settled_block_keeps_its_space(mappings[part.block_number as int]);
        if k < before.next {
            assert(before.parts@[k].block_number < part.block_number);
        }
    }
}

/// A settled block is not transitioning any more, and keeps the space that the
/// write gave it.
pub proof fn law_settled_block_keeps_its_space(mapping: InternalBlockMapping)
    ensures
        !settled(mapping).tfp(),
        settled(mapping).spec_state() == 6,
        settled(mapping).mb() == mapping.mb(),
{
    law_mapping_parts(6, false, mapping.mb(), mapping);
}

/// A completion fails exactly if something went wrong on its way, for the
/// reason that it had, and wakes waiters whenever it settled a block.
pub proof fn law_completion_reports_its_failure(op: WriteCompletion, r: CompletionOutcome)
    requires
        call_ensures(WriteCompletion::finish, (op,), r),
    ensures
        r.notify <==> op.had_tfp,
        r.result is Err <==> op.error is Some,
        r.result matches Err(e) ==> op.error == Some(e),
{
}

} // verus!
