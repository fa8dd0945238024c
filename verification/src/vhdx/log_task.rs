//! The log task: which tails of the log can be given up, and what is written
//! as one log entry.

use std::collections::VecDeque;
use std::sync::Arc;

use vstd::prelude::*;

use crate::bytes::copy_range;
use super::format::LOG_SECTOR_SIZE;
use super::lsn_watermark::LsnWatermark;

verus! {

/// A log sequence number.
#[derive(Debug, Clone, Copy, PartialEq, Eq, PartialOrd, Ord, Structural)]
pub struct Lsn {
    /// The number.
    pub value: u64,
}

impl Lsn {
    /// The LSN with the given number.
    pub fn new(value: u64) -> (r: Lsn)
        ensures
            r.value == value,
    {
        Lsn { value }
    }

    /// The LSN before the first transaction.
    pub fn zero() -> (r: Lsn)
        ensures
            r.value == 0,
    {
        Lsn { value: 0 }
    }
}

/// Data to be logged and then written at a file offset: whole log sectors.
#[derive(Debug)]
pub struct LogData {
    file_offset: u64,
    data: Arc<Vec<u8>>,
}

/// One log sector of data.
#[derive(Debug)]
pub struct DataPage {
    /// File offset at which it belongs.
    pub file_offset: u64,
    /// Its bytes.
    pub payload: Vec<u8>,
}

/// The bytes make up one or more log sectors.
pub open spec fn whole_sectors(len: int) -> bool {
    len > 0 && len % LOG_SECTOR_SIZE as int == 0
}

impl LogData {
    /// The file offset.
    pub closed spec fn offset(self) -> u64 {
        self.file_offset
    }

    /// The bytes.
    pub closed spec fn bytes(self) -> Seq<u8> {
        self.data@
    }

    /// Offset and length are multiples of the log sector size.
    pub open spec fn wf(self) -> bool {
        &&& self.offset() % LOG_SECTOR_SIZE == 0
        &&& whole_sectors(self.bytes().len() as int)
        &&& self.bytes().len() <= usize::MAX
    }

    /// Every sector starts within the range of file offsets.
    pub open spec fn in_range(self) -> bool {
        self.offset() + self.bytes().len() <= 0x1_0000_0000_0000_0000
    }

    /// The number of log sectors.
    pub open spec fn pages(self) -> int {
        self.bytes().len() as int / LOG_SECTOR_SIZE as int
    }

    /// Data for the given file offset.
    pub fn new(file_offset: u64, data: Arc<Vec<u8>>) -> (r: LogData)
        requires
            file_offset % LOG_SECTOR_SIZE == 0,
            whole_sectors(data@.len() as int),
        ensures
            r.wf(),
            r.offset() == file_offset,
            r.bytes() == data@,
    {
        assert(data.len() <= usize::MAX);
        LogData { file_offset, data }
    }

    /// The number of log sectors.
    pub fn page_count(&self) -> (r: usize)
        requires
            self.wf(),
        ensures
            r == self.pages(),
            r > 0,
            r * LOG_SECTOR_SIZE == self.bytes().len(),
    {
        self.data.len() / 4096
    }

    /// The bytes.
    pub fn data(&self) -> (r: &[u8])
        ensures
            r@ == self.bytes(),
    {
        self.data.as_slice()
    }

    /// The file offset and the bytes.
    pub fn into_parts(self) -> (r: (u64, Arc<Vec<u8>>))
        ensures
            r.0 == self.offset(),
            r.1@ == self.bytes(),
    {
        (self.file_offset, self.data)
    }
}

/// A batch of data that is logged as one entry.
#[derive(Debug)]
pub struct Transaction {
    /// The LSN of the batch.
    pub lsn: Lsn,
    /// The data.
    pub data: Vec<LogData>,
    /// The FSN through which to flush before the entry is written, if any.
    pub pre_log_fsn: Option<u64>,
}

/// Assigns LSNs to transactions.
#[derive(Debug, Clone, Copy)]
pub struct LogClient {
    /// The LSN that was assigned last.
    pub current_lsn: Lsn,
}

impl LogClient {
    /// A client that has assigned no LSN.
    pub fn new() -> (r: LogClient)
        ensures
            r.current_lsn.value == 0,
    {
        LogClient { current_lsn: Lsn::zero() }
    }

    /// The LSN that was assigned last.
    pub fn current_lsn(&self) -> (r: Lsn)
        ensures
            r == self.current_lsn,
    {
        self.current_lsn
    }

    /// The LSN that the next transaction gets.
    pub fn next_lsn(&self) -> (r: Lsn)
        requires
            self.current_lsn.value < u64::MAX,
        ensures
            r.value == self.current_lsn.value + 1,
    {
        Lsn { value: self.current_lsn.value + 1 }
    }

    /// Commits a transaction: it gets the next LSN.
    pub fn commit(&mut self, data: Vec<LogData>, pre_log_fsn: Option<u64>) -> (r: Transaction)
        requires
            old(self).current_lsn.value < u64::MAX,
        ensures
            final(self).current_lsn.value == old(self).current_lsn.value + 1,
            r.lsn == final(self).current_lsn,
            r.data@ == data@,
            r.pre_log_fsn == pre_log_fsn,
    {
        self.current_lsn = self.next_lsn();
        Transaction { lsn: self.current_lsn, data, pre_log_fsn }
    }
}

/// The log tail to move to once a transaction is applied and flushed.
#[derive(Debug, Clone, Copy, PartialEq, Eq, Structural)]
pub struct PendingTail {
    /// LSN of the transaction.
    pub lsn: Lsn,
    /// The tail.
    pub new_tail: u32,
}

/// Why the log task stops.
#[derive(Debug, Clone, Copy, PartialEq, Eq, Structural)]
pub enum LogTaskError {
    /// A flush failed.
    Flush,
    /// Another stage of the pipeline failed.
    PipelineFailed,
    /// Writing a log entry failed.
    Write,
    /// The transaction, of this many pages, does not fit the log.
    TransactionTooBig(usize),
}

/// What has happened since the last step of a commit.
#[derive(Debug, Clone, Copy, PartialEq, Eq, Structural)]
pub enum CommitEvent {
    /// The transaction has arrived.
    Start,
    /// Everything is flushed that has to be before the entry is written.
    Flushed,
    /// The entry was written, or did not fit the log.
    Written(bool),
    /// The oldest transaction is applied. Flushing through this FSN makes
    /// that durable.
    Applied(u64),
    /// What was applied is flushed, and the tails are moved.
    TailsMoved,
}

/// What the caller does next for a commit.
#[derive(Debug, Clone, Copy, PartialEq, Eq, Structural)]
pub enum CommitAction {
    /// Flush through this FSN, before the entry is written.
    Flush(u64),
    /// Write the entry.
    WriteEntry,
    /// Wait until this transaction is applied.
    WaitApplied(Lsn),
    /// Flush through this FSN, and move the tails.
    FlushTails(u64),
    /// Publish the transaction as logged, hand it on to be applied, and note
    /// its tail.
    Publish,
}

/// The tails that wait for their transactions, oldest first.
#[derive(Debug)]
pub struct LogTask {
    pending_tails: VecDeque<PendingTail>,
}

/// The number of tails at the front whose transactions are applied.
pub open spec fn applied_prefix(tails: Seq<PendingTail>, applied: u64) -> int
    decreases tails.len(),
{
    if tails.len() == 0 || tails[0].lsn.value > applied {
        0
    } else {
        1 + applied_prefix(tails.skip(1), applied)
    }
}

/// The number of tails at the front that can be moved past: those of applied
/// transactions, if what was applied is flushed.
pub open spec fn movable(
    tails: Seq<PendingTail>,
    flushed_fsn: u64,
    applied: u64,
    applied_fsn: u64,
) -> int {
    if applied_fsn <= flushed_fsn {
        applied_prefix(tails, applied)
    } else {
        0
    }
}

/// The numbers of the first `n` tails.
pub open spec fn tail_values(tails: Seq<PendingTail>, n: int) -> Seq<u32> {
    Seq::new(n as nat, |i: int| tails[i].new_tail)
}

proof fn lemma_applied_prefix(tails: Seq<PendingTail>, applied: u64, n: int)
    requires
        0 <= n <= tails.len(),
        forall|i: int| 0 <= i < n ==> (#[trigger] tails[i]).lsn.value <= applied,
        n == tails.len() || tails[n].lsn.value > applied,
    ensures
        applied_prefix(tails, applied) == n,
    decreases n,
{
    if n > 0 {
        assert forall|i: int| 0 <= i < n - 1 implies (#[trigger] tails.skip(1)[i]).lsn.value
            <= applied by {
            assert(tails.skip(1)[i] == tails[i + 1]);
        }
        lemma_applied_prefix(tails.skip(1), applied, n - 1);
    }
}

impl LogTask {
    /// The pending tails.
    pub closed spec fn view(&self) -> Seq<PendingTail> {
        self.pending_tails@
    }

    /// A log task without pending tails.
    pub fn new() -> (r: LogTask)
        ensures
            r@.len() == 0,
    {
        LogTask { pending_tails: VecDeque::new() }
    }

    /// Takes the tails to move to: those at the front whose transactions are
    /// applied, if what was applied is flushed. Returns them in order.
    pub fn advance_tails(&mut self, flushed_fsn: u64, applied: u64, applied_fsn: u64) -> (r: Vec<
        u32,
    >)
        ensures
            ({
                let n = movable(old(self)@, flushed_fsn, applied, applied_fsn);
                &&& 0 <= n <= old(self)@.len()
                &&& r@ == tail_values(old(self)@, n)
                &&& final(self)@ == old(self)@.skip(n)
            }),
    {
        let ghost before = self@;
        let mut tails: Vec<u32> = Vec::new();
        if applied_fsn > flushed_fsn {
            assert(self@ =~= before.skip(0));
            return tails;
        }
        assert(self@ =~= before.skip(0));
        while self.pending_tails.len() > 0
            invariant
                tails@.len() <= before.len(),
                self@ == before.skip(tails@.len() as int),
                tails@ == tail_values(before, tails@.len() as int),
                forall|i: int|
                    0 <= i < tails@.len() ==> (#[trigger] before[i]).lsn.value <= applied,
                before == old(self)@,
                applied_fsn <= flushed_fsn,
            decreases before.len() - tails@.len(),
        {
            let front: PendingTail = self.pending_tails[0];
            assert(front == before[tails@.len() as int]);
            if front.lsn.value > applied {
                proof {
                    lemma_applied_prefix(before, applied, tails@.len() as int);
                }
                return tails;
            }
            self.pending_tails.pop_front();
            tails.push(front.new_tail);
            assert(self@ =~= before.skip(tails@.len() as int));
        }
        proof {
            lemma_applied_prefix(before, applied, tails@.len() as int);
        }
        tails
    }

    /// What to do when the log has no room for a transaction: the LSN to wait
    /// for, so that its tail can be given up. Without a pending tail the
    /// transaction never fits.
    pub fn log_full(&self, page_count: usize) -> (r: Result<Lsn, LogTaskError>)
        ensures
            r == (if self@.len() == 0 {
                Err::<Lsn, LogTaskError>(LogTaskError::TransactionTooBig(page_count))
            } else {
                Ok::<Lsn, LogTaskError>(self@[0].lsn)
            }),
    {
        if self.pending_tails.len() == 0 {
            Err(LogTaskError::TransactionTooBig(page_count))
        } else {
            Ok(self.pending_tails[0].lsn)
        }
    }

    /// Commits a transaction, one step at a time: takes what happened since
    /// the last step, and returns what to do next. When the log is full, room
    /// is made by giving up the tail of the oldest transaction.
    pub fn handle_commit(&self, pre_log_fsn: Option<u64>, page_count: usize, event: CommitEvent) -> (r:
        Result<CommitAction, LogTaskError>)
        ensures
            match event {
                CommitEvent::Start => r == Ok::<CommitAction, LogTaskError>(
                    match pre_log_fsn {
                        Some(fsn) => CommitAction::Flush(fsn),
                        None => CommitAction::WriteEntry,
                    },
                ),
                CommitEvent::Flushed => r == Ok::<CommitAction, LogTaskError>(
                    CommitAction::WriteEntry,
                ),
                CommitEvent::Written(fits) => if fits {
                    r == Ok::<CommitAction, LogTaskError>(CommitAction::Publish)
                } else if self@.len() == 0 {
                    r == Err::<CommitAction, LogTaskError>(
                        LogTaskError::TransactionTooBig(page_count),
                    )
                } else {
                    r == Ok::<CommitAction, LogTaskError>(
                        CommitAction::WaitApplied(self@[0].lsn),
                    )
                },
                CommitEvent::Applied(fsn) => r == Ok::<CommitAction, LogTaskError>(
                    CommitAction::FlushTails(fsn),
                ),
                CommitEvent::TailsMoved => r == Ok::<CommitAction, LogTaskError>(
                    CommitAction::WriteEntry,
                ),
            },
    {
        match event {
            CommitEvent::Start => match pre_log_fsn {
                Some(fsn) => Ok(CommitAction::Flush(fsn)),
                None => Ok(CommitAction::WriteEntry),
            },
            CommitEvent::Flushed | CommitEvent::TailsMoved => Ok(CommitAction::WriteEntry),
            CommitEvent::Written(fits) => {
                if fits {
                    return Ok(CommitAction::Publish);
                }
                match self.log_full(page_count) {
                    Ok(lsn) => Ok(CommitAction::WaitApplied(lsn)),
                    Err(e) => Err(e),
                }
            },
            CommitEvent::Applied(fsn) => Ok(CommitAction::FlushTails(fsn)),
        }
    }

    /// Publishes a transaction once its entry is written: the log has reached
    /// its LSN, durable once flushed through `wal_fsn`, and its tail is the
    /// head of the log behind it. Returns what is handed on to be applied.
    pub fn publish(
        &mut self,
        logged_lsn: &mut LsnWatermark,
        transaction: Transaction,
        new_tail: u32,
        wal_fsn: u64,
    ) -> (r: (Lsn, Vec<LogData>))
        ensures
            final(self)@ == old(self)@.push(PendingTail { lsn: transaction.lsn, new_tail }),
            *final(logged_lsn) == old(logged_lsn).raised(transaction.lsn.value, wal_fsn),
            r.0 == transaction.lsn,
            r.1@ == transaction.data@,
    {
        logged_lsn.advance(transaction.lsn.value, wal_fsn);
        self.pending_tails.push_back(PendingTail { lsn: transaction.lsn, new_tail });
        (transaction.lsn, transaction.data)
    }

    /// The LSN that has to be applied before the task can be closed, if any.
    pub fn close_target(&self) -> (r: Option<Lsn>)
        ensures
            r == (if self@.len() == 0 {
                None
            } else {
                Some(self@.last().lsn)
            }),
    {
        let n: usize = self.pending_tails.len();
        if n == 0 {
            None
        } else {
            Some(self.pending_tails[n - 1].lsn)
        }
    }

    /// Closes the task once everything is applied and flushed: takes all
    /// tails, in order.
    pub fn drain(&mut self) -> (r: Vec<u32>)
        ensures
            r@ == tail_values(old(self)@, old(self)@.len() as int),
            final(self)@.len() == 0,
    {
        let ghost before = self@;
        let mut tails: Vec<u32> = Vec::new();
        assert(self@ =~= before.skip(0));
        while self.pending_tails.len() > 0
            invariant
                tails@.len() <= before.len(),
                self@ == before.skip(tails@.len() as int),
                tails@ == tail_values(before, tails@.len() as int),
            decreases before.len() - tails@.len(),
        {
            let front: PendingTail = self.pending_tails[0];
            assert(front == before[tails@.len() as int]);
            self.pending_tails.pop_front();
            tails.push(front.new_tail);
            assert(self@ =~= before.skip(tails@.len() as int));
        }
        tails
    }
}

/// The tails only move past transactions that are applied, and only if what
/// was applied is flushed; then they move past all of them that are at the
/// front.
pub proof fn law_tails_move_past_applied_entries(
    tails: Seq<PendingTail>,
    flushed_fsn: u64,
    applied: u64,
    applied_fsn: u64,
)
    ensures
        ({
            let n = movable(tails, flushed_fsn, applied, applied_fsn);
            &&& 0 <= n <= tails.len()
            &&& n > 0 ==> applied_fsn <= flushed_fsn
            &&& forall|i: int| 0 <= i < n ==> (#[trigger] tails[i]).lsn.value <= applied
            &&& n < tails.len() ==> tails[n].lsn.value > applied || applied_fsn > flushed_fsn
        }),
    decreases tails.len(),
{
    if applied_fsn <= flushed_fsn && tails.len() > 0 && tails[0].lsn.value <= applied {
        let rest = tails.skip(1);
        law_tails_move_past_applied_entries(rest, flushed_fsn, applied, applied_fsn);
        assert forall|i: int| 0 <= i < applied_prefix(tails, applied) implies (
        #[trigger] tails[i]).lsn.value <= applied by {
            if i > 0 {
                assert(tails[i] == rest[i - 1]);
            }
        }
    }
}

/// The number of log sectors of the data.
pub open spec fn total_pages(data: Seq<LogData>) -> int
    decreases data.len(),
{
    if data.len() == 0 {
        0
    } else {
        total_pages(data.drop_last()) + data.last().pages()
    }
}

/// Sector `i` of the data.
pub open spec fn sector(data: LogData, i: int) -> (int, Seq<u8>) {
    (data.offset() + i * LOG_SECTOR_SIZE, data.bytes().subrange(
        i * LOG_SECTOR_SIZE,
        (i + 1) * LOG_SECTOR_SIZE,
    ))
}

/// The first `n` sectors of the data, with their offsets.
pub open spec fn sectors_of(data: LogData, n: int) -> Seq<(int, Seq<u8>)> {
    Seq::new(n as nat, |i: int| sector(data, i))
}

/// All sectors of all data, in order.
pub open spec fn all_sectors(data: Seq<LogData>) -> Seq<(int, Seq<u8>)>
    decreases data.len(),
{
    if data.len() == 0 {
        Seq::empty()
    } else {
        all_sectors(data.drop_last()) + sectors_of(data.last(), data.last().pages())
    }
}

/// What a page says.
pub open spec fn page_view(page: DataPage) -> (int, Seq<u8>) {
    (page.file_offset as int, page.payload@)
}

fn push_sectors(data: &LogData, out: &mut Vec<DataPage>)
    requires
        data.wf(),
        data.in_range(),
    ensures
        final(out)@.map_values(|p: DataPage| page_view(p)) == old(out)@.map_values(
            |p: DataPage| page_view(p),
        ) + sectors_of(*data, data.pages()),
{
    let count: usize = data.page_count();
    let bytes = data.data();
    let offset: u64 = data.file_offset;
    let ghost before = out@.map_values(|p: DataPage| page_view(p));
    let mut i: usize = 0;
    assert(count * 4096 == data.bytes().len());
    while i < count
        invariant
            i <= count,
            count == data.pages(),
            count * 4096 == data.bytes().len() <= usize::MAX,
            bytes@ == data.bytes(),
            offset == data.offset(),
            data.in_range(),
            out@.map_values(|p: DataPage| page_view(p)) == before + sectors_of(*data, i as int),
        decreases count - i,
    {
        assert(i * 4096 + 4096 <= count * 4096);
        let payload = copy_range(bytes, i * 4096, i * 4096 + 4096);
        let page = DataPage { file_offset: offset + (i * 4096) as u64, payload };
        let ghost held = out@;
        assert(page_view(page) == sector(*data, i as int));
        out.push(page);
        assert(out@.map_values(|p: DataPage| page_view(p)) =~= held.map_values(
            |p: DataPage| page_view(p),
        ).push(page_view(page)));
        assert(sectors_of(*data, i + 1) =~= sectors_of(*data, i as int).push(
            sector(*data, i as int),
        ));
        i += 1;
    }
}

/// Cuts the data of a transaction into the sectors of a log entry.
pub fn data_pages(data: &Vec<LogData>) -> (r: Vec<DataPage>)
    requires
        forall|i: int| 0 <= i < data@.len() ==> (#[trigger] data@[i]).wf() && data@[i].in_range(),
    ensures
        r@.map_values(|p: DataPage| page_view(p)) == all_sectors(data@),
{
    let mut out: Vec<DataPage> = Vec::new();
    let mut i: usize = 0;
    assert(data@.subrange(0, 0) =~= Seq::empty());
    assert(out@.map_values(|p: DataPage| page_view(p)) =~= Seq::empty());
    while i < data.len()
        invariant
            i <= data@.len(),
            forall|k: int|
                0 <= k < data@.len() ==> (#[trigger] data@[k]).wf() && data@[k].in_range(),
            out@.map_values(|p: DataPage| page_view(p)) == all_sectors(
                data@.subrange(0, i as int),
            ),
        decreases data@.len() - i,
    {
        proof {
            let more = data@.subrange(0, i + 1);
            assert(more.drop_last() =~= data@.subrange(0, i as int));
            assert(more.last() == data@[i as int]);
        }
        push_sectors(&data[i], &mut out);
        i += 1;
    }
    assert(data@.subrange(0, i as int) =~= data@);
    out
}

/// A log entry has one sector for each page of its data.
pub proof fn law_entry_has_all_pages(data: Seq<LogData>)
    requires
        forall|i: int| 0 <= i < data.len() ==> (#[trigger] data[i]).wf(),
    ensures
        all_sectors(data).len() == total_pages(data),
        data.len() <= total_pages(data),
    decreases data.len(),
{
    if data.len() > 0 {
        assert(data[data.len() - 1].wf());
        assert forall|i: int| 0 <= i < data.len() - 1 implies (
        #[trigger] data.drop_last()[i]).wf() by {
            assert(data[i].wf());
        }
        law_entry_has_all_pages(data.drop_last());
    }
}

/// The number of log sectors of the data.
pub fn page_total(data: &Vec<LogData>) -> (r: usize)
    requires
        forall|i: int| 0 <= i < data@.len() ==> (#[trigger] data@[i]).wf(),
        total_pages(data@) <= usize::MAX,
    ensures
        r == total_pages(data@),
{
    let mut total: usize = 0;
    let mut i: usize = 0;
    assert(data@.subrange(0, 0) =~= Seq::empty());
    while i < data.len()
        invariant
            i <= data@.len(),
            forall|k: int| 0 <= k < data@.len() ==> (#[trigger] data@[k]).wf(),
            total_pages(data@) <= usize::MAX,
            total == total_pages(data@.subrange(0, i as int)),
        decreases data@.len() - i,
    {
        proof {
            let more = data@.subrange(0, i + 1);
            assert(more.drop_last() =~= data@.subrange(0, i as int));
            assert(more.last() == data@[i as int]);
            lemma_total_pages_prefix(data@, i + 1);
        }
        total += data[i].page_count();
        i += 1;
    }
    assert(data@.subrange(0, i as int) =~= data@);
    total
}

proof fn lemma_total_pages_prefix(data: Seq<LogData>, n: int)
    requires
        0 <= n <= data.len(),
        forall|i: int| 0 <= i < data.len() ==> (#[trigger] data[i]).wf(),
    ensures
        total_pages(data.subrange(0, n)) <= total_pages(data),
    decreases data.len(),
{
    if n == data.len() {
        assert(data.subrange(0, n) =~= data);
    } else {
        let rest = data.drop_last();
        assert forall|i: int| 0 <= i < rest.len() implies (#[trigger] rest[i]).wf() by {
            assert(data[i].wf());
        }
        lemma_total_pages_prefix(rest, n);
        assert(rest.subrange(0, n) =~= data.subrange(0, n));
        assert(data[data.len() - 1].wf());
    }
}

/// Each byte of what is logged is in one sector, at the place in the file that
/// it is for: byte `j` is byte `j % 4096` of the sector `j / 4096`, which is
/// for the offset of the data and as many sectors on.
pub proof fn law_sectors_hold_the_data(data: LogData, j: int)
    requires
        data.wf(),
        0 <= j < data.bytes().len(),
    ensures
        ({
            let sectors = sectors_of(data, data.pages());
            let (place, bytes) = sectors[j / 4096];
            &&& 0 <= j / 4096 < sectors.len()
            &&& bytes.len() == 4096
            &&& bytes[j % 4096] == data.bytes()[j]
            &&& place == data.offset() + 4096 * (j / 4096)
        }),
        4096 * sectors_of(data, data.pages()).len() == data.bytes().len(),
{
}

/// The sectors of what is logged come one after the other, those of earlier
/// data first and none left out.
pub proof fn law_sectors_come_in_order(data: Seq<LogData>, k: int, i: int)
    requires
        forall|n: int| 0 <= n < data.len() ==> (#[trigger] data[n]).wf(),
        0 <= k < data.len(),
        0 <= i < data[k].bytes().len() as int / 4096,
    ensures
        ({
            let at = all_sectors(data.take(k)).len() + i;
            &&& at < all_sectors(data).len()
            &&& all_sectors(data)[at] == sectors_of(data[k], data[k].pages())[i]
        }),
    decreases data.len(),
{
    let rest = data.drop_last();
    if k < data.len() - 1 {
        assert forall|n: int| 0 <= n < rest.len() implies (#[trigger] rest[n]).wf() by {
            assert(rest[n] == data[n]);
        }
        law_sectors_come_in_order(rest, k, i);
        assert(rest.take(k) =~= data.take(k));
        assert(rest[k] == data[k]);
    } else {
        assert(data.take(k) =~= rest);
    }
}

/// The number of bytes of what is logged.
pub open spec fn total_bytes(data: Seq<LogData>) -> int
    decreases data.len(),
{
    if data.len() == 0 {
        0
    } else {
        total_bytes(data.drop_last()) + data.last().bytes().len()
    }
}

/// What is logged takes one sector for each 4096 bytes.
pub proof fn law_entry_has_a_sector_for_each_page(data: Seq<LogData>)
    requires
        forall|n: int| 0 <= n < data.len() ==> (#[trigger] data[n]).wf(),
    ensures
        4096 * total_pages(data) == total_bytes(data),
        all_sectors(data).len() == total_pages(data),
    decreases data.len(),
{
    law_entry_has_all_pages(data);
    if data.len() > 0 {
        let rest = data.drop_last();
        assert forall|n: int| 0 <= n < rest.len() implies (#[trigger] rest[n]).wf() by {
            assert(rest[n] == data[n]);
        }
        law_entry_has_a_sector_for_each_page(rest);
        assert(data[data.len() - 1].wf());
    }
}

/// The tails that are moved are the oldest ones, each to where its entry says.
pub proof fn law_tails_move_in_order(tails: Seq<PendingTail>, n: int, i: int)
    requires
        0 <= i < n <= tails.len(),
    ensures
        tail_values(tails, n).len() == n,
        tail_values(tails, n)[i] == tails[i].new_tail,
{
}

/// A transaction gets the number after the one before it, and holds what was
/// committed.
pub proof fn law_transactions_are_numbered_in_order(
    client: &mut LogClient,
    data: Vec<LogData>,
    pre_log_fsn: Option<u64>,
    r: Transaction,
)
    requires
        old(client).current_lsn.value < u64::MAX,
        call_ensures(LogClient::commit, (client, data, pre_log_fsn), r),
    ensures
        r.lsn.value == old(client).current_lsn.value + 1,
        final(client).current_lsn == r.lsn,
        r.data@ == data@,
        r.pre_log_fsn == pre_log_fsn,
{
}

/// What is drained at the end is every tail that is left, the oldest first.
pub proof fn law_drain_takes_every_tail(task: &mut LogTask, r: Vec<u32>, i: int)
    requires
        0 <= i < old(task)@.len(),
        call_ensures(LogTask::drain, (task,), r),
    ensures
        r@.len() == old(task)@.len(),
        r@[i] == old(task)@[i].new_tail,
        final(task)@.len() == 0,
{
}

/// The log is closed once its last entry is applied.
pub proof fn law_close_waits_for_the_last_entry(task: LogTask, r: Option<Lsn>)
    requires
        call_ensures(LogTask::close_target, (&task,), r),
    ensures
        r is None <==> task@.len() == 0,
        r matches Some(lsn) ==> lsn == task@[task@.len() - 1].lsn,
{
}

} // verus!
