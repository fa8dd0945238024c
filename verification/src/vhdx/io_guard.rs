//! Guards of requests that are under way. A guard holds the refcounts of its
//! blocks, so that trim leaves them alone.

use vstd::prelude::*;

use super::refcount::BatGuard;
use super::rollback::WriteCompletionRecords;

verus! {

/// Guard of a read, to be released once the data is read.
#[derive(Debug, Clone, Copy, PartialEq, Eq, Structural)]
pub struct ReadIoGuard {
    /// The blocks.
    pub bat_guard: BatGuard,
}

impl ReadIoGuard {
    /// A guard of the given blocks.
    pub fn new(bat_guard: BatGuard) -> (r: ReadIoGuard)
        ensures
            r.bat_guard == bat_guard,
    {
        ReadIoGuard { bat_guard }
    }

    /// A guard of nothing.
    pub fn empty() -> (r: ReadIoGuard)
        ensures
            r.bat_guard.block_count == 0,
            r.bat_guard.start_block == 0,
    {
        ReadIoGuard { bat_guard: BatGuard::empty() }
    }
}

/// Guard of a write, to be completed once the data is written. If it is not,
/// the write is aborted.
#[derive(Debug)]
pub struct WriteIoGuard {
    /// The blocks.
    pub bat_guard: BatGuard,
    /// Byte offset of the write within the virtual disk.
    pub offset: u64,
    /// Length of the write in bytes.
    pub len: u32,
    /// Whether the write was completed.
    pub completed: bool,
    /// Whether the data has to be flushed before the table is logged.
    pub needs_flush_before_log: bool,
    /// What an abort has to know, if the write has allocated blocks.
    pub records: Option<WriteCompletionRecords>,
}

/// What is done when a guard goes away.
#[derive(Debug)]
pub struct GuardEnd {
    /// The write to abort first, if it is aborted.
    pub abort: Option<WriteCompletionRecords>,
    /// The blocks whose refcounts are released.
    pub release: BatGuard,
}

impl WriteIoGuard {
    /// Guard of a write that has allocated blocks.
    pub fn new(
        bat_guard: BatGuard,
        offset: u64,
        len: u32,
        needs_flush_before_log: bool,
        records: WriteCompletionRecords,
    ) -> (r: WriteIoGuard)
        ensures
            r == (WriteIoGuard {
                bat_guard,
                offset,
                len,
                completed: false,
                needs_flush_before_log,
                records: Some(records),
            }),
    {
        WriteIoGuard {
            bat_guard,
            offset,
            len,
            completed: false,
            needs_flush_before_log,
            records: Some(records),
        }
    }

    /// Guard of a write of length zero, which is complete.
    pub fn new_completed() -> (r: WriteIoGuard)
        ensures
            r == (WriteIoGuard {
                bat_guard: BatGuard { start_block: 0, block_count: 0 },
                offset: 0,
                len: 0,
                completed: true,
                needs_flush_before_log: false,
                records: None,
            }),
    {
        WriteIoGuard {
            bat_guard: BatGuard::empty(),
            offset: 0,
            len: 0,
            completed: true,
            needs_flush_before_log: false,
            records: None,
        }
    }

    /// Guard of a write that goes to blocks that have space.
    pub fn new_no_alloc(bat_guard: BatGuard, offset: u64, len: u32) -> (r: WriteIoGuard)
        ensures
            r == (WriteIoGuard {
                bat_guard,
                offset,
                len,
                completed: false,
                needs_flush_before_log: false,
                records: None,
            }),
    {
        WriteIoGuard {
            bat_guard,
            offset,
            len,
            completed: false,
            needs_flush_before_log: false,
            records: None,
        }
    }

    /// Marks the write as complete: from now on it is not aborted.
    pub fn complete(&mut self)
        ensures
            *final(self) == (WriteIoGuard { completed: true, ..*old(self) }),
    {
        self.completed = true;
    }

    /// What is done when the guard goes away: a write that is not complete is
    /// aborted if it has allocated blocks, and the refcounts are released.
    pub fn end(&mut self) -> (r: GuardEnd)
        ensures
            r.abort == (if old(self).completed {
                None
            } else {
                old(self).records
            }),
            r.release == old(self).bat_guard,
            *final(self) == (WriteIoGuard { records: None, ..*old(self) }),
    {
        let records = self.records.take();
        GuardEnd {
            abort: if self.completed {
                None
            } else {
                records
            },
            release: self.bat_guard,
        }
    }
}

/// A guard that ends gives its blocks back, and a write that did not complete
/// is aborted, once: what it recorded is then gone from the guard.
pub proof fn law_unfinished_write_is_aborted_once(guard: &mut WriteIoGuard, r: GuardEnd)
    requires
        call_ensures(WriteIoGuard::end, (guard,), r),
    ensures
        r.release == old(guard).bat_guard,
        r.abort is Some <==> !old(guard).completed && old(guard).records is Some,
        r.abort is Some ==> r.abort == old(guard).records,
        final(guard).records is None,
        final(guard).completed == old(guard).completed,
        final(guard).bat_guard == old(guard).bat_guard,
{
}

} // verus!
