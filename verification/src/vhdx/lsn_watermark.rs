//! Progress through the log, published as a pair of a log sequence number
//! (LSN) and the FSN through which to flush to make that progress durable.

use vstd::prelude::*;

use super::error::{io_error, IoErrorKind, VhdxError};

verus! {

/// A pair of an LSN and an FSN that only grows, and can be poisoned.
#[derive(Debug)]
pub struct LsnWatermark {
    /// The LSN that was reached.
    pub lsn: u64,
    /// The FSN that goes with it.
    pub fsn: u64,
    /// Why the watermark is poisoned, if it is.
    pub failed: Option<String>,
}

/// What a caller that waits for an LSN finds.
#[derive(Debug)]
pub enum WaitStep {
    /// The LSN is reached; flush through this FSN to make it durable.
    Reached(u64),
    /// The watermark is poisoned.
    Failed(VhdxError),
    /// Wait until the watermark changes, and ask again.
    Pending,
}

impl LsnWatermark {
    /// The watermark once it was raised.
    pub open spec fn raised(self, new_lsn: u64, new_fsn: u64) -> LsnWatermark {
        LsnWatermark {
            lsn: if new_lsn > self.lsn {
                new_lsn
            } else {
                self.lsn
            },
            fsn: if new_fsn > self.fsn {
                new_fsn
            } else {
                self.fsn
            },
            ..self
        }
    }

    /// A watermark at zero.
    pub fn new() -> (r: LsnWatermark)
        ensures
            r.lsn == 0,
            r.fsn == 0,
            r.failed is None,
    {
        LsnWatermark { lsn: 0, fsn: 0, failed: None }
    }

    /// The LSN.
    pub fn get(&self) -> (r: u64)
        ensures
            r == self.lsn,
    {
        self.lsn
    }

    /// The LSN and the FSN.
    pub fn get_with_fsn(&self) -> (r: (u64, u64))
        ensures
            r == (self.lsn, self.fsn),
    {
        (self.lsn, self.fsn)
    }

    /// Raises the watermark. Neither number ever falls.
    pub fn advance(&mut self, new_lsn: u64, new_fsn: u64)
        ensures
            *final(self) == old(self).raised(new_lsn, new_fsn),
    {
        if new_lsn > self.lsn {
            self.lsn = new_lsn;
        }
        if new_fsn > self.fsn {
            self.fsn = new_fsn;
        }
    }

    /// Whether the LSN has reached `target`. A poisoned watermark fails every
    /// wait, also for what was reached before.
    pub fn wait_for(&self, target: u64) -> (r: WaitStep)
        ensures
            match self.failed {
                Some(error) => r matches WaitStep::Failed(VhdxError::Io(e)) && e.kind
                    == IoErrorKind::Other && e.message@ == error@,
                None => if self.lsn >= target {
                    r == WaitStep::Reached(self.fsn)
                } else {
                    r == WaitStep::Pending
                },
            },
    {
        if let Some(error) = &self.failed {
            return WaitStep::Failed(io_error(IoErrorKind::Other, error.as_str()));
        }
        if self.lsn >= target {
            WaitStep::Reached(self.fsn)
        } else {
            WaitStep::Pending
        }
    }

    /// Poisons the watermark.
    pub fn fail(&mut self, error: String)
        ensures
            final(self).lsn == old(self).lsn,
            final(self).fsn == old(self).fsn,
            final(self).failed == Some(error),
    {
        self.failed = Some(error);
    }
}

/// A watermark only rises: what was reached stays reached, what it is raised
/// to is reached, and the FSN covers both. A poisoned watermark stays
/// poisoned.
pub proof fn law_watermark_only_rises(mark: LsnWatermark, new_lsn: u64, new_fsn: u64)
    ensures
        ({
            let next = mark.raised(new_lsn, new_fsn);
            &&& next.lsn >= mark.lsn && next.lsn >= new_lsn
            &&& next.fsn >= mark.fsn && next.fsn >= new_fsn
            &&& next.lsn == mark.lsn || next.lsn == new_lsn
            &&& next.fsn == mark.fsn || next.fsn == new_fsn
            &&& next.failed == mark.failed
        }),
{
}

/// A waiter goes on once the watermark has reached what it waits for, with the
/// flush that covers it, and fails if the watermark has failed.
pub proof fn law_waiter_goes_on_when_reached(mark: LsnWatermark, target: u64, r: WaitStep)
    requires
        call_ensures(LsnWatermark::wait_for, (&mark, target), r),
    ensures
        r is Failed <==> mark.failed is Some,
        r is Reached <==> mark.failed is None && mark.lsn >= target,
        r matches WaitStep::Reached(fsn) ==> fsn == mark.fsn,
{
}

} // verus!
