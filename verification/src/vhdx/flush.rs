//! Flush sequence numbers (FSNs) and the coalescing of file flushes.
//!
//! Every flush gets the next FSN. At most one file flush runs at a time. A
//! caller whose FSN is not covered yet waits for the running one, and issues
//! a new one only if it still is not covered then. So callers that wait
//! together share one flush.

use vstd::prelude::*;

verus! {

/// State of the flushes of a file.
#[derive(Debug, Clone, Copy, PartialEq, Eq, Structural)]
pub struct FlushSequencer {
    /// The FSN that was assigned last.
    pub issued_fsn: u64,
    /// Everything up to this FSN is flushed.
    pub completed_fsn: u64,
    /// The FSN of the running flush, if any.
    pub active_flush: Option<u64>,
}

/// What a caller that asks for a flush does next.
#[derive(Debug, Clone, Copy, PartialEq, Eq, Structural)]
pub enum FlushStep {
    /// Nothing: everything up to this FSN is flushed.
    Done(u64),
    /// Wait for the running flush, and ask again for the same FSN.
    Wait(u64),
    /// Flush the file, and report how it went under this FSN.
    Issue(u64),
}

impl FlushSequencer {
    /// The running flush, if any, is the last one issued and not completed.
    pub open spec fn wf(self) -> bool {
        &&& self.completed_fsn <= self.issued_fsn
        &&& self.active_flush matches Some(fsn) ==> fsn == self.issued_fsn && self.completed_fsn
            < fsn
    }

    /// The FSN that a request stands for: the next one, if it names none.
    pub open spec fn target(self, requested: Option<u64>) -> u64 {
        match requested {
            Some(fsn) => fsn,
            None => (self.issued_fsn + 1) as u64,
        }
    }

    /// There is an FSN left for what is asked for, if it needs a new one.
    pub open spec fn can_ask(self, requested: Option<u64>) -> bool {
        match requested {
            None => self.issued_fsn < u64::MAX,
            Some(fsn) => self.completed_fsn < fsn <= self.issued_fsn && self.active_flush is None
                ==> self.issued_fsn < u64::MAX,
        }
    }

    /// What is done to have everything up to an FSN flushed.
    pub open spec fn step_for(self, fsn: u64) -> FlushStep {
        if fsn <= self.completed_fsn {
            FlushStep::Done(self.completed_fsn)
        } else if self.active_flush is Some {
            FlushStep::Wait(self.active_flush->0)
        } else if fsn > self.issued_fsn {
            FlushStep::Issue(fsn)
        } else {
            FlushStep::Issue((self.issued_fsn + 1) as u64)
        }
    }

    /// The state once a step is decided: a flush that is issued is running.
    pub open spec fn after_step(self, step: FlushStep) -> FlushSequencer {
        match step {
            FlushStep::Issue(fsn) => FlushSequencer {
                issued_fsn: fsn,
                active_flush: Some(fsn),
                ..self
            },
            _ => self,
        }
    }

    /// The state once the running flush has succeeded.
    pub open spec fn after_success(self) -> FlushSequencer {
        FlushSequencer { completed_fsn: self.active_flush->0, active_flush: None, ..self }
    }

    /// A sequencer that has assigned no FSN.
    pub fn new() -> (r: FlushSequencer)
        ensures
            r.wf(),
            r.issued_fsn == 0,
            r.completed_fsn == 0,
            r.active_flush is None,
    {
        FlushSequencer { issued_fsn: 0, completed_fsn: 0, active_flush: None }
    }

    /// The FSN that the next flush gets. A caller notes it to flush through it
    /// later, which covers what is written up to then.
    pub fn current_fsn(&self) -> (r: u64)
        requires
            self.issued_fsn < u64::MAX,
        ensures
            r == self.issued_fsn + 1,
    {
        self.issued_fsn + 1
    }

    /// The FSN up to which everything is flushed.
    pub fn completed_fsn(&self) -> (r: u64)
        ensures
            r == self.completed_fsn,
    {
        self.completed_fsn
    }

    /// Asks for a new flush. Returns the FSN that is assigned to it and what
    /// to do.
    pub fn flush(&mut self) -> (r: (u64, FlushStep))
        requires
            old(self).wf(),
            old(self).issued_fsn < u64::MAX,
        ensures
            final(self).wf(),
            r.0 == old(self).issued_fsn + 1,
            r.1 == old(self).step_for(r.0),
            *final(self) == old(self).after_step(r.1),
    {
        self.flush_until(None)
    }

    /// Asks for a flush through an FSN. Returns what to do.
    pub fn flush_through(&mut self, fsn: u64) -> (r: FlushStep)
        requires
            old(self).wf(),
            old(self).can_ask(Some(fsn)),
        ensures
            final(self).wf(),
            r == old(self).step_for(fsn),
            *final(self) == old(self).after_step(r),
    {
        self.flush_until(Some(fsn)).1
    }

    /// Asks for a flush through an FSN, or for a new flush if none is given.
    /// Returns the FSN that is asked for and what to do.
    pub fn flush_until(&mut self, requested: Option<u64>) -> (r: (u64, FlushStep))
        requires
            old(self).wf(),
            old(self).can_ask(requested),
        ensures
            final(self).wf(),
            r.0 == old(self).target(requested),
            r.1 == old(self).step_for(r.0),
            *final(self) == old(self).after_step(r.1),
    {
        let target: u64 = match requested {
            Some(fsn) => fsn,
            None => self.issued_fsn + 1,
        };
        if target <= self.completed_fsn {
            return (target, FlushStep::Done(self.completed_fsn));
        }
        if let Some(active) = self.active_flush {
            return (target, FlushStep::Wait(active));
        }
        let fsn: u64 = if target > self.issued_fsn {
            target
        } else {
            self.issued_fsn + 1
        };
        self.issued_fsn = fsn;
        self.active_flush = Some(fsn);
        (target, FlushStep::Issue(fsn))
    }

    /// Takes the result of the running flush. Returns the FSN up to which
    /// everything is flushed, or nothing if the flush failed. Either way the
    /// caller wakes whoever waits for it.
    pub fn complete(&mut self, fsn: u64, ok: bool) -> (r: Option<u64>)
        requires
            old(self).wf(),
            old(self).active_flush == Some(fsn),
        ensures
            final(self).wf(),
            *final(self) == (if ok {
                old(self).after_success()
            } else {
                FlushSequencer { active_flush: None, ..*old(self) }
            }),
            r == (if ok {
                Some(fsn)
            } else {
                None
            }),
    {
        if ok && self.completed_fsn < fsn {
            self.completed_fsn = fsn;
        }
        self.active_flush = None;
        if ok {
            Some(self.completed_fsn)
        } else {
            None
        }
    }
}

/// A flush that is issued for an FSN covers it: once it succeeds, everything
/// up to that FSN is flushed, and everybody who waited for an FSN up to the
/// one that was issued is done without another flush.
pub proof fn law_issued_flush_covers_the_request(
    before: FlushSequencer,
    fsn: u64,
    issued: u64,
    waiting: u64,
)
    requires
        before.wf(),
        before.can_ask(Some(fsn)),
        before.step_for(fsn) == FlushStep::Issue(issued),
        waiting <= issued,
    ensures
        ({
            let after = before.after_step(FlushStep::Issue(issued)).after_success();
            &&& after.wf()
            &&& after.completed_fsn >= fsn
            &&& after.step_for(fsn) == FlushStep::Done(after.completed_fsn)
            &&& after.step_for(waiting) == FlushStep::Done(after.completed_fsn)
        }),
{
}

/// At most one flush runs at a time: while one does, nobody issues another.
pub proof fn law_one_flush_at_a_time(state: FlushSequencer, fsn: u64, issued: u64)
    requires
        state.wf(),
        state.active_flush is Some,
    ensures
        state.step_for(fsn) != FlushStep::Issue(issued),
{
}

/// What a request for a flush leads to: nothing if one that covers it has
/// completed, to wait if one is under way, and otherwise a new one, later than
/// every one before it and not before the requested one. Nothing but that new
/// one changes the state.
pub proof fn law_request_leads_to_its_flush(state: FlushSequencer, fsn: u64)
    requires
        state.wf(),
        state.can_ask(Some(fsn)),
    ensures
        match state.step_for(fsn) {
            FlushStep::Done(done) => done == state.completed_fsn && fsn <= done,
            FlushStep::Wait(active) => state.active_flush == Some(active) && fsn
                > state.completed_fsn,
            FlushStep::Issue(new) => {
                &&& state.active_flush is None
                &&& fsn > state.completed_fsn
                &&& new > state.issued_fsn
                &&& new >= fsn
                &&& new == fsn || new == state.issued_fsn + 1
            },
        },
        ({
            let next = state.after_step(state.step_for(fsn));
            match state.step_for(fsn) {
                FlushStep::Issue(new) => next == (FlushSequencer {
                    issued_fsn: new,
                    completed_fsn: state.completed_fsn,
                    active_flush: Some(new),
                }),
                _ => next == state,
            }
        }),
        state.target(Some(fsn)) == fsn,
        state.issued_fsn < u64::MAX ==> state.target(None) == state.issued_fsn + 1,
        state.active_flush matches Some(active) ==> state.after_success() == (FlushSequencer {
            issued_fsn: state.issued_fsn,
            completed_fsn: active,
            active_flush: None,
        }),
{
}

/// A flush that succeeds covers every request up to its number; one that fails
/// covers none, and the next request issues a new one.
pub proof fn law_finished_flush_covers_its_number(
    state: &mut FlushSequencer,
    fsn: u64,
    ok: bool,
    r: Option<u64>,
    asked: u64,
)
    requires
        old(state).wf(),
        old(state).active_flush == Some(fsn),
        call_ensures(FlushSequencer::complete, (state, fsn, ok), r),
    ensures
        r is Some <==> ok,
        r matches Some(done) ==> done == fsn,
        final(state).active_flush is None,
        final(state).issued_fsn == old(state).issued_fsn,
        ok ==> final(state).completed_fsn == fsn,
        !ok ==> final(state).completed_fsn == old(state).completed_fsn,
        ok && asked <= fsn ==> final(state).step_for(asked) == FlushStep::Done(fsn),
        !ok && old(state).completed_fsn < asked ==> final(state).step_for(asked) is Issue,
{
}

} // verus!
