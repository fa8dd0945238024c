//! The event queue and the global errors of an SMMU.

use vstd::prelude::*;

use super::queue::{EventStep, IrqLevels, QueueErrorState, SavedQueueState};
use super::registers::{bit_set, Gerror, CMDQ_ERR};
use super::shared::SmmuSharedState;

verus! {

impl SmmuSharedState {
    /// The state with another event queue and other errors.
    pub open spec fn with_queue(self, queue_state: QueueErrorState) -> SmmuSharedState {
        SmmuSharedState { queue_state, ..self }
    }

    /// Sets the event queue.
    pub fn set_evtq_config(&mut self, base_addr: u64, log2size: u8)
        ensures
            *final(self) == old(self).with_queue(
                QueueErrorState {
                    evtq_base_addr: base_addr,
                    evtq_log2size: log2size,
                    ..old(self).queue_state
                },
            ),
    {
        self.queue_state.set_evtq_config(base_addr, log2size);
    }

    /// Enables or disables the event queue.
    pub fn set_evtq_enabled(&mut self, enabled: bool)
        ensures
            *final(self) == old(self).with_queue(
                QueueErrorState { evtq_enabled: enabled, ..old(self).queue_state },
            ),
    {
        self.queue_state.set_evtq_enabled(enabled);
    }

    /// Enables or disables the interrupts. Returns the level of the error
    /// interrupt.
    pub fn set_irq_ctrl(&mut self, evtq_irqen: bool, gerror_irqen: bool) -> (r: bool)
        ensures
            *final(self) == old(self).with_queue(
                QueueErrorState { evtq_irqen, gerror_irqen, ..old(self).queue_state },
            ),
            r == final(self).queue_state.gerror_level(),
    {
        self.queue_state.set_irq_ctrl(evtq_irqen, gerror_irqen)
    }

    /// The register GERROR.
    pub fn read_gerror(&self) -> (r: Gerror)
        ensures
            r == self.queue_state.gerror,
    {
        self.queue_state.read_gerror()
    }

    /// The register GERRORN.
    pub fn read_gerrorn(&self) -> (r: Gerror)
        ensures
            r == self.queue_state.gerrorn,
    {
        self.queue_state.read_gerrorn()
    }

    /// Whether a command queue error is active.
    pub fn cmdq_err_active(&self) -> (r: bool)
        ensures
            r == (bit_set(self.queue_state.gerror.raw, CMDQ_ERR) != bit_set(
                self.queue_state.gerrorn.raw,
                CMDQ_ERR,
            )),
    {
        self.queue_state.cmdq_err_active()
    }

    /// Takes an acknowledgement of errors. Returns the level of the error
    /// interrupt.
    pub fn write_gerrorn(&mut self, value: u32) -> (r: bool)
        ensures
            *final(self) == old(self).with_queue(
                QueueErrorState { gerrorn: Gerror { raw: value }, ..old(self).queue_state },
            ),
            r == final(self).queue_state.gerror_level(),
    {
        self.queue_state.write_gerrorn(value)
    }

    /// Toggles the command queue error. Returns the level of the error
    /// interrupt.
    pub fn toggle_cmdq_err(&mut self) -> (r: bool)
        ensures
            *final(self) == old(self).with_queue(old(self).queue_state.cmdq_err_toggled()),
            r == final(self).queue_state.gerror_level(),
    {
        self.queue_state.toggle_cmdq_err()
    }

    /// Takes the consumer index that the guest wrote. Returns the level to
    /// set the event interrupt to, if any: low, once the queue is drained.
    pub fn set_evtq_cons(&mut self, cons: u32) -> (r: Option<bool>)
        ensures
            *final(self) == old(self).with_queue(
                QueueErrorState { evtq_cons: cons, ..old(self).queue_state },
            ),
            r == old(self).queue_state.level_after_cons(cons),
    {
        self.queue_state.set_evtq_cons(cons)
    }

    /// The producer index.
    pub fn evtq_prod(&self) -> (r: u32)
        ensures
            r == self.queue_state.evtq_prod,
    {
        self.queue_state.evtq_prod()
    }

    /// The consumer index.
    pub fn evtq_cons(&self) -> (r: u32)
        ensures
            r == self.queue_state.evtq_cons,
    {
        self.queue_state.evtq_cons()
    }

    /// Resets the event queue and the errors. Returns the level of the error
    /// interrupt.
    pub fn reset_queue_state(&mut self) -> (r: bool)
        ensures
            *final(self) == old(self).with_queue(QueueErrorState::reset()),
            !r,
    {
        self.queue_state.reset_queue_state()
    }

    /// Saves the event queue and the errors.
    pub fn save_queue_state(&self) -> (r: SavedQueueState)
        ensures
            r == self.queue_state.saved(),
    {
        self.queue_state.save_queue_state()
    }

    /// Restores the event queue and the errors. What follows from registers
    /// is set before. Returns the levels of the interrupts.
    pub fn restore_queue_state(&mut self, state: SavedQueueState) -> (r: IrqLevels)
        ensures
            *final(self) == old(self).with_queue(old(self).queue_state.restored(state)),
            r == final(self).queue_state.levels(),
    {
        self.queue_state.restore_queue_state(state)
    }

    /// Starts to put an event into the queue.
    pub fn write_event(&mut self) -> (r: EventStep)
        requires
            old(self).queue_state.can_write(),
        ensures
            r == old(self).queue_state.event_step(),
            *final(self) == old(self).with_queue(old(self).queue_state.after_event()),
    {
        self.queue_state.write_event()
    }

    /// Commits an event that was written. Returns the level to set the event
    /// interrupt to, if any: high.
    pub fn commit_event(&mut self) -> (r: Option<bool>)
        requires
            old(self).queue_state.queue_ok(),
        ensures
            *final(self) == old(self).with_queue(old(self).queue_state.committed()),
            r == old(self).queue_state.level_after_commit(),
    {
        self.queue_state.commit_event()
    }
}

/// To put an event into the queue changes the queue alone, and that only if
/// the event is dropped for want of room.
pub proof fn law_event_changes_the_queue_alone(state: &mut SmmuSharedState, r: EventStep)
    requires
        old(state).queue_state.can_write(),
        call_ensures(SmmuSharedState::write_event, (state,), r),
    ensures
        r == old(state).queue_state.event_step(),
        *final(state) == (SmmuSharedState { queue_state: final(state).queue_state, ..*old(state) }),
        !(r is Overflow) ==> *final(state) == *old(state),
{
}

/// An event that was written is committed in the queue alone.
pub proof fn law_commit_changes_the_queue_alone(state: &mut SmmuSharedState, r: Option<bool>)
    requires
        old(state).queue_state.queue_ok(),
        call_ensures(SmmuSharedState::commit_event, (state,), r),
    ensures
        *final(state) == (SmmuSharedState {
            queue_state: old(state).queue_state.committed(),
            ..*old(state)
        }),
        r is Some <==> old(state).queue_state.evtq_irqen,
        r is Some ==> r == Some(true),
{
}

} // verus!
