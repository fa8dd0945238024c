//! The event queue and the global error registers.

use vstd::arithmetic::div_mod::{
    lemma_add_mod_noop, lemma_fundamental_div_mod_converse, lemma_mod_bound, lemma_mod_mod,
    lemma_small_mod, lemma_sub_mod_noop,
};
use vstd::arithmetic::power2::{lemma_pow2_pos, lemma_pow2_strictly_increases, pow2};
use vstd::bits::{lemma_u32_pow2_no_overflow, lemma_u32_shl_is_mul};
use vstd::prelude::*;

use super::registers::{bit_assigned, bit_set, Gerror, CMDQ_ERR, EVENTQ_ABT_ERR};

verus! {

/// Size of an event record in bytes.
pub const EVT_SIZE: u64 = 32;

/// What an event record says.
#[derive(Debug, Clone, Copy, PartialEq, Eq, Structural)]
pub struct EvtEntry {
    /// The kind of event.
    pub event_id: u8,
    /// The stream.
    pub sid: u32,
    /// The address of the transaction.
    pub input_addr: u64,
}

/// Kind of the event for a stream table entry that cannot be used.
pub const EVENT_C_BAD_STE: u8 = 0x04;

impl EvtEntry {
    /// The event for a stream table entry that cannot be used.
    pub fn bad_ste(sid: u32) -> (r: EvtEntry)
        ensures
            r == (EvtEntry { event_id: EVENT_C_BAD_STE, sid, input_addr: 0 }),
    {
        EvtEntry { event_id: EVENT_C_BAD_STE, sid, input_addr: 0 }
    }
}

/// State of the event queue and of the global error registers.
#[derive(Debug, Clone, Copy)]
pub struct QueueErrorState {
    /// Base address of the queue.
    pub evtq_base_addr: u64,
    /// The queue has two to this power entries.
    pub evtq_log2size: u8,
    /// Whether the queue is enabled.
    pub evtq_enabled: bool,
    /// Whether the interrupt of the queue is enabled.
    pub evtq_irqen: bool,
    /// Producer index: an entry index and one bit that tells laps apart.
    pub evtq_prod: u32,
    /// Consumer index, in the same form.
    pub evtq_cons: u32,
    /// Error bits, toggled here.
    pub gerror: Gerror,
    /// Acknowledged error bits, written by the guest.
    pub gerrorn: Gerror,
    /// Whether the interrupt of global errors is enabled.
    pub gerror_irqen: bool,
}

/// The part of the state that is saved. The rest follows from registers.
#[derive(Debug, Clone, Copy, PartialEq, Eq, Structural)]
pub struct SavedQueueState {
    pub evtq_prod: u32,
    pub evtq_cons: u32,
    pub gerror: u32,
    pub gerrorn: u32,
}

/// What the caller does with an event.
#[derive(Debug, Clone, Copy, PartialEq, Eq, Structural)]
pub enum EventStep {
    /// Drop it: the queue is disabled.
    Disabled,
    /// Drop it: the queue is full. Set the error interrupt to this level.
    Overflow {
        /// The level.
        gerror_irq: bool,
    },
    /// Write it to this address, and commit it if that succeeds.
    Write {
        /// The address.
        address: u64,
    },
}

/// Levels of interrupt lines to set.
#[derive(Debug, Clone, Copy, PartialEq, Eq, Structural)]
pub struct IrqLevels {
    /// Level of the error interrupt.
    pub gerror: bool,
    /// Level of the event interrupt, if it is to be set.
    pub evtq: Option<bool>,
}

impl QueueErrorState {
    /// The number of entries of the queue.
    pub open spec fn capacity(self) -> int {
        pow2(self.evtq_log2size as nat) as int
    }

    /// The indices of the queue, with the bit that tells laps apart, are
    /// within range.
    pub open spec fn queue_ok(self) -> bool {
        self.evtq_log2size < 31
    }

    /// Address of the entry that is written next.
    pub open spec fn next_address(self) -> int {
        self.evtq_base_addr + self.prod() % self.capacity() * EVT_SIZE
    }

    /// The producer index within two laps.
    pub open spec fn prod(self) -> int {
        self.evtq_prod as int % (2 * self.capacity())
    }

    /// The consumer index within two laps.
    pub open spec fn cons(self) -> int {
        self.evtq_cons as int % (2 * self.capacity())
    }

    /// The number of events in the queue, where the indices are those of a
    /// queue.
    pub open spec fn pending(self) -> int {
        (self.prod() - self.cons()) % (2 * self.capacity())
    }

    /// Whether the queue is full: the indices name the same entry, one lap
    /// apart.
    pub open spec fn full(self) -> bool {
        self.prod() == self.cons() + self.capacity() || self.cons() == self.prod()
            + self.capacity()
    }

    /// Level of the error interrupt: an error is active.
    pub open spec fn gerror_level(self) -> bool {
        self.gerror_irqen && self.gerror.raw != self.gerrorn.raw
    }

    /// The state after a reset.
    pub open spec fn reset() -> QueueErrorState {
        QueueErrorState {
            evtq_base_addr: 0,
            evtq_log2size: 0,
            evtq_enabled: false,
            evtq_irqen: false,
            evtq_prod: 0,
            evtq_cons: 0,
            gerror: Gerror { raw: 0 },
            gerrorn: Gerror { raw: 0 },
            gerror_irqen: false,
        }
    }

    /// The state with the command queue error toggled.
    pub open spec fn cmdq_err_toggled(self) -> QueueErrorState {
        QueueErrorState {
            gerror: Gerror {
                raw: bit_assigned(self.gerror.raw, CMDQ_ERR, !bit_set(self.gerror.raw, CMDQ_ERR)),
            },
            ..self
        }
    }

    /// The state with the event queue abort active.
    pub open spec fn overflowed(self) -> QueueErrorState {
        QueueErrorState {
            gerror: Gerror {
                raw: bit_assigned(
                    self.gerror.raw,
                    EVENTQ_ABT_ERR,
                    !bit_set(self.gerrorn.raw, EVENTQ_ABT_ERR),
                ),
            },
            ..self
        }
    }

    /// The level to set the event interrupt to when the guest writes a
    /// consumer index, if any.
    pub open spec fn level_after_cons(self, cons: u32) -> Option<bool> {
        if self.evtq_irqen && self.evtq_prod == cons {
            Some(false)
        } else {
            None
        }
    }

    /// An event can be put into the queue: if it is enabled, its indices are
    /// within range, and so is the address of the entry that is written.
    pub open spec fn can_write(self) -> bool {
        self.evtq_enabled ==> self.queue_ok() && (!self.full() ==> self.next_address()
            <= u64::MAX)
    }

    /// What is done with an event.
    pub open spec fn event_step(self) -> EventStep {
        if !self.evtq_enabled {
            EventStep::Disabled
        } else if self.full() {
            EventStep::Overflow { gerror_irq: self.overflowed().gerror_level() }
        } else {
            EventStep::Write { address: self.next_address() as u64 }
        }
    }

    /// The state after an event came: it changes only if the event is dropped
    /// because the queue is full.
    pub open spec fn after_event(self) -> QueueErrorState {
        if self.evtq_enabled && self.full() {
            self.overflowed()
        } else {
            self
        }
    }

    /// The state once an event was written.
    pub open spec fn committed(self) -> QueueErrorState {
        QueueErrorState {
            evtq_prod: ((self.prod() + 1) % (2 * self.capacity())) as u32,
            ..self
        }
    }

    /// The level to set the event interrupt to once an event was written, if
    /// any.
    pub open spec fn level_after_commit(self) -> Option<bool> {
        if self.evtq_irqen {
            Some(true)
        } else {
            None
        }
    }

    /// The state with what was saved.
    pub open spec fn restored(self, state: SavedQueueState) -> QueueErrorState {
        QueueErrorState {
            evtq_prod: state.evtq_prod,
            evtq_cons: state.evtq_cons,
            gerror: Gerror { raw: state.gerror },
            gerrorn: Gerror { raw: state.gerrorn },
            ..self
        }
    }

    /// The levels of the interrupts after a restore.
    pub open spec fn levels(self) -> IrqLevels {
        IrqLevels {
            gerror: self.gerror_level(),
            evtq: if self.evtq_irqen {
                Some(self.evtq_prod != self.evtq_cons)
            } else {
                None
            },
        }
    }

    /// The state after a reset.
    pub fn new() -> (r: QueueErrorState)
        ensures
            r == Self::reset(),
    {
        QueueErrorState {
            evtq_base_addr: 0,
            evtq_log2size: 0,
            evtq_enabled: false,
            evtq_irqen: false,
            evtq_prod: 0,
            evtq_cons: 0,
            gerror: Gerror::new(),
            gerrorn: Gerror::new(),
            gerror_irqen: false,
        }
    }

    /// Sets the queue.
    pub fn set_evtq_config(&mut self, base_addr: u64, log2size: u8)
        ensures
            *final(self) == (QueueErrorState {
                evtq_base_addr: base_addr,
                evtq_log2size: log2size,
                ..*old(self)
            }),
    {
        self.evtq_base_addr = base_addr;
        self.evtq_log2size = log2size;
    }

    /// Enables or disables the queue.
    pub fn set_evtq_enabled(&mut self, enabled: bool)
        ensures
            *final(self) == (QueueErrorState { evtq_enabled: enabled, ..*old(self) }),
    {
        self.evtq_enabled = enabled;
    }

    /// Level of the error interrupt.
    pub fn gerror_irq_level(&self) -> (r: bool)
        ensures
            r == self.gerror_level(),
    {
        self.gerror_irqen && self.gerror.raw != self.gerrorn.raw
    }

    /// Enables or disables the interrupts. Returns the level of the error
    /// interrupt.
    pub fn set_irq_ctrl(&mut self, evtq_irqen: bool, gerror_irqen: bool) -> (r: bool)
        ensures
            *final(self) == (QueueErrorState { evtq_irqen, gerror_irqen, ..*old(self) }),
            r == final(self).gerror_level(),
    {
        self.evtq_irqen = evtq_irqen;
        self.gerror_irqen = gerror_irqen;
        self.gerror_irq_level()
    }

    /// The register GERROR.
    pub fn read_gerror(&self) -> (r: Gerror)
        ensures
            r == self.gerror,
    {
        self.gerror
    }

    /// The register GERRORN.
    pub fn read_gerrorn(&self) -> (r: Gerror)
        ensures
            r == self.gerrorn,
    {
        self.gerrorn
    }

    /// Whether a command queue error is active.
    pub fn cmdq_err_active(&self) -> (r: bool)
        ensures
            r == (bit_set(self.gerror.raw, CMDQ_ERR) != bit_set(self.gerrorn.raw, CMDQ_ERR)),
    {
        self.gerror.get(CMDQ_ERR) != self.gerrorn.get(CMDQ_ERR)
    }

    /// Takes an acknowledgement of errors. Returns the level of the error
    /// interrupt.
    pub fn write_gerrorn(&mut self, value: u32) -> (r: bool)
        ensures
            *final(self) == (QueueErrorState { gerrorn: Gerror { raw: value }, ..*old(self) }),
            r == final(self).gerror_level(),
    {
        self.gerrorn = Gerror { raw: value };
        self.gerror_irq_level()
    }

    /// Toggles the command queue error. Returns the level of the error
    /// interrupt.
    pub fn toggle_cmdq_err(&mut self) -> (r: bool)
        ensures
            *final(self) == old(self).cmdq_err_toggled(),
            bit_set(final(self).gerror.raw, CMDQ_ERR) != bit_set(old(self).gerror.raw, CMDQ_ERR),
            r == final(self).gerror_level(),
    {
        let toggled = !self.gerror.get(CMDQ_ERR);
        self.gerror.assign(CMDQ_ERR, toggled);
        self.gerror_irq_level()
    }

    /// Makes the event queue abort active, which it may be already. Returns
    /// the level of the error interrupt.
    pub fn signal_evtq_overflow(&mut self) -> (r: bool)
        ensures
            *final(self) == old(self).overflowed(),
            bit_set(final(self).gerror.raw, EVENTQ_ABT_ERR) != bit_set(
                final(self).gerrorn.raw,
                EVENTQ_ABT_ERR,
            ),
            r == final(self).gerror_level(),
    {
        let active = !self.gerrorn.get(EVENTQ_ABT_ERR);
        self.gerror.assign(EVENTQ_ABT_ERR, active);
        self.gerror_irq_level()
    }

    /// Takes the consumer index that the guest wrote. Returns the level to
    /// set the event interrupt to, if any: low, once the queue is drained.
    pub fn set_evtq_cons(&mut self, cons: u32) -> (r: Option<bool>)
        ensures
            *final(self) == (QueueErrorState { evtq_cons: cons, ..*old(self) }),
            r == old(self).level_after_cons(cons),
    {
        self.evtq_cons = cons;
        if self.evtq_irqen && self.evtq_prod == self.evtq_cons {
            Some(false)
        } else {
            None
        }
    }

    /// The producer index.
    pub fn evtq_prod(&self) -> (r: u32)
        ensures
            r == self.evtq_prod,
    {
        self.evtq_prod
    }

    /// The consumer index.
    pub fn evtq_cons(&self) -> (r: u32)
        ensures
            r == self.evtq_cons,
    {
        self.evtq_cons
    }

    /// Resets the state. Returns the level of the error interrupt.
    pub fn reset_queue_state(&mut self) -> (r: bool)
        ensures
            *final(self) == QueueErrorState::reset(),
            !r,
    {
        *self = QueueErrorState::new();
        self.gerror_irq_level()
    }

    /// What of the state is saved.
    pub open spec fn saved(self) -> SavedQueueState {
        SavedQueueState {
            evtq_prod: self.evtq_prod,
            evtq_cons: self.evtq_cons,
            gerror: self.gerror.raw,
            gerrorn: self.gerrorn.raw,
        }
    }

    /// Saves the state.
    pub fn save_queue_state(&self) -> (r: SavedQueueState)
        ensures
            r == self.saved(),
    {
        SavedQueueState {
            evtq_prod: self.evtq_prod,
            evtq_cons: self.evtq_cons,
            gerror: self.gerror.raw,
            gerrorn: self.gerrorn.raw,
        }
    }

    /// Restores the state. What follows from registers is set before. Returns
    /// the levels of the interrupts.
    pub fn restore_queue_state(&mut self, state: SavedQueueState) -> (r: IrqLevels)
        ensures
            *final(self) == old(self).restored(state),
            r == final(self).levels(),
    {
        self.evtq_prod = state.evtq_prod;
        self.evtq_cons = state.evtq_cons;
        self.gerror = Gerror { raw: state.gerror };
        self.gerrorn = Gerror { raw: state.gerrorn };
        IrqLevels {
            gerror: self.gerror_irq_level(),
            evtq: if self.evtq_irqen {
                Some(self.evtq_prod != self.evtq_cons)
            } else {
                None
            },
        }
    }

    /// The number of entries of the queue.
    fn entries(&self) -> (r: u32)
        requires
            self.queue_ok(),
        ensures
            r == self.capacity(),
            0 < r < 0x8000_0000,
    {
        proof {
            let n = self.evtq_log2size as nat;
            lemma_u32_pow2_no_overflow(n);
            lemma_u32_shl_is_mul(1, n as u32);
            lemma_pow2_pos(n);
            lemma_pow2_strictly_increases(n, 31);
            vstd::arithmetic::power2::lemma2_to64();
        }
        1u32 << (self.evtq_log2size as u32)
    }

    /// Starts to put an event into the queue.
    pub fn write_event(&mut self) -> (r: EventStep)
        requires
            old(self).can_write(),
        ensures
            r == old(self).event_step(),
            *final(self) == old(self).after_event(),
    {
        if !self.evtq_enabled {
            return EventStep::Disabled;
        }
        let max_entries: u32 = self.entries();
        let laps: u32 = max_entries * 2;
        let prod: u32 = self.evtq_prod % laps;
        let cons: u32 = self.evtq_cons % laps;
        let full = (prod >= cons && prod - cons == max_entries) || (cons >= prod && cons - prod
            == max_entries);
        if full {
            return EventStep::Overflow { gerror_irq: self.signal_evtq_overflow() };
        }
        let index: u32 = prod % max_entries;
        EventStep::Write { address: self.evtq_base_addr + index as u64 * EVT_SIZE }
    }

    /// Commits an event that was written. Returns the level to set the event
    /// interrupt to, if any: high.
    pub fn commit_event(&mut self) -> (r: Option<bool>)
        requires
            old(self).queue_ok(),
        ensures
            *final(self) == old(self).committed(),
            r == old(self).level_after_commit(),
    {
        let max_entries: u32 = self.entries();
        let laps: u32 = max_entries * 2;
        let prod: u32 = self.evtq_prod % laps;
        self.evtq_prod = (prod + 1) % laps;
        if self.evtq_irqen {
            Some(true)
        } else {
            None
        }
    }
}

/// The queue is full exactly if it holds as many events as it has entries,
/// and an event that is put into a queue that is not full makes it hold one
/// more.
pub proof fn law_event_queue_holds_its_capacity(q: QueueErrorState)
    requires
        q.queue_ok(),
    ensures
        q.full() <==> q.pending() == q.capacity(),
        q.pending() < q.capacity() ==> q.committed().pending() == q.pending() + 1,
{
    let next = q.committed();
    let c = q.capacity();
    let m = 2 * c;
    lemma_pow2_pos(q.evtq_log2size as nat);
    lemma_pow2_strictly_increases(q.evtq_log2size as nat, 31);
    vstd::arithmetic::power2::lemma2_to64();
    lemma_mod_bound(q.evtq_prod as int, m);
    lemma_mod_bound(q.evtq_cons as int, m);
    let (p, k) = (q.prod(), q.cons());
    if p >= k {
        lemma_fundamental_div_mod_converse(p - k, m, 0, p - k);
    } else {
        lemma_fundamental_div_mod_converse(p - k, m, -1, p - k + m);
    }
    let p2 = (p + 1) % m;
    if p + 1 < m {
        lemma_fundamental_div_mod_converse(p + 1, m, 0, p + 1);
    } else {
        lemma_fundamental_div_mod_converse(p + 1, m, 1, 0);
    }
    lemma_fundamental_div_mod_converse(p2, m, 0, p2);
    assert(next.prod() == p2);
    assert(next.cons() == k);
    if p2 >= k {
        lemma_fundamental_div_mod_converse(p2 - k, m, 0, p2 - k);
    } else {
        lemma_fundamental_div_mod_converse(p2 - k, m, -1, p2 - k + m);
    }
}

/// What is saved and restored is the same state, if what follows from
/// registers is.
pub proof fn law_queue_state_survives_save(q: QueueErrorState, fresh: QueueErrorState)
    requires
        fresh.evtq_base_addr == q.evtq_base_addr,
        fresh.evtq_log2size == q.evtq_log2size,
        fresh.evtq_enabled == q.evtq_enabled,
        fresh.evtq_irqen == q.evtq_irqen,
        fresh.gerror_irqen == q.gerror_irqen,
    ensures
        fresh.restored(q.saved()) == q,
{
}

/// An event for which there is no room makes the event queue abort active;
/// once the guest acknowledges what it reads in GERROR, no error is.
pub proof fn law_overflow_is_signaled_and_acknowledged(q: QueueErrorState)
    ensures
        bit_set(q.overflowed().gerror.raw, EVENTQ_ABT_ERR) != bit_set(
            q.overflowed().gerrorn.raw,
            EVENTQ_ABT_ERR,
        ),
        q.gerror_irqen ==> q.overflowed().gerror_level(),
        !(QueueErrorState { gerrorn: q.overflowed().gerror, ..q.overflowed() }).gerror_level(),
{
    let raw = q.gerror.raw;
    assert((raw | 0x4u32) & 0x4u32 != 0) by (bit_vector);
    assert((raw & !0x4u32) & 0x4u32 == 0) by (bit_vector);
}

/// Acknowledging an error makes it inactive: once the guest writes to
/// GERRORN what GERROR holds, the error interrupt is low.
pub proof fn law_acknowledged_errors_are_inactive(q: QueueErrorState)
    requires
        q.gerrorn.raw == q.gerror.raw,
    ensures
        !q.gerror_level(),
{
}

/// An event is dropped for want of room exactly if the producer is a whole
/// number of entries ahead of the consumer, in a count of two laps. Otherwise
/// it goes to the record of the producer index, which is within the queue, and
/// once it is committed the producer index is one further, and nothing else
/// has changed.
pub proof fn law_event_goes_to_the_record_of_its_index(q: QueueErrorState)
    requires
        q.can_write(),
        q.evtq_enabled,
    ensures
        ({
            let entries = pow2(q.evtq_log2size as nat) as int;
            &&& q.event_step() is Overflow <==> (q.evtq_prod - q.evtq_cons) % (2 * entries)
                == entries
            &&& !(q.event_step() is Overflow) ==> q.event_step() is Write
            &&& q.event_step() matches EventStep::Write { address } ==> {
                &&& address == q.evtq_base_addr + 32 * (q.evtq_prod as int % entries)
                &&& q.evtq_base_addr <= address
                &&& address + 32 <= q.evtq_base_addr + 32 * entries
                &&& q.after_event() == q
            }
            &&& q.committed().evtq_prod as int == (q.evtq_prod + 1) % (2 * entries)
            &&& q.committed() == (QueueErrorState { evtq_prod: q.committed().evtq_prod, ..q })
        }),
{
    let n = q.capacity();
    let m = 2 * n;
    lemma_pow2_pos(q.evtq_log2size as nat);
    lemma_pow2_strictly_increases(q.evtq_log2size as nat, 31);
    vstd::arithmetic::power2::lemma2_to64();
    let (p, c) = (q.evtq_prod as int, q.evtq_cons as int);
    assert(n * 2 == m);
    lemma_mod_mod(p, n, 2);
    lemma_mod_bound(p, n);
    lemma_mod_bound(p, m);
    lemma_mod_bound(c, m);
    lemma_sub_mod_noop(p, c, m);
    lemma_add_mod_noop(p, 1, m);
    lemma_small_mod(1, m as nat);
    let d = p % m - c % m;
    assert((p - c) % m == d % m);
    if d >= 0 {
        lemma_small_mod(d as nat, m as nat);
    } else {
        lemma_fundamental_div_mod_converse(d, m, -1, d + m);
    }
    lemma_mod_bound(p + 1, m);
}

/// Two events that are in the queue at the same time are in records that do
/// not overlap: if the second comes less than a lap after the first, they are
/// at least the size of a record apart.
pub proof fn law_pending_events_have_their_own_records(
    first: QueueErrorState,
    second: QueueErrorState,
    distance: int,
)
    requires
        first.can_write(),
        second.can_write(),
        first.evtq_base_addr == second.evtq_base_addr,
        first.evtq_log2size == second.evtq_log2size,
        first.event_step() is Write,
        second.event_step() is Write,
        0 < distance < pow2(first.evtq_log2size as nat),
        second.evtq_prod as int % (2 * pow2(first.evtq_log2size as nat) as int) == (first.evtq_prod
            + distance) % (2 * pow2(first.evtq_log2size as nat) as int),
    ensures
        ({
            let a = first.event_step()->address;
            let b = second.event_step()->address;
            a + 32 <= b || b + 32 <= a
        }),
{
    law_event_goes_to_the_record_of_its_index(first);
    law_event_goes_to_the_record_of_its_index(second);
    let n = first.capacity();
    lemma_pow2_pos(first.evtq_log2size as nat);
    let (p, s) = (first.evtq_prod as int, second.evtq_prod as int);
    lemma_mod_mod(s, n, 2);
    lemma_mod_mod(p + distance, n, 2);
    assert(n * 2 == 2 * n);
    assert(s % n == (p + distance) % n);
    if s % n == p % n {
        lemma_sub_mod_noop(p + distance, p, n);
        assert((p + distance - p) % n == ((p + distance) % n - p % n) % n);
        lemma_small_mod(0, n as nat);
        lemma_small_mod(distance as nat, n as nat);
        assert(false);
    }
}

/// The error interrupt is high exactly if it is enabled and some error is
/// active. An overflow changes the third bit of GERROR alone, a command error
/// the first alone, and neither acknowledges anything.
pub proof fn law_errors_change_their_own_bit(q: QueueErrorState)
    ensures
        q.gerror_level() <==> q.gerror_irqen && q.gerror.raw ^ q.gerrorn.raw != 0,
        q.cmdq_err_toggled().gerror.raw == q.gerror.raw ^ 1,
        q.cmdq_err_toggled() == (QueueErrorState { gerror: q.cmdq_err_toggled().gerror, ..q }),
        q.overflowed().gerror.raw ^ q.gerror.raw == 0 || q.overflowed().gerror.raw ^ q.gerror.raw
            == 4,
        (q.overflowed().gerror.raw ^ q.gerrorn.raw) & 4 == 4,
        q.overflowed() == (QueueErrorState { gerror: q.overflowed().gerror, ..q }),
{
    let (a, b) = (q.gerror.raw, q.gerrorn.raw);
    assert(a ^ b != 0 <==> a != b) by (bit_vector);
    assert(a & 1 != 0 ==> a & !1u32 == a ^ 1) by (bit_vector);
    assert(a & 1 == 0 ==> a | 1 == a ^ 1) by (bit_vector);
    assert((a | 4) ^ a == 0 || (a | 4) ^ a == 4) by (bit_vector);
    assert((a & !4u32) ^ a == 0 || (a & !4u32) ^ a == 4) by (bit_vector);
    assert(b & 4 == 0 ==> ((a | 4) ^ b) & 4 == 4) by (bit_vector);
    assert(b & 4 != 0 ==> ((a & !4u32) ^ b) & 4 == 4) by (bit_vector);
}

/// The event interrupt follows the queue: it rises with an event, falls when
/// the guest takes the last one, and after a restore it is high exactly if
/// there is one to take. While it is disabled nothing is done with it.
pub proof fn law_event_interrupt_follows_the_queue(q: QueueErrorState, cons: u32)
    ensures
        q.level_after_commit() == (if q.evtq_irqen {
            Some(true)
        } else {
            None::<bool>
        }),
        q.level_after_cons(cons) == (if q.evtq_irqen && cons == q.evtq_prod {
            Some(false)
        } else {
            None::<bool>
        }),
        q.levels().evtq == (if q.evtq_irqen {
            Some(q.evtq_prod != q.evtq_cons)
        } else {
            None::<bool>
        }),
        q.levels().gerror == (q.gerror_irqen && q.gerror.raw != q.gerrorn.raw),
{
}

/// After a reset nothing is enabled, no event is pending and no error is
/// active.
pub proof fn law_reset_clears_everything(state: &mut QueueErrorState, r: bool)
    requires
        call_ensures(QueueErrorState::reset_queue_state, (state,), r),
    ensures
        !r,
        ({
            let q = *final(state);
            &&& !q.evtq_enabled && !q.evtq_irqen && !q.gerror_irqen
            &&& q.evtq_prod == 0 && q.evtq_cons == 0
            &&& q.evtq_base_addr == 0 && q.evtq_log2size == 0
            &&& q.gerror.raw == 0 && q.gerrorn.raw == 0
            &&& q.event_step() == EventStep::Disabled
            &&& !q.levels().gerror && q.levels().evtq is None
        }),
{
}

} // verus!
