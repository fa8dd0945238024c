//! Decisions of the translation of transactions and of interrupt messages.

use vstd::prelude::*;

use crate::pci::bus_range::AssignedBusRange;
use super::queue::{EvtEntry, EVENT_C_BAD_STE};
use super::shared::SmmuSharedState;
use super::stream::{
    compose_stream_id, Ste, STE_CONFIG_ABORT, STE_CONFIG_BYPASS, STE_CONFIG_S1_TRANS,
};

verus! {

/// Result of the translation of an address.
#[derive(Debug, Clone, Copy, PartialEq, Eq, Structural)]
pub enum TranslateResult {
    /// The address is used as it is.
    Bypass,
    /// The translated address.
    Translated(u64),
    /// The disabled SMMU aborts everything. No event is recorded.
    GlobalAbort,
    /// The stream is aborted. The event is recorded.
    Abort(EvtEntry),
    /// The translation failed. The event is recorded.
    Fault(EvtEntry),
}

/// What a valid stream table entry asks for.
#[derive(Debug, Clone, Copy, PartialEq, Eq, Structural)]
pub enum SteAction {
    /// Abort.
    Abort,
    /// Bypass.
    Bypass,
    /// Stage 1 translation.
    S1Translate,
}

/// What to do next in a translation.
#[derive(Debug, Clone, Copy, PartialEq, Eq, Structural)]
pub enum TranslateStep {
    /// The translation is done.
    Done(TranslateResult),
    /// Look up the entry of the stream.
    LookupSte,
    /// Look up the context descriptor and walk the page table.
    WalkStage1,
}

/// What an entry asks for, if its configuration is supported.
pub open spec fn action_of(ste: Ste) -> Option<SteAction> {
    if ste.spec_config() == STE_CONFIG_ABORT {
        Some(SteAction::Abort)
    } else if ste.spec_config() == STE_CONFIG_BYPASS {
        Some(SteAction::Bypass)
    } else if ste.spec_config() == STE_CONFIG_S1_TRANS {
        Some(SteAction::S1Translate)
    } else {
        None
    }
}

/// What an entry asks for, if its configuration is supported.
pub fn ste_config_action(ste: &Ste) -> (r: Option<SteAction>)
    ensures
        r == action_of(*ste),
{
    let config: u8 = ste.config();
    if config == STE_CONFIG_ABORT {
        Some(SteAction::Abort)
    } else if config == STE_CONFIG_BYPASS {
        Some(SteAction::Bypass)
    } else if config == STE_CONFIG_S1_TRANS {
        Some(SteAction::S1Translate)
    } else {
        None
    }
}

/// The event for an entry that cannot be used.
pub open spec fn bad_ste_event(sid: u32) -> EvtEntry {
    EvtEntry { event_id: EVENT_C_BAD_STE, sid, input_addr: 0 }
}

/// How a translation goes on after the entry of the stream was looked up.
pub open spec fn step_after_ste(sid: u32, lookup: Result<Ste, EvtEntry>) -> TranslateStep {
    match lookup {
        Err(event) => TranslateStep::Done(TranslateResult::Fault(event)),
        Ok(ste) => match action_of(ste) {
            None => TranslateStep::Done(TranslateResult::Fault(bad_ste_event(sid))),
            Some(SteAction::Abort) => TranslateStep::Done(
                TranslateResult::Abort(bad_ste_event(sid)),
            ),
            Some(SteAction::Bypass) => TranslateStep::Done(TranslateResult::Bypass),
            Some(SteAction::S1Translate) => TranslateStep::WalkStage1,
        },
    }
}

/// The result of a whole translation, where looking up the entry and the
/// stage 1 translation give these results.
pub open spec fn translation_of(
    state: SmmuSharedState,
    sid: u32,
    lookup: Result<Ste, EvtEntry>,
    stage1: Result<u64, EvtEntry>,
) -> TranslateResult {
    if !state.enabled {
        if state.gbpa_abort {
            TranslateResult::GlobalAbort
        } else {
            TranslateResult::Bypass
        }
    } else {
        match step_after_ste(sid, lookup) {
            TranslateStep::Done(result) => result,
            _ => match stage1 {
                Ok(gpa) => TranslateResult::Translated(gpa),
                Err(event) => TranslateResult::Fault(event),
            },
        }
    }
}

impl SmmuSharedState {
    /// Starts a translation: a disabled SMMU decides by itself.
    pub fn begin_translate(&self) -> (r: TranslateStep)
        ensures
            r == (if self.enabled {
                TranslateStep::LookupSte
            } else if self.gbpa_abort {
                TranslateStep::Done(TranslateResult::GlobalAbort)
            } else {
                TranslateStep::Done(TranslateResult::Bypass)
            }),
    {
        if !self.enabled {
            if self.gbpa_abort {
                return TranslateStep::Done(TranslateResult::GlobalAbort);
            }
            return TranslateStep::Done(TranslateResult::Bypass);
        }
        TranslateStep::LookupSte
    }

    /// Goes on with the entry of the stream, or with the event of its failed
    /// lookup.
    pub fn translate_with_ste(sid: u32, lookup: Result<Ste, EvtEntry>) -> (r: TranslateStep)
        ensures
            r == step_after_ste(sid, lookup),
    {
        let ste = match lookup {
            Ok(ste) => ste,
            Err(event) => {
                return TranslateStep::Done(TranslateResult::Fault(event));
            },
        };
        match ste_config_action(&ste) {
            None => TranslateStep::Done(TranslateResult::Fault(EvtEntry::bad_ste(sid))),
            Some(SteAction::Abort) => TranslateStep::Done(
                TranslateResult::Abort(EvtEntry::bad_ste(sid)),
            ),
            Some(SteAction::Bypass) => TranslateStep::Done(TranslateResult::Bypass),
            Some(SteAction::S1Translate) => TranslateStep::WalkStage1,
        }
    }

    /// Translates an address, given what the lookup of the entry and the
    /// stage 1 translation come to. Each is looked at only if it decides.
    pub fn translate_locked(
        &self,
        sid: u32,
        lookup: Result<Ste, EvtEntry>,
        stage1: Result<u64, EvtEntry>,
    ) -> (r: TranslateResult)
        ensures
            r == translation_of(*self, sid, lookup, stage1),
    {
        match self.begin_translate() {
            TranslateStep::Done(result) => {
                return result;
            },
            TranslateStep::LookupSte | TranslateStep::WalkStage1 => {},
        }
        match Self::translate_with_ste(sid, lookup) {
            TranslateStep::Done(result) => result,
            TranslateStep::LookupSte | TranslateStep::WalkStage1 => match stage1 {
                Ok(gpa) => TranslateResult::Translated(gpa),
                Err(event) => TranslateResult::Fault(event),
            },
        }
    }
}

/// A transaction that the SMMU did not let through.
#[derive(Debug, Clone, Copy, PartialEq, Eq, Structural)]
pub struct SmmuDmaFault {
    /// Kind of the event, zero if none was recorded.
    pub event_id: u8,
    /// The stream.
    pub sid: u32,
    /// The address.
    pub input_addr: u64,
}

impl SmmuDmaFault {
    /// The fault of an event.
    pub fn from_event(event: &EvtEntry) -> (r: SmmuDmaFault)
        ensures
            r == (SmmuDmaFault {
                event_id: event.event_id,
                sid: event.sid,
                input_addr: event.input_addr,
            }),
    {
        SmmuDmaFault { event_id: event.event_id, sid: event.sid, input_addr: event.input_addr }
    }

    /// The fault of an abort by the disabled SMMU, which records no event.
    pub fn global_abort(sid: u32, input_addr: u64) -> (r: SmmuDmaFault)
        ensures
            r == (SmmuDmaFault { event_id: 0, sid, input_addr }),
    {
        SmmuDmaFault { event_id: 0, sid, input_addr }
    }
}

/// How a transaction ends.
#[derive(Debug, Clone, Copy, PartialEq, Eq, Structural)]
pub enum DmaOutcome {
    /// It accesses this address.
    Access(u64),
    /// It faults. The event, if there is one, is recorded.
    Fault {
        /// The fault.
        error: SmmuDmaFault,
        /// The event to record.
        event: Option<EvtEntry>,
    },
}

/// How a transaction on `iova` of a stream ends.
pub open spec fn dma_outcome(sid: u32, iova: u64, result: TranslateResult) -> DmaOutcome {
    match result {
        TranslateResult::Bypass => DmaOutcome::Access(iova),
        TranslateResult::Translated(gpa) => DmaOutcome::Access(gpa),
        TranslateResult::GlobalAbort => DmaOutcome::Fault {
            error: SmmuDmaFault { event_id: 0, sid, input_addr: iova },
            event: None,
        },
        TranslateResult::Abort(event) => DmaOutcome::Fault {
            error: SmmuDmaFault {
                event_id: event.event_id,
                sid: event.sid,
                input_addr: event.input_addr,
            },
            event: Some(event),
        },
        TranslateResult::Fault(event) => DmaOutcome::Fault {
            error: SmmuDmaFault {
                event_id: event.event_id,
                sid: event.sid,
                input_addr: event.input_addr,
            },
            event: Some(event),
        },
    }
}

/// Translator of the devices behind a root complex.
#[derive(Debug, Clone, Copy, PartialEq, Eq, Structural)]
pub struct SmmuTranslator {
    /// First stream of the root complex.
    pub stream_id_base: u32,
}

impl SmmuTranslator {
    /// The exclusive upper bound of addresses that can be translated: they
    /// have at most 48 bits.
    pub fn max_iova(&self) -> (r: u64)
        ensures
            r == 0x1_0000_0000_0000,
    {
        0x1_0000_0000_0000
    }

    /// The stream of a requester.
    pub fn stream_of(&self, rid: u16) -> (r: u32)
        requires
            self.stream_id_base + rid <= u32::MAX,
        ensures
            r == self.stream_id_base + rid,
    {
        self.stream_id_base + rid as u32
    }

    /// How a transaction ends, by the result of its translation.
    pub fn translate(&self, rid: u16, iova: u64, result: TranslateResult) -> (r: DmaOutcome)
        requires
            self.stream_id_base + rid <= u32::MAX,
        ensures
            r == dma_outcome((self.stream_id_base + rid) as u32, iova, result),
    {
        let sid: u32 = self.stream_of(rid);
        match result {
            TranslateResult::Bypass => DmaOutcome::Access(iova),
            TranslateResult::Translated(gpa) => DmaOutcome::Access(gpa),
            TranslateResult::GlobalAbort => DmaOutcome::Fault {
                error: SmmuDmaFault::global_abort(sid, iova),
                event: None,
            },
            TranslateResult::Abort(event) | TranslateResult::Fault(event) => DmaOutcome::Fault {
                error: SmmuDmaFault::from_event(&event),
                event: Some(event),
            },
        }
    }
}

/// What becomes of an interrupt message, or of the route of one.
#[derive(Debug, Clone, Copy, PartialEq, Eq, Structural)]
pub enum MsiOutcome {
    /// It is dropped.
    Drop,
    /// It goes on with this address. The requester and the data stay.
    Forward {
        /// The address.
        address: u64,
    },
    /// It is dropped, and the event is recorded.
    Record(EvtEntry),
}

/// What becomes of an interrupt message to `address`.
pub open spec fn msi_outcome(address: u64, result: TranslateResult) -> MsiOutcome {
    match result {
        TranslateResult::Bypass => MsiOutcome::Forward { address },
        TranslateResult::Translated(gpa) => MsiOutcome::Forward { address: gpa },
        TranslateResult::GlobalAbort => MsiOutcome::Drop,
        TranslateResult::Abort(event) => MsiOutcome::Record(event),
        TranslateResult::Fault(event) => MsiOutcome::Record(event),
    }
}

/// Translator of the interrupt messages of the devices behind a root complex,
/// both of those that are sent and of those that are routed by the kernel.
#[derive(Debug, Clone, Copy, PartialEq, Eq, Structural)]
pub struct SmmuSignalMsi {
    /// First stream of the root complex.
    pub stream_id_base: u32,
}

impl SmmuSignalMsi {
    /// The stream of a message, by its requester. A message without one is
    /// dropped.
    pub fn stream_of(&self, devid: Option<u32>) -> (r: Option<u32>)
        requires
            devid matches Some(bdf) ==> self.stream_id_base + bdf % 0x1_0000 <= u32::MAX,
        ensures
            r == (match devid {
                Some(bdf) => Some((self.stream_id_base + bdf % 0x1_0000) as u32),
                None => None,
            }),
    {
        match devid {
            Some(bdf) => Some(self.stream_id_base + bdf % 0x1_0000),
            None => None,
        }
    }

    /// What becomes of a message, by the result of the translation of its
    /// address for writing.
    pub fn signal_msi(&self, devid: Option<u32>, address: u64, result: TranslateResult) -> (r:
        MsiOutcome)
        ensures
            r == (match devid {
                None => MsiOutcome::Drop,
                Some(_) => msi_outcome(address, result),
            }),
    {
        if devid.is_none() {
            return MsiOutcome::Drop;
        }
        match result {
            TranslateResult::Bypass => MsiOutcome::Forward { address },
            TranslateResult::Translated(gpa) => MsiOutcome::Forward { address: gpa },
            TranslateResult::GlobalAbort => MsiOutcome::Drop,
            TranslateResult::Abort(event) => MsiOutcome::Record(event),
            TranslateResult::Fault(event) => MsiOutcome::Record(event),
        }
    }

    /// What becomes of a route that the guest programs: it is enabled with
    /// the address that is forwarded, or left as it is.
    pub fn enable_route(&self, devid: Option<u32>, address: u64, result: TranslateResult) -> (r:
        MsiOutcome)
        ensures
            r == (match devid {
                None => MsiOutcome::Drop,
                Some(_) => msi_outcome(address, result),
            }),
    {
        self.signal_msi(devid, address, result)
    }
}

/// The disabled SMMU records no event, and lets a transaction through exactly
/// if an interrupt message is forwarded, at the same address.
pub proof fn law_disabled_smmu_records_nothing(
    state: SmmuSharedState,
    sid: u32,
    address: u64,
    lookup: Result<Ste, EvtEntry>,
    stage1: Result<u64, EvtEntry>,
)
    requires
        !state.enabled,
    ensures
        ({
            let result = translation_of(state, sid, lookup, stage1);
            if state.gbpa_abort {
                &&& dma_outcome(sid, address, result) == (DmaOutcome::Fault {
                    error: SmmuDmaFault { event_id: 0, sid, input_addr: address },
                    event: None,
                })
                &&& msi_outcome(address, result) == MsiOutcome::Drop
            } else {
                &&& dma_outcome(sid, address, result) == DmaOutcome::Access(address)
                &&& msi_outcome(address, result) == MsiOutcome::Forward { address }
            }
        }),
{
}

/// The translation of transactions and the policy of accelerated streams
/// agree: for the same entry both abort, both bypass, or both translate.
pub proof fn law_translation_agrees_with_policy(
    state: SmmuSharedState,
    sid: u32,
    ste: Ste,
    stage1: Result<u64, EvtEntry>,
)
    requires
        state.in_table(sid),
        ste.is_valid(),
    ensures
        ({
            let result = translation_of(state, sid, Ok(ste), stage1);
            match state.config_of(sid, Some(ste)) {
                super::stream::StreamConfig::Bypass => result == TranslateResult::Bypass,
                super::stream::StreamConfig::Abort => result == TranslateResult::GlobalAbort
                    || result == TranslateResult::Abort(bad_ste_event(sid)) || result
                    == TranslateResult::Fault(bad_ste_event(sid)),
                super::stream::StreamConfig::Translate { .. } => match stage1 {
                    Ok(gpa) => result == TranslateResult::Translated(gpa),
                    Err(event) => result == TranslateResult::Fault(event),
                },
            }
        }),
{
}

/// What comes of a transaction while the SMMU is enabled: its entry aborts it
/// with configuration 0, lets it pass with 4 and has it translated with 5.
/// Every other configuration is a bad entry. An abort is reported as a bad
/// entry of its stream, and what is found wrong with the entry or in stage 1
/// is reported as it was found.
pub proof fn law_entry_decides_the_translation(
    state: SmmuSharedState,
    sid: u32,
    ste: Ste,
    event: EvtEntry,
    stage1: Result<u64, EvtEntry>,
)
    requires
        state.enabled,
    ensures
        ({
            let config = ste.dw0 / 2 % 8;
            let bad = EvtEntry { event_id: 4, sid, input_addr: 0 };
            translation_of(state, sid, Ok(ste), stage1) == (if config == 0 {
                TranslateResult::Abort(bad)
            } else if config == 4 {
                TranslateResult::Bypass
            } else if config == 5 {
                match stage1 {
                    Ok(gpa) => TranslateResult::Translated(gpa),
                    Err(e) => TranslateResult::Fault(e),
                }
            } else {
                TranslateResult::Fault(bad)
            })
        }),
        translation_of(state, sid, Err(event), stage1) == TranslateResult::Fault(event),
{
}

/// The steps of a translation lead to its result: the entry is read exactly if
/// the SMMU is enabled, and stage 1 walked exactly if the entry says so.
pub proof fn law_translation_steps_lead_to_the_result(
    state: SmmuSharedState,
    sid: u32,
    lookup: Result<Ste, EvtEntry>,
    stage1: Result<u64, EvtEntry>,
    first: TranslateStep,
)
    requires
        call_ensures(SmmuSharedState::begin_translate, (&state,), first),
    ensures
        ({
            let result = translation_of(state, sid, lookup, stage1);
            &&& first is LookupSte <==> state.enabled
            &&& first matches TranslateStep::Done(done) ==> result == done
            &&& first is LookupSte ==> match step_after_ste(sid, lookup) {
                TranslateStep::Done(done) => result == done,
                TranslateStep::WalkStage1 => {
                    &&& lookup is Ok
                    &&& lookup->Ok_0.dw0 / 2 % 8 == 5
                    &&& stage1 matches Ok(gpa) ==> result == TranslateResult::Translated(gpa)
                    &&& stage1 matches Err(e) ==> result == TranslateResult::Fault(e)
                },
                TranslateStep::LookupSte => false,
            }
        }),
{
}

/// Memory and interrupts are treated alike: an interrupt is forwarded exactly
/// where an access to its address goes, is recorded exactly if the access is,
/// as the same event, and dropped exactly if the access fails without one.
pub proof fn law_interrupts_are_translated_as_memory(
    sid: u32,
    address: u64,
    result: TranslateResult,
    to: u64,
    event: EvtEntry,
)
    ensures
        msi_outcome(address, result) == (MsiOutcome::Forward { address: to }) <==> dma_outcome(
            sid,
            address,
            result,
        ) == DmaOutcome::Access(to),
        msi_outcome(address, result) == MsiOutcome::Record(event) <==> (dma_outcome(
            sid,
            address,
            result,
        ) matches DmaOutcome::Fault { event: recorded, .. } && recorded == Some(event)),
        msi_outcome(address, result) == MsiOutcome::Drop <==> (dma_outcome(
            sid,
            address,
            result,
        ) matches DmaOutcome::Fault { event: recorded, .. } && recorded is None),
{
}

/// An access goes to its own address if the translation is bypassed, to the
/// translated one if there is one, and fails otherwise. The failure says what
/// the event says, or without an event the stream and the address.
pub proof fn law_access_follows_the_translation(sid: u32, iova: u64, result: TranslateResult)
    ensures
        dma_outcome(sid, iova, result) is Access <==> result is Bypass || result is Translated,
        result is Bypass ==> dma_outcome(sid, iova, result) == DmaOutcome::Access(iova),
        result matches TranslateResult::Translated(gpa) ==> dma_outcome(sid, iova, result)
            == DmaOutcome::Access(gpa),
        dma_outcome(sid, iova, result) matches DmaOutcome::Fault { error, event } ==> match event {
            Some(e) => {
                &&& result == TranslateResult::Abort(e) || result == TranslateResult::Fault(e)
                &&& error.event_id == e.event_id
                &&& error.sid == e.sid
                &&& error.input_addr == e.input_addr
            },
            None => result is GlobalAbort && error.event_id == 0 && error.sid == sid
                && error.input_addr == iova,
        },
{
}

/// A requester has one stream: memory, interrupts and the configuration of the
/// stream agree on it.
pub proof fn law_requester_has_one_stream(
    stream_id_base: u32,
    range: AssignedBusRange,
    rid: u16,
    for_memory: u32,
    for_interrupts: Option<u32>,
    configured: u32,
)
    requires
        stream_id_base + 0xffff <= u32::MAX,
        call_ensures(
            SmmuTranslator::stream_of,
            (&SmmuTranslator { stream_id_base }, rid),
            for_memory,
        ),
        call_ensures(
            SmmuSignalMsi::stream_of,
            (&SmmuSignalMsi { stream_id_base }, Some(rid as u32)),
            for_interrupts,
        ),
        call_ensures(
            compose_stream_id,
            (&range, stream_id_base, Some(rid as u32)),
            Some(configured),
        ),
    ensures
        for_memory == configured,
        for_interrupts == Some(configured),
        configured - stream_id_base == rid,
{
}

} // verus!
