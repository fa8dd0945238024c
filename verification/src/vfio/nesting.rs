//! Nested translation of passthrough devices by the IOMMU of the host.

use vstd::prelude::*;

use crate::bytes::{get_u64, le64};
use crate::smmu::stream::{Ste, STE_CONFIG_BYPASS, STE_CONFIG_S1_TRANS};
use crate::smmu::{oas_bits_from_encoding, oas_bits_of};

verus! {

/// Why the description of the host IOMMU is refused.
#[derive(Debug, Clone, Copy, PartialEq, Eq, Structural)]
pub enum HostInfoError {
    /// It describes another kind of IOMMU.
    UnexpectedType(u32),
    /// Its output address size is not known.
    UnknownOas(u8),
}

/// The output address size, in bits, of a host IOMMU by its description: the
/// kind of IOMMU and its register IDR5, of which the size is bits 0 to 2.
pub fn query_host_caps(data_type: u32, smmuv3_type: u32, idr5: u32) -> (r: Result<
    u8,
    HostInfoError,
>)
    ensures
        r == (if data_type != smmuv3_type {
            Err::<u8, HostInfoError>(HostInfoError::UnexpectedType(data_type))
        } else {
            match oas_bits_of((idr5 % 8) as u8) {
                Some(bits) => Ok::<u8, HostInfoError>(bits),
                None => Err::<u8, HostInfoError>(HostInfoError::UnknownOas((idr5 % 8) as u8)),
            }
        }),
{
    if data_type != smmuv3_type {
        return Err(HostInfoError::UnexpectedType(data_type));
    }
    let encoding: u8 = (idr5 % 8) as u8;
    match oas_bits_from_encoding(encoding) {
        Some(bits) => Ok(bits),
        None => Err(HostInfoError::UnknownOas(encoding)),
    }
}

/// What a stream is switched to.
#[derive(Debug, Clone, Copy, PartialEq, Eq, Structural)]
pub enum StreamTarget {
    /// Nothing: transactions fault.
    Abort,
    /// The page table of the guest addresses.
    Bypass,
    /// A page table nested under it, made with these double-words.
    Translate {
        /// First double-word of the stream table entry.
        dw0: u64,
        /// Second double-word, reduced to what may be used.
        dw1: u64,
    },
}

/// What the entry of a stream asks for. An entry that is not valid and a
/// configuration that is not supported abort.
pub open spec fn target_of(ste: Ste) -> StreamTarget {
    if !ste.is_valid() {
        StreamTarget::Abort
    } else if ste.spec_config() == STE_CONFIG_BYPASS {
        StreamTarget::Bypass
    } else if ste.spec_config() == STE_CONFIG_S1_TRANS {
        StreamTarget::Translate { dw0: ste.nesting().0, dw1: ste.nesting().1 }
    } else {
        StreamTarget::Abort
    }
}

/// What the 64 bytes of a stream table entry ask for.
pub fn on_cfgi_ste(ste_bytes: &[u8; 64]) -> (r: StreamTarget)
    ensures
        r == target_of(Ste::of_bytes(ste_bytes@)),
{
    let (valid, config) = Ste::parse_ste_config(ste_bytes);
    if !valid {
        return StreamTarget::Abort;
    }
    if config == STE_CONFIG_BYPASS {
        StreamTarget::Bypass
    } else if config == STE_CONFIG_S1_TRANS {
        let dwords = Ste::extract_ste_dwords(ste_bytes);
        StreamTarget::Translate { dw0: dwords[0], dw1: dwords[1] }
    } else {
        StreamTarget::Abort
    }
}

/// An operation on the IOMMU of the host.
#[derive(Debug, Clone, Copy, PartialEq, Eq, Structural)]
pub enum IommuOp {
    /// Detach the device.
    Detach,
    /// Attach the device to this page table.
    Attach(u32),
}

/// How a stream is switched. The operations run in order; the first that
/// fails ends the switch, and the state stays. Once all have succeeded, the
/// state is committed, and the page table that is not used any more is
/// destroyed, whether that succeeds or not.
#[derive(Debug)]
pub struct SwitchPlan {
    /// The operations.
    pub ops: Vec<IommuOp>,
    /// The page table to destroy.
    pub destroy: Option<u32>,
}

/// What the host holds for a device.
#[derive(Debug, Clone, Copy, PartialEq, Eq, Structural)]
pub struct StreamBackendState {
    /// Whether the device is attached to a page table: its nested one, or the
    /// parent if it has none.
    pub attached: bool,
    /// The nested page table in use, if any.
    pub current_nested_hwpt: Option<u32>,
    /// The virtual device, once there is one.
    pub vdevice_id: Option<u32>,
}

/// What a device is attached to after the operations.
pub open spec fn attachment_after(ops: Seq<IommuOp>, device: Option<u32>) -> Option<u32> {
    if ops.len() == 0 {
        device
    } else {
        match ops.last() {
            IommuOp::Detach => None,
            IommuOp::Attach(hwpt) => Some(hwpt),
        }
    }
}

impl StreamBackendState {
    /// What the device is attached to, as the state has it.
    pub open spec fn attachment(self, s2_parent_hwpt_id: u32) -> Option<u32> {
        if !self.attached {
            None
        } else {
            match self.current_nested_hwpt {
                Some(hwpt) => Some(hwpt),
                None => Some(s2_parent_hwpt_id),
            }
        }
    }

    /// The operations that abort the transactions of the device.
    pub open spec fn abort_ops(self) -> Seq<IommuOp> {
        if self.attached || self.current_nested_hwpt is Some {
            seq![IommuOp::Detach]
        } else {
            Seq::empty()
        }
    }

    /// The operations that let the device bypass.
    pub open spec fn bypass_ops(self, s2_parent_hwpt_id: u32) -> Seq<IommuOp> {
        if self.current_nested_hwpt is Some {
            seq![IommuOp::Detach, IommuOp::Attach(s2_parent_hwpt_id)]
        } else {
            seq![IommuOp::Attach(s2_parent_hwpt_id)]
        }
    }

    /// A device that is attached to the parent page table.
    pub fn new() -> (r: StreamBackendState)
        ensures
            r == (StreamBackendState {
                attached: true,
                current_nested_hwpt: None,
                vdevice_id: None,
            }),
    {
        StreamBackendState { attached: true, current_nested_hwpt: None, vdevice_id: None }
    }

    /// How to abort the transactions of the device: detach it from whatever
    /// it is attached to.
    pub fn handle_abort(&self) -> (r: SwitchPlan)
        ensures
            r.ops@ == self.abort_ops(),
            r.destroy == self.current_nested_hwpt,
    {
        let mut ops: Vec<IommuOp> = Vec::new();
        if self.attached || self.current_nested_hwpt.is_some() {
            ops.push(IommuOp::Detach);
        }
        SwitchPlan { ops, destroy: self.current_nested_hwpt }
    }

    /// How to let the device bypass: attach it to the parent page table
    /// instead of its nested one.
    pub fn handle_bypass(&self, s2_parent_hwpt_id: u32) -> (r: SwitchPlan)
        ensures
            r.ops@ == self.bypass_ops(s2_parent_hwpt_id),
            r.destroy == self.current_nested_hwpt,
    {
        let mut ops: Vec<IommuOp> = Vec::new();
        if self.current_nested_hwpt.is_some() {
            ops.push(IommuOp::Detach);
        }
        ops.push(IommuOp::Attach(s2_parent_hwpt_id));
        SwitchPlan { ops, destroy: self.current_nested_hwpt }
    }

    /// The stream for which a virtual device has to be allocated before the
    /// device is nested for the first time, if any.
    pub fn needs_vdevice(&self, stream_id: Option<u32>) -> (r: Option<u32>)
        ensures
            r == (if self.vdevice_id is None {
                stream_id
            } else {
                None
            }),
    {
        if self.vdevice_id.is_none() {
            stream_id
        } else {
            None
        }
    }

    /// Notes the virtual device that was allocated.
    pub fn vdevice_allocated(&mut self, vdevice_id: u32)
        requires
            old(self).vdevice_id is None,
        ensures
            *final(self) == (StreamBackendState { vdevice_id: Some(vdevice_id), ..*old(self) }),
    {
        self.vdevice_id = Some(vdevice_id);
    }

    /// How to nest the device in a page table that was allocated for it: the
    /// device leaves whatever it is attached to.
    pub fn handle_s1_translate(&self, new_hwpt: u32) -> (r: SwitchPlan)
        ensures
            r.ops@ == seq![IommuOp::Detach, IommuOp::Attach(new_hwpt)],
            r.destroy == self.current_nested_hwpt,
    {
        let mut ops: Vec<IommuOp> = Vec::new();
        ops.push(IommuOp::Detach);
        ops.push(IommuOp::Attach(new_hwpt));
        SwitchPlan { ops, destroy: self.current_nested_hwpt }
    }

    /// Commits a switch: whether the device is attached now, and to which
    /// nested page table, if it is nested.
    pub fn switched(&mut self, attached: bool, new_hwpt: Option<u32>)
        ensures
            *final(self) == (StreamBackendState {
                attached,
                current_nested_hwpt: new_hwpt,
                ..*old(self)
            }),
    {
        self.attached = attached;
        self.current_nested_hwpt = new_hwpt;
    }

    /// What to destroy, in order, when the device goes away, after it was
    /// detached.
    pub fn teardown(&mut self) -> (r: Vec<u32>)
        ensures
            *final(self) == (StreamBackendState {
                attached: false,
                current_nested_hwpt: None,
                vdevice_id: None,
            }),
            r@ == option_seq(old(self).current_nested_hwpt) + option_seq(old(self).vdevice_id),
    {
        let mut ids: Vec<u32> = Vec::new();
        if let Some(hwpt) = self.current_nested_hwpt {
            ids.push(hwpt);
        }
        assert(ids@ =~= option_seq(self.current_nested_hwpt));
        if let Some(vdevice) = self.vdevice_id {
            ids.push(vdevice);
        }
        assert(ids@ =~= option_seq(self.current_nested_hwpt) + option_seq(self.vdevice_id));
        self.attached = false;
        self.current_nested_hwpt = None;
        self.vdevice_id = None;
        ids
    }
}

/// The sequence of what an option holds.
pub open spec fn option_seq(id: Option<u32>) -> Seq<u32> {
    match id {
        Some(x) => seq![x],
        None => Seq::empty(),
    }
}

/// The two double-words of a command that the guest queued.
pub fn on_tlbi(cmd_bytes: &[u8; 16]) -> (r: [u64; 2])
    ensures
        r@[0] == le64(cmd_bytes@, 0),
        r@[1] == le64(cmd_bytes@, 8),
{
    let slice: &[u8] = cmd_bytes.as_slice();
    [get_u64(slice, 0), get_u64(slice, 8)]
}

/// A switch leaves the device attached to what was asked for: to nothing if
/// it aborts, to the parent page table if it bypasses, to the new nested one
/// if it is translated. The committed state says so.
pub proof fn law_switch_attaches_to_the_target(
    state: StreamBackendState,
    s2_parent_hwpt_id: u32,
    new_hwpt: u32,
)
    ensures
        ({
            let device = state.attachment(s2_parent_hwpt_id);
            let aborted = StreamBackendState {
                attached: false,
                current_nested_hwpt: None,
                ..state
            };
            let bypassed = StreamBackendState {
                attached: true,
                current_nested_hwpt: None,
                ..state
            };
            let nested = StreamBackendState {
                attached: true,
                current_nested_hwpt: Some(new_hwpt),
                ..state
            };
            let nested_ops = seq![IommuOp::Detach, IommuOp::Attach(new_hwpt)];
            &&& attachment_after(state.abort_ops(), device) is None
            &&& aborted.attachment(s2_parent_hwpt_id) is None
            &&& attachment_after(state.bypass_ops(s2_parent_hwpt_id), device) == Some(
                s2_parent_hwpt_id,
            )
            &&& bypassed.attachment(s2_parent_hwpt_id) == Some(s2_parent_hwpt_id)
            &&& attachment_after(nested_ops, device) == Some(new_hwpt)
            &&& nested.attachment(s2_parent_hwpt_id) == Some(new_hwpt)
        }),
{
}

/// The target of a stream and the policy of its stream agree for the same
/// entry.
pub proof fn law_target_agrees_with_policy(sid: u32, ste: Ste)
    ensures
        match target_of(ste) {
            StreamTarget::Abort => crate::smmu::stream::config_of_ste(sid, ste)
                == crate::smmu::stream::StreamConfig::Abort,
            StreamTarget::Bypass => crate::smmu::stream::config_of_ste(sid, ste)
                == crate::smmu::stream::StreamConfig::Bypass,
            StreamTarget::Translate { dw0, dw1 } => crate::smmu::stream::config_of_ste(sid, ste)
                == (crate::smmu::stream::StreamConfig::Translate {
                sid,
                nested_dw0: dw0,
                nested_dw1: dw1,
            }),
        },
{
}

/// A switch does no more than it has to: a device is detached only if it is
/// attached, and one that is not nested is moved to the parent without being
/// detached in between. What was nested before is destroyed after.
pub proof fn law_switch_does_no_more_than_needed(
    state: StreamBackendState,
    s2_parent_hwpt_id: u32,
    new_hwpt: u32,
    abort: SwitchPlan,
    bypass: SwitchPlan,
    translate: SwitchPlan,
)
    requires
        call_ensures(StreamBackendState::handle_abort, (&state,), abort),
        call_ensures(StreamBackendState::handle_bypass, (&state, s2_parent_hwpt_id), bypass),
        call_ensures(StreamBackendState::handle_s1_translate, (&state, new_hwpt), translate),
    ensures
        abort.ops@ == (if state.attached || state.current_nested_hwpt is Some {
            seq![IommuOp::Detach]
        } else {
            Seq::<IommuOp>::empty()
        }),
        bypass.ops@ == (if state.current_nested_hwpt is Some {
            seq![IommuOp::Detach, IommuOp::Attach(s2_parent_hwpt_id)]
        } else {
            seq![IommuOp::Attach(s2_parent_hwpt_id)]
        }),
        translate.ops@ == seq![IommuOp::Detach, IommuOp::Attach(new_hwpt)],
        abort.destroy == state.current_nested_hwpt,
        bypass.destroy == state.current_nested_hwpt,
        translate.destroy == state.current_nested_hwpt,
{
}

/// What a changed entry asks for: a valid one with configuration 4 bypasses,
/// with 5 it is nested, with the first double-word and the bits 0 to 7 and 27
/// to 29 of the second. Everything else aborts.
pub proof fn law_entry_decides_the_target(ste: Ste)
    ensures
        target_of(ste) is Bypass <==> ste.dw0 % 16 == 9,
        target_of(ste) is Translate <==> ste.dw0 % 16 == 11,
        target_of(ste) is Abort <==> ste.dw0 % 16 != 9 && ste.dw0 % 16 != 11,
        target_of(ste) matches StreamTarget::Translate { dw0, dw1 } ==> dw0 == ste.dw0 && dw1 as int
            == ste.dw1 % 256 + 0x800_0000 * (ste.dw1 as int / 0x800_0000 % 8),
{
    crate::smmu::stream::law_entry_decides_its_stream(0, ste);
    law_target_agrees_with_policy(0, ste);
}

/// A host is asked for its address size only if it is an SMMUv3; the size is
/// in the lowest three bits of IDR5, of which seven encodings are known.
pub proof fn law_host_size_is_read_from_idr5(
    data_type: u32,
    smmuv3_type: u32,
    idr5: u32,
    r: Result<u8, HostInfoError>,
)
    requires
        call_ensures(query_host_caps, (data_type, smmuv3_type, idr5), r),
    ensures
        r is Ok <==> data_type == smmuv3_type && idr5 % 8 != 7,
        r matches Ok(bits) ==> oas_bits_of((idr5 % 8) as u8) == Some(bits),
        r matches Err(HostInfoError::UnexpectedType(t)) ==> t == data_type && data_type
            != smmuv3_type,
        r matches Err(HostInfoError::UnknownOas(oas)) ==> oas == 7,
{
}

/// A virtual device is allocated once, for the stream of the device.
pub proof fn law_virtual_device_is_allocated_once(
    state: StreamBackendState,
    stream_id: Option<u32>,
    needed: Option<u32>,
)
    requires
        call_ensures(StreamBackendState::needs_vdevice, (&state, stream_id), needed),
    ensures
        needed is Some <==> state.vdevice_id is None && stream_id is Some,
        needed is Some ==> needed == stream_id,
{
}

/// What is destroyed with a device is what it has, each once.
pub proof fn law_what_is_there_is_listed(id: Option<u32>)
    ensures
        option_seq(id).len() == (if id is Some {
            1nat
        } else {
            0
        }),
        id matches Some(x) ==> option_seq(id)[0] == x,
{
}

/// What a device has is destroyed when it goes away, what it was nested in
/// first, and it is then attached to nothing.
pub proof fn law_teardown_destroys_what_is_there(state: &mut StreamBackendState, r: Vec<u32>)
    requires
        call_ensures(StreamBackendState::teardown, (state,), r),
    ensures
        old(state).current_nested_hwpt matches Some(hwpt) ==> r@.len() > 0 && r@[0] == hwpt,
        old(state).vdevice_id matches Some(id) ==> r@.len() > 0 && r@[r@.len() - 1] == id,
        r@.len() == (if old(state).current_nested_hwpt is Some {
            1int
        } else {
            0
        }) + (if old(state).vdevice_id is Some {
            1int
        } else {
            0
        }),
        !final(state).attached,
        final(state).current_nested_hwpt is None,
        final(state).vdevice_id is None,
{
}

/// A switch that was made is what the state says, and the virtual device
/// stays.
pub proof fn law_switch_is_remembered(
    state: &mut StreamBackendState,
    attached: bool,
    new_hwpt: Option<u32>,
)
    requires
        call_ensures(StreamBackendState::switched, (state, attached, new_hwpt), ()),
    ensures
        final(state).attached == attached,
        final(state).current_nested_hwpt == new_hwpt,
        final(state).vdevice_id == old(state).vdevice_id,
{
}

/// A command is handed on as it is, its two double-words with the lowest byte
/// first.
pub proof fn law_command_is_handed_on(cmd_bytes: &[u8; 16], r: [u64; 2])
    requires
        call_ensures(on_tlbi, (cmd_bytes,), r),
    ensures
        r@[0] == le64(cmd_bytes@, 0),
        r@[1] == le64(cmd_bytes@, 8),
{
}

} // verus!
