//! State of an SMMU: its configuration and the policy of accelerated streams.

use vstd::arithmetic::power2::{lemma_pow2_pos, pow2};
use vstd::prelude::*;

use crate::pci::bus_range::AssignedBusRange;
use super::queue::QueueErrorState;
use super::registers::{HostSmmuCaps, Idr0TtEndian, SmmuOasPolicy};
use super::stream::{
    compose_stream_id, config_of_ste, stream_id, Ste, StreamConfig, STE_SIZE,
};
use super::{bit64, oas_bits_from_encoding, oas_bits_of};

verus! {

/// A device whose streams the host accelerates.
#[derive(Debug, Clone, Copy, PartialEq, Eq, Structural)]
pub struct AccelDevice {
    /// The buses of its port.
    pub bus_range: AssignedBusRange,
    /// First stream of its root complex.
    pub stream_id_base: u32,
    /// Number by which the caller knows the backend of the device.
    pub backend: usize,
}

impl AccelDevice {
    /// Its stream is within the range of stream identifiers.
    pub open spec fn in_range(self) -> bool {
        self.stream_id_base + self.bus_range.secondary * 256 <= u32::MAX
    }
}

/// State of an SMMU.
#[derive(Debug)]
pub struct SmmuSharedState {
    /// Whether the SMMU is enabled.
    pub enabled: bool,
    /// Whether transactions abort while it is disabled; they bypass it
    /// otherwise.
    pub gbpa_abort: bool,
    /// Base address of the stream table.
    pub strtab_base: u64,
    /// The stream table has two to this power entries.
    pub strtab_log2size: u8,
    /// Advertised output address size in bits.
    pub oas_bits: u8,
    /// Mask of output addresses.
    pub oas_mask: u64,
    /// The host SMMU that the devices are behind, once it is known.
    pub resolved_host_caps: Option<HostSmmuCaps>,
    /// How the output address size is found.
    pub oas_policy: SmmuOasPolicy,
    /// Whether the host accelerates streams.
    pub accel: bool,
    /// The accelerated devices.
    pub accel_devices: Vec<AccelDevice>,
    /// The event queue and the global errors.
    pub queue_state: QueueErrorState,
}

/// Why a host SMMU cannot back this one.
#[derive(Debug, Clone, Copy, PartialEq, Eq, Structural)]
pub enum HostCapsError {
    /// It differs from the one that already does.
    SecondPhysicalSmmu,
    /// It has no AArch64 translation tables.
    NoAarch64,
    /// It has no little-endian translation tables.
    NotLittleEndian,
    /// It has no 4 KiB granule.
    NoGran4k,
    /// Its output address size is not known.
    UnknownOas(u8),
    /// The configured output address size exceeds that of the host.
    OasExceedsHost {
        /// The configured size in bits.
        oas: u8,
        /// That of the host.
        host_oas_bits: u8,
    },
}

impl HostCapsError {
    /// The text of the error.
    pub open spec fn text(self) -> Seq<char> {
        match self {
            HostCapsError::SecondPhysicalSmmu =>
                "a single vSMMU cannot be backed by two physical SMMUs"@,
            HostCapsError::NoAarch64 => "host SMMU does not support AArch64 translation tables"@,
            HostCapsError::NotLittleEndian =>
                "host SMMU does not support little-endian translation tables"@,
            HostCapsError::NoGran4k =>
                "host SMMU does not support the 4KB translation granule (IDR5.GRAN4K=0)"@,
            HostCapsError::UnknownOas(_) => "host SMMU reported an unknown OAS encoding"@,
            HostCapsError::OasExceedsHost { .. } => "configured SMMU oas exceeds host SMMU OAS"@,
        }
    }

    /// The text of the error.
    pub fn message(&self) -> (r: &'static str)
        ensures
            r@ == self.text(),
    {
        match self {
            HostCapsError::SecondPhysicalSmmu =>
                "a single vSMMU cannot be backed by two physical SMMUs",
            HostCapsError::NoAarch64 => "host SMMU does not support AArch64 translation tables",
            HostCapsError::NotLittleEndian =>
                "host SMMU does not support little-endian translation tables",
            HostCapsError::NoGran4k =>
                "host SMMU does not support the 4KB translation granule (IDR5.GRAN4K=0)",
            HostCapsError::UnknownOas(_) => "host SMMU reported an unknown OAS encoding",
            HostCapsError::OasExceedsHost { .. } => "configured SMMU oas exceeds host SMMU OAS",
        }
    }
}

/// Why a host SMMU cannot back an SMMU that has none yet.
pub open spec fn caps_fault(policy: SmmuOasPolicy, caps: HostSmmuCaps) -> Option<HostCapsError> {
    if !caps.ttf.aarch64 {
        Some(HostCapsError::NoAarch64)
    } else if caps.ttendian != Idr0TtEndian::Mixed && caps.ttendian != Idr0TtEndian::Le {
        Some(HostCapsError::NotLittleEndian)
    } else if !caps.gran4k {
        Some(HostCapsError::NoGran4k)
    } else {
        match oas_bits_of(caps.oas) {
            None => Some(HostCapsError::UnknownOas(caps.oas)),
            Some(host_oas_bits) => match policy {
                SmmuOasPolicy::Fixed(oas) => if oas > host_oas_bits {
                    Some(HostCapsError::OasExceedsHost { oas, host_oas_bits })
                } else {
                    None
                },
                SmmuOasPolicy::Auto => None,
            },
        }
    }
}

/// The mask of an output address size.
pub open spec fn mask_of(oas_bits: u8) -> u64 {
    (pow2(oas_bits as nat) - 1) as u64
}

/// How the policy of a stream is found.
#[derive(Debug, Clone, Copy, PartialEq, Eq, Structural)]
pub enum ConfigStep {
    /// It is this.
    Ready(StreamConfig),
    /// By the entry of the stream at this address.
    ReadSte(u64),
}

/// What the caller does with a device that was registered.
#[derive(Debug, Clone, Copy, PartialEq, Eq, Structural)]
pub enum RegisterStep {
    /// Apply this policy.
    Apply(StreamConfig),
    /// Read the entry of the stream and apply what it says.
    ReadSte {
        /// The stream.
        sid: u32,
        /// Address of its entry.
        address: u64,
    },
    /// Leave it detached until its stream is configured.
    LeaveDetached,
}

impl SmmuSharedState {
    /// The policy while the SMMU is disabled.
    pub open spec fn disabled_config(self) -> StreamConfig {
        if self.gbpa_abort {
            StreamConfig::Abort
        } else {
            StreamConfig::Bypass
        }
    }

    /// Whether the stream table has an entry for a stream.
    pub open spec fn in_table(self, sid: u32) -> bool {
        sid < pow2(self.strtab_log2size as nat)
    }

    /// Address of the entry of a stream.
    pub open spec fn ste_address(self, sid: u32) -> int {
        self.strtab_base + sid * STE_SIZE
    }

    /// Where the policy of a stream depends on its entry, the entry has an
    /// address.
    pub open spec fn entry_ok(self, sid: u32) -> bool {
        self.enabled ==> {
            &&& self.strtab_log2size < 64
            &&& self.in_table(sid) ==> self.ste_address(sid) <= u64::MAX
        }
    }

    /// How the policy of a stream is found.
    pub open spec fn config_step(self, sid: u32) -> ConfigStep {
        if !self.enabled {
            ConfigStep::Ready(self.disabled_config())
        } else if !self.in_table(sid) {
            ConfigStep::Ready(StreamConfig::Abort)
        } else {
            ConfigStep::ReadSte(self.ste_address(sid) as u64)
        }
    }

    /// The policy of a stream, where reading its entry gives `read`.
    pub open spec fn config_of(self, sid: u32, read: Option<Ste>) -> StreamConfig {
        match self.config_step(sid) {
            ConfigStep::Ready(config) => config,
            ConfigStep::ReadSte(_) => match read {
                Some(ste) => config_of_ste(sid, ste),
                None => StreamConfig::Abort,
            },
        }
    }

    /// What is done with a device that is registered.
    pub open spec fn register_step(self, device: AccelDevice) -> RegisterStep {
        match device_sid(device) {
            Some(sid) => match self.config_step(sid) {
                ConfigStep::Ready(config) => RegisterStep::Apply(config),
                ConfigStep::ReadSte(address) => RegisterStep::ReadSte { sid, address },
            },
            None => if self.enabled {
                RegisterStep::LeaveDetached
            } else {
                RegisterStep::Apply(self.disabled_config())
            },
        }
    }

    /// The stream of every device is within the range of stream identifiers.
    pub open spec fn devices_ok(self) -> bool {
        forall|i: int|
            0 <= i < self.accel_devices@.len() ==> (#[trigger] self.accel_devices@[i]).in_range()
    }

    /// A disabled SMMU.
    pub fn new(oas_bits: u8, oas_policy: SmmuOasPolicy, accel: bool) -> (r: SmmuSharedState)
        requires
            oas_bits < 64,
        ensures
            !r.enabled,
            !r.gbpa_abort,
            r.strtab_base == 0,
            r.strtab_log2size == 0,
            r.oas_bits == oas_bits,
            r.oas_mask == mask_of(oas_bits),
            r.resolved_host_caps is None,
            r.oas_policy == oas_policy,
            r.accel == accel,
            r.accel_devices@.len() == 0,
            r.queue_state == QueueErrorState::reset(),
    {
        let oas_mask: u64 = bit64(oas_bits) - 1;
        SmmuSharedState {
            enabled: false,
            gbpa_abort: false,
            strtab_base: 0,
            strtab_log2size: 0,
            oas_bits,
            oas_mask,
            resolved_host_caps: None,
            oas_policy,
            accel,
            accel_devices: Vec::new(),
            queue_state: QueueErrorState::new(),
        }
    }

    /// Whether the host accelerates streams.
    pub fn is_accel(&self) -> (r: bool)
        ensures
            r == self.accel,
    {
        self.accel
    }

    /// The advertised output address size in bits.
    pub fn oas_bits(&self) -> (r: u8)
        ensures
            r == self.oas_bits,
    {
        self.oas_bits
    }

    /// Base address of the stream table, and the power of two that is its
    /// number of entries.
    pub fn strtab_config(&self) -> (r: (u64, u8))
        ensures
            r == (self.strtab_base, self.strtab_log2size),
    {
        (self.strtab_base, self.strtab_log2size)
    }

    /// Everything but what is found out from the host, and the devices, is as
    /// before.
    pub open spec fn same_but_host(self, next: SmmuSharedState) -> bool {
        &&& next.enabled == self.enabled
        &&& next.gbpa_abort == self.gbpa_abort
        &&& next.strtab_base == self.strtab_base
        &&& next.strtab_log2size == self.strtab_log2size
        &&& next.oas_policy == self.oas_policy
        &&& next.accel == self.accel
        &&& next.queue_state == self.queue_state
    }

    /// What is found out from the host is as before.
    pub open spec fn same_host(self, next: SmmuSharedState) -> bool {
        &&& next.oas_bits == self.oas_bits
        &&& next.oas_mask == self.oas_mask
        &&& next.resolved_host_caps == self.resolved_host_caps
    }

    /// Why a host SMMU cannot back this one.
    pub open spec fn host_fault(self, caps: HostSmmuCaps) -> Option<HostCapsError> {
        match self.resolved_host_caps {
            Some(existing) => if existing == caps {
                None
            } else {
                Some(HostCapsError::SecondPhysicalSmmu)
            },
            None => caps_fault(self.oas_policy, caps),
        }
    }

    /// The host SMMU is this one. Unless it was before, its output address
    /// size is adopted where the policy says so.
    pub open spec fn host_settled(self, caps: HostSmmuCaps, next: SmmuSharedState) -> bool {
        &&& next.resolved_host_caps == Some(caps)
        &&& if self.resolved_host_caps is None && self.oas_policy == SmmuOasPolicy::Auto {
            &&& Some(next.oas_bits) == oas_bits_of(caps.oas)
            &&& next.oas_mask == mask_of(next.oas_bits)
        } else {
            &&& next.oas_bits == self.oas_bits
            &&& next.oas_mask == self.oas_mask
        }
    }

    /// Everything but the configuration of translation is as before.
    pub open spec fn same_but_translation(self, next: SmmuSharedState) -> bool {
        &&& next.oas_bits == self.oas_bits
        &&& next.oas_mask == self.oas_mask
        &&& next.resolved_host_caps == self.resolved_host_caps
        &&& next.oas_policy == self.oas_policy
        &&& next.accel == self.accel
        &&& next.accel_devices@ == self.accel_devices@
        &&& next.queue_state == self.queue_state
    }

    /// Takes the capabilities of the host SMMU that a device is behind. The
    /// first device decides: its host must be able to walk the tables of the
    /// guest, and its output address size is adopted or is the upper bound of
    /// the given one. Every other device must be behind the same host SMMU.
    pub fn resolve_host_caps(&mut self, caps: HostSmmuCaps) -> (r: Result<(), HostCapsError>)
        ensures
            old(self).same_but_host(*final(self)),
            final(self).accel_devices@ == old(self).accel_devices@,
            match old(self).host_fault(caps) {
                Some(fault) => {
                    &&& r == Err::<(), HostCapsError>(fault)
                    &&& old(self).same_host(*final(self))
                },
                None => {
                    &&& r == Ok::<(), HostCapsError>(())
                    &&& old(self).host_settled(caps, *final(self))
                },
            },
    {
        if let Some(existing) = self.resolved_host_caps {
            if existing != caps {
                return Err(HostCapsError::SecondPhysicalSmmu);
            }
            return Ok(());
        }
        if !caps.ttf.aarch64 {
            return Err(HostCapsError::NoAarch64);
        }
        if caps.ttendian != Idr0TtEndian::Mixed && caps.ttendian != Idr0TtEndian::Le {
            return Err(HostCapsError::NotLittleEndian);
        }
        if !caps.gran4k {
            return Err(HostCapsError::NoGran4k);
        }
        let host_oas_bits: u8 = match oas_bits_from_encoding(caps.oas) {
            Some(bits) => bits,
            None => {
                return Err(HostCapsError::UnknownOas(caps.oas));
            },
        };
        match self.oas_policy {
            SmmuOasPolicy::Auto => {
                self.oas_bits = host_oas_bits;
                self.oas_mask = bit64(host_oas_bits) - 1;
            },
            SmmuOasPolicy::Fixed(oas) => {
                if oas > host_oas_bits {
                    return Err(HostCapsError::OasExceedsHost { oas, host_oas_bits });
                }
            },
        }
        self.resolved_host_caps = Some(caps);
        Ok(())
    }

    /// Enables or disables the SMMU. The caller applies the policies of all
    /// devices anew.
    pub fn set_enabled(&mut self, enabled: bool)
        ensures
            old(self).same_but_translation(*final(self)),
            final(self).enabled == enabled,
            final(self).gbpa_abort == old(self).gbpa_abort,
            final(self).strtab_base == old(self).strtab_base,
            final(self).strtab_log2size == old(self).strtab_log2size,
    {
        self.enabled = enabled;
    }

    /// Sets the policy of the disabled SMMU. The caller applies the policies
    /// of all devices anew.
    pub fn set_gbpa_abort(&mut self, abort: bool)
        ensures
            old(self).same_but_translation(*final(self)),
            final(self).enabled == old(self).enabled,
            final(self).gbpa_abort == abort,
            final(self).strtab_base == old(self).strtab_base,
            final(self).strtab_log2size == old(self).strtab_log2size,
    {
        self.gbpa_abort = abort;
    }

    /// Sets everything that decides a policy at once. The caller applies the
    /// policies of all devices anew.
    pub fn sync_translation_state(
        &mut self,
        enabled: bool,
        gbpa_abort: bool,
        strtab_base: u64,
        strtab_log2size: u8,
    )
        ensures
            old(self).same_but_translation(*final(self)),
            final(self).enabled == enabled,
            final(self).gbpa_abort == gbpa_abort,
            final(self).strtab_base == strtab_base,
            final(self).strtab_log2size == strtab_log2size,
    {
        self.enabled = enabled;
        self.gbpa_abort = gbpa_abort;
        self.strtab_base = strtab_base;
        self.strtab_log2size = strtab_log2size;
    }

    /// Sets the stream table.
    pub fn set_strtab(&mut self, base: u64, log2size: u8)
        ensures
            old(self).same_but_translation(*final(self)),
            final(self).enabled == old(self).enabled,
            final(self).gbpa_abort == old(self).gbpa_abort,
            final(self).strtab_base == base,
            final(self).strtab_log2size == log2size,
    {
        self.strtab_base = base;
        self.strtab_log2size = log2size;
    }

    /// How the policy of a stream is found.
    pub fn stream_config_step(&self, sid: u32) -> (r: ConfigStep)
        requires
            self.entry_ok(sid),
        ensures
            r == self.config_step(sid),
    {
        if !self.enabled {
            return if self.gbpa_abort {
                ConfigStep::Ready(StreamConfig::Abort)
            } else {
                ConfigStep::Ready(StreamConfig::Bypass)
            };
        }
        let max_streams: u64 = bit64(self.strtab_log2size);
        if sid as u64 >= max_streams {
            return ConfigStep::Ready(StreamConfig::Abort);
        }
        ConfigStep::ReadSte(self.strtab_base + sid as u64 * STE_SIZE)
    }

    /// The policy of a stream. `read` is the entry of the stream, or nothing
    /// if it could not be read; it is looked at only if it decides.
    pub fn current_stream_config(&self, sid: u32, read: Option<Ste>) -> (r: StreamConfig)
        requires
            self.entry_ok(sid),
        ensures
            r == self.config_of(sid, read),
    {
        match self.stream_config_step(sid) {
            ConfigStep::Ready(config) => config,
            ConfigStep::ReadSte(_) => match read {
                Some(ste) => StreamConfig::from_ste(sid, &ste),
                None => StreamConfig::Abort,
            },
        }
    }

    /// The policy that holds for every stream while the SMMU is disabled.
    pub fn disabled_policy(&self) -> (r: Option<StreamConfig>)
        ensures
            r == (if self.enabled {
                None
            } else {
                Some(self.disabled_config())
            }),
    {
        if self.enabled {
            None
        } else if self.gbpa_abort {
            Some(StreamConfig::Abort)
        } else {
            Some(StreamConfig::Bypass)
        }
    }

    /// Registers a device. It gets the current policy of its stream, or, as
    /// long as its buses are not assigned, that of the disabled SMMU.
    pub fn register_accel_device(&mut self, device: AccelDevice) -> (r: RegisterStep)
        requires
            device.in_range(),
            device_sid(device) matches Some(sid) ==> old(self).entry_ok(sid),
        ensures
            final(self).accel_devices@ == old(self).accel_devices@.push(device),
            old(self).same_but_host(*final(self)),
            old(self).same_host(*final(self)),
            r == old(self).register_step(device),
    {
        let step = match compose_stream_id(&device.bus_range, device.stream_id_base, None) {
            Some(sid) => match self.stream_config_step(sid) {
                ConfigStep::Ready(config) => RegisterStep::Apply(config),
                ConfigStep::ReadSte(address) => RegisterStep::ReadSte { sid, address },
            },
            None => match self.disabled_policy() {
                Some(config) => RegisterStep::Apply(config),
                None => RegisterStep::LeaveDetached,
            },
        };
        self.accel_devices.push(device);
        step
    }

    /// Takes the buses that the guest assigned to the port of a device.
    pub fn set_device_buses(&mut self, index: usize, secondary: u8, subordinate: u8)
        requires
            index < old(self).accel_devices@.len(),
        ensures
            final(self).accel_devices@ == old(self).accel_devices@.update(
                index as int,
                AccelDevice {
                    bus_range: AssignedBusRange { secondary, subordinate },
                    ..old(self).accel_devices@[index as int]
                },
            ),
            old(self).same_but_host(*final(self)),
            old(self).same_host(*final(self)),
    {
        let mut device: AccelDevice = self.accel_devices[index];
        device.bus_range.set_bus_range(secondary, subordinate);
        self.accel_devices.set(index, device);
    }

    /// The backend of the first device whose stream is `sid`.
    pub fn get_stream_backend(&self, sid: u32) -> (r: Option<usize>)
        requires
            self.devices_ok(),
        ensures
            match r {
                Some(backend) => exists|i: int|
                    0 <= i < self.accel_devices@.len() && (
                    #[trigger] self.accel_devices@[i]).backend == backend && device_sid(
                        self.accel_devices@[i],
                    ) == Some(sid) && forall|k: int|
                        0 <= k < i ==> device_sid(#[trigger] self.accel_devices@[k]) != Some(sid),
                None => forall|k: int|
                    0 <= k < self.accel_devices@.len() ==> device_sid(
                        #[trigger] self.accel_devices@[k],
                    ) != Some(sid),
            },
    {
        let mut i: usize = 0;
        while i < self.accel_devices.len()
            invariant
                i <= self.accel_devices@.len(),
                self.devices_ok(),
                forall|k: int|
                    0 <= k < i ==> device_sid(#[trigger] self.accel_devices@[k]) != Some(sid),
            decreases self.accel_devices@.len() - i,
        {
            let device: AccelDevice = self.accel_devices[i];
            if let Some(found) = compose_stream_id(
                &device.bus_range,
                device.stream_id_base,
                None,
            ) {
                if found == sid {
                    return Some(device.backend);
                }
            }
            i += 1;
        }
        None
    }

    /// The policy to apply to the device of a stream, if there is one. `read`
    /// is the entry of the stream, or nothing if it could not be read.
    pub fn apply_stream_config(&self, sid: u32, read: Option<Ste>) -> (r: Option<
        (usize, StreamConfig),
    >)
        requires
            self.entry_ok(sid),
            self.devices_ok(),
        ensures
            match r {
                Some((backend, config)) => config == self.config_of(sid, read) && exists|i: int|
                    0 <= i < self.accel_devices@.len() && (
                    #[trigger] self.accel_devices@[i]).backend == backend && device_sid(
                        self.accel_devices@[i],
                    ) == Some(sid) && forall|k: int|
                        0 <= k < i ==> device_sid(#[trigger] self.accel_devices@[k]) != Some(sid),
                None => forall|k: int|
                    0 <= k < self.accel_devices@.len() ==> device_sid(
                        #[trigger] self.accel_devices@[k],
                    ) != Some(sid),
            },
    {
        match self.get_stream_backend(sid) {
            Some(backend) => Some((backend, self.current_stream_config(sid, read))),
            None => None,
        }
    }

    /// The backends of all devices.
    pub fn all_stream_backends(&self) -> (r: Vec<usize>)
        ensures
            r@ == self.accel_devices@.map_values(|d: AccelDevice| d.backend),
    {
        let mut out: Vec<usize> = Vec::new();
        let mut i: usize = 0;
        while i < self.accel_devices.len()
            invariant
                i <= self.accel_devices@.len(),
                out@ == self.accel_devices@.subrange(0, i as int).map_values(
                    |d: AccelDevice| d.backend,
                ),
            decreases self.accel_devices@.len() - i,
        {
            out.push(self.accel_devices[i].backend);
            assert(self.accel_devices@.subrange(0, i + 1) =~= self.accel_devices@.subrange(
                0,
                i as int,
            ).push(self.accel_devices@[i as int]));
            i += 1;
        }
        assert(self.accel_devices@.subrange(0, i as int) =~= self.accel_devices@);
        out
    }

    /// The streams of all devices whose buses are assigned, with their
    /// backends, in order.
    pub fn stream_backend_entries(&self) -> (r: Vec<(u32, usize)>)
        requires
            self.devices_ok(),
        ensures
            r@ == device_entries(self.accel_devices@),
    {
        let mut out: Vec<(u32, usize)> = Vec::new();
        let mut i: usize = 0;
        assert(self.accel_devices@.subrange(0, 0) =~= Seq::empty());
        while i < self.accel_devices.len()
            invariant
                i <= self.accel_devices@.len(),
                self.devices_ok(),
                out@ == device_entries(self.accel_devices@.subrange(0, i as int)),
            decreases self.accel_devices@.len() - i,
        {
            let device: AccelDevice = self.accel_devices[i];
            proof {
                let more = self.accel_devices@.subrange(0, i + 1);
                assert(more.drop_last() =~= self.accel_devices@.subrange(0, i as int));
                assert(more.last() == device);
            }
            if let Some(sid) = compose_stream_id(&device.bus_range, device.stream_id_base, None) {
                out.push((sid, device.backend));
            }
            i += 1;
        }
        assert(self.accel_devices@.subrange(0, i as int) =~= self.accel_devices@);
        out
    }

    /// The policies to apply to all devices whose buses are assigned, in the
    /// order of [`stream_backend_entries`](Self::stream_backend_entries).
    /// `reads` holds the entries of their streams in that order, or nothing
    /// where one could not be read.
    pub fn apply_all_stream_configs(&self, reads: &Vec<Option<Ste>>) -> (r: Vec<
        (usize, StreamConfig),
    >)
        requires
            self.devices_ok(),
            forall|k: int|
                0 <= k < device_entries(self.accel_devices@).len() ==> self.entry_ok(
                    #[trigger] device_entries(self.accel_devices@)[k].0,
                ),
            reads@.len() == device_entries(self.accel_devices@).len(),
        ensures
            r@ == Seq::new(
                device_entries(self.accel_devices@).len(),
                |k: int|
                    (
                        device_entries(self.accel_devices@)[k].1,
                        self.config_of(device_entries(self.accel_devices@)[k].0, reads@[k]),
                    ),
            ),
    {
        let entries = self.stream_backend_entries();
        let mut out: Vec<(usize, StreamConfig)> = Vec::new();
        let mut i: usize = 0;
        while i < entries.len()
            invariant
                i <= entries@.len() == reads@.len(),
                forall|k: int|
                    0 <= k < entries@.len() ==> self.entry_ok(#[trigger] entries@[k].0),
                out@ == Seq::new(
                    i as nat,
                    |k: int| (entries@[k].1, self.config_of(entries@[k].0, reads@[k])),
                ),
            decreases entries@.len() - i,
        {
            let (sid, backend) = entries[i];
            let read: Option<Ste> = reads[i];
            out.push((backend, self.current_stream_config(sid, read)));
            i += 1;
        }
        out
    }
}

/// The stream of a device, if its buses are assigned.
pub open spec fn device_sid(device: AccelDevice) -> Option<u32> {
    stream_id(device.bus_range, device.stream_id_base, None)
}

/// The streams of the devices whose buses are assigned, with their backends.
pub open spec fn device_entries(devices: Seq<AccelDevice>) -> Seq<(u32, usize)>
    decreases devices.len(),
{
    if devices.len() == 0 {
        Seq::empty()
    } else {
        let before = device_entries(devices.drop_last());
        match device_sid(devices.last()) {
            Some(sid) => before.push((sid, devices.last().backend)),
            None => before,
        }
    }
}

/// While the SMMU is disabled, every stream has the same policy, whatever its
/// entry says: the one of a device without assigned buses.
pub proof fn law_disabled_policy_is_uniform(
    state: SmmuSharedState,
    sid1: u32,
    read1: Option<Ste>,
    sid2: u32,
    read2: Option<Ste>,
)
    requires
        !state.enabled,
    ensures
        state.config_of(sid1, read1) == state.config_of(sid2, read2),
        state.config_of(sid1, read1) == state.disabled_config(),
        state.disabled_config() == StreamConfig::Abort <==> state.gbpa_abort,
{
}

/// While the SMMU is enabled, a stream passes only if it has an entry in the
/// table, the entry could be read and is valid, and the entry says so.
pub proof fn law_enabled_policy_fails_closed(state: SmmuSharedState, sid: u32, read: Option<Ste>)
    requires
        state.enabled,
        state.config_of(sid, read) != StreamConfig::Abort,
    ensures
        state.in_table(sid),
        read matches Some(ste) && ste.is_valid() && (ste.spec_config()
            == super::stream::STE_CONFIG_BYPASS || ste.spec_config()
            == super::stream::STE_CONFIG_S1_TRANS),
{
}

/// The first host SMMU decides: after it, the same one is accepted again with
/// nothing changed, and every other one is rejected.
pub proof fn law_host_is_settled_once(
    state: SmmuSharedState,
    caps: HostSmmuCaps,
    next: SmmuSharedState,
    other: HostSmmuCaps,
)
    requires
        state.host_fault(caps) is None,
        state.host_settled(caps, next),
    ensures
        next.host_fault(other) == (if other == caps {
            None
        } else {
            Some(HostCapsError::SecondPhysicalSmmu)
        }),
        forall|again: SmmuSharedState| #[trigger]
            next.host_settled(caps, again) ==> next.same_host(again),
{
}

/// The output address size that is advertised once the host SMMU is settled
/// is one that the host has: its own, or the given one, which is no larger.
pub proof fn law_advertised_size_is_one_of_the_host(
    state: SmmuSharedState,
    caps: HostSmmuCaps,
    next: SmmuSharedState,
)
    requires
        state.resolved_host_caps is None,
        state.oas_policy matches SmmuOasPolicy::Fixed(oas) ==> state.oas_bits == oas,
        state.host_fault(caps) is None,
        state.host_settled(caps, next),
    ensures
        oas_bits_of(caps.oas) matches Some(host) && next.oas_bits <= host && (state.oas_policy
            == SmmuOasPolicy::Auto ==> next.oas_bits == host),
{
}

/// The entry of a stream in the table is the one with its number: entries are
/// 64 bytes, one after the other from the start of the table, which has two to
/// the power of its size of them. A stream beyond the last aborts, and so does
/// one whose entry cannot be read.
pub proof fn law_stream_has_its_own_entry(state: SmmuSharedState, sid: u32, other: u32)
    requires
        state.enabled,
        state.entry_ok(sid),
        state.entry_ok(other),
    ensures
        state.config_step(sid) is ReadSte <==> sid < pow2(state.strtab_log2size as nat),
        state.config_step(sid) matches ConfigStep::ReadSte(address) ==> {
            &&& address == state.strtab_base + 64 * sid
            &&& address + 64 <= state.strtab_base + 64 * pow2(state.strtab_log2size as nat)
            &&& sid < other ==> (state.config_step(other) matches ConfigStep::ReadSte(next)
                ==> address + 64 <= next)
        },
        !(state.config_step(sid) is ReadSte) ==> state.config_step(sid) == ConfigStep::Ready(
            StreamConfig::Abort,
        ),
        state.config_of(sid, None) == StreamConfig::Abort,
{
}

/// What is done with a stream is what its entry says, if it has one and the
/// SMMU is enabled: a valid entry bypasses with configuration 4 and translates
/// with 5; everything else aborts.
pub proof fn law_entry_decides_what_is_done(state: SmmuSharedState, sid: u32, ste: Ste)
    requires
        state.enabled,
    ensures
        ({
            let config = state.config_of(sid, Some(ste));
            let within = sid < pow2(state.strtab_log2size as nat);
            &&& config == StreamConfig::Bypass <==> within && ste.dw0 % 16 == 9
            &&& config is Translate <==> within && ste.dw0 % 16 == 11
            &&& config is Translate ==> config->sid == sid && config->nested_dw0 == ste.dw0
            &&& config == StreamConfig::Abort <==> !within || (ste.dw0 % 16 != 9 && ste.dw0 % 16
                != 11)
        }),
{
    super::stream::law_entry_decides_its_stream(sid, ste);
}

/// A host SMMU is accepted exactly if it has 64-bit tables in little-endian
/// order and the 4 KiB granule, if its address size is known, and if that is
/// no less than the size that was asked for.
pub proof fn law_accepted_host_can_back_the_smmu(policy: SmmuOasPolicy, caps: HostSmmuCaps)
    ensures
        caps_fault(policy, caps) is None <==> {
            &&& caps.ttf.aarch64
            &&& caps.ttendian is Mixed || caps.ttendian is Le
            &&& caps.gran4k
            &&& caps.oas <= 6
            &&& policy matches SmmuOasPolicy::Fixed(oas) ==> oas <= oas_bits_of(caps.oas)->0
        },
        match caps_fault(policy, caps) {
            None => true,
            Some(HostCapsError::NoAarch64) => !caps.ttf.aarch64,
            Some(HostCapsError::NotLittleEndian) => caps.ttf.aarch64 && (caps.ttendian is Be
                || caps.ttendian is Reserved),
            Some(HostCapsError::NoGran4k) => caps.ttf.aarch64 && !caps.gran4k,
            Some(HostCapsError::UnknownOas(oas)) => oas == caps.oas && caps.oas > 6 && caps.gran4k,
            Some(HostCapsError::OasExceedsHost { oas, host_oas_bits }) => {
                &&& policy == SmmuOasPolicy::Fixed(oas)
                &&& oas_bits_of(caps.oas) == Some(host_oas_bits)
                &&& oas > host_oas_bits
            },
            Some(HostCapsError::SecondPhysicalSmmu) => false,
        },
{
}

/// The mask of an address size keeps the addresses of that size as they are,
/// and changes every other.
pub proof fn law_mask_keeps_what_fits(oas_bits: u8, address: u64)
    requires
        oas_bits < 64,
    ensures
        address & mask_of(oas_bits) == address <==> address < pow2(oas_bits as nat),
{
    let n = oas_bits as u64;
    let bit = 1u64 << n;
    vstd::bits::lemma_u64_pow2_no_overflow(oas_bits as nat);
    vstd::bits::lemma_u64_shl_is_mul(1, n);
    lemma_pow2_pos(oas_bits as nat);
    let mask = (bit - 1) as u64;
    assert(mask == mask_of(oas_bits));
    assert(address & mask == address <==> address < bit) by (bit_vector)
        requires
            n < 64,
            bit == 1u64 << n,
            mask == (bit - 1) as u64,
    ;
}

/// The stream of a device is that of function zero on the first bus of its
/// port, and it has none before the port has a bus.
pub proof fn law_device_stream_is_on_its_first_bus(device: AccelDevice)
    requires
        device.in_range(),
    ensures
        device_sid(device) is Some <==> 0 < device.bus_range.secondary
            && device.bus_range.secondary <= device.bus_range.subordinate,
        device_sid(device) matches Some(sid) ==> sid == device.stream_id_base + 256
            * device.bus_range.secondary,
{
}

/// A device that is registered gets what its stream gets. Before it has a
/// stream it gets what every stream gets while the SMMU is disabled, and is
/// left alone once it is enabled.
pub proof fn law_registered_device_gets_its_stream(state: SmmuSharedState, device: AccelDevice)
    requires
        device.in_range(),
    ensures
        match state.register_step(device) {
            RegisterStep::Apply(config) => match device_sid(device) {
                Some(sid) => forall|read: Option<Ste>| #[trigger]
                    state.config_of(sid, read) == config,
                None => !state.enabled && config == (if state.gbpa_abort {
                    StreamConfig::Abort
                } else {
                    StreamConfig::Bypass
                }),
            },
            RegisterStep::ReadSte { sid, address } => state.enabled && device_sid(device) == Some(
                sid,
            ) && state.config_step(sid) == ConfigStep::ReadSte(address),
            RegisterStep::LeaveDetached => state.enabled && device_sid(device) is None,
        },
{
}

/// The streams that have a backend are those of the devices that have one,
/// each with the backend of its device.
pub proof fn law_streams_are_those_of_the_devices(
    devices: Seq<AccelDevice>,
    sid: u32,
    backend: usize,
)
    ensures
        device_entries(devices).contains((sid, backend)) <==> exists|i: int|
            0 <= i < devices.len() && device_sid(#[trigger] devices[i]) == Some(sid)
                && devices[i].backend == backend,
    decreases devices.len(),
{
    if devices.len() > 0 {
        let rest = devices.drop_last();
        law_streams_are_those_of_the_devices(rest, sid, backend);
        let before = device_entries(rest);
        let all = device_entries(devices);
        let last = devices[devices.len() - 1];
        if device_sid(last) is Some {
            let new = (device_sid(last)->0, last.backend);
            assert(all == before.push(new));
            assert(all[before.len() as int] == new);
            if before.contains((sid, backend)) {
                let k = choose|k: int| 0 <= k < before.len() && before[k] == (sid, backend);
                assert(all[k] == (sid, backend));
            }
            if all.contains((sid, backend)) && new != (sid, backend) {
                let k = choose|k: int| 0 <= k < all.len() && all[k] == (sid, backend);
                assert(before[k] == (sid, backend));
            }
        }
        if before.contains((sid, backend)) {
            let i = choose|i: int|
                0 <= i < rest.len() && device_sid(#[trigger] rest[i]) == Some(sid)
                    && rest[i].backend == backend;
            assert(devices[i] == rest[i]);
        }
        assert forall|i: int|
            0 <= i < rest.len() && device_sid(#[trigger] devices[i]) == Some(sid)
                && devices[i].backend == backend implies before.contains((sid, backend)) by {
            assert(rest[i] == devices[i]);
        }
    }
}

/// A host that is settled is remembered. It decides the address size only the
/// first time, and only if none was asked for; the mask goes with the size.
pub proof fn law_settled_host_decides_the_size(
    state: SmmuSharedState,
    caps: HostSmmuCaps,
    next: SmmuSharedState,
)
    requires
        state.host_fault(caps) is None,
        state.host_settled(caps, next),
    ensures
        next.resolved_host_caps == Some(caps),
        state.resolved_host_caps is None && state.oas_policy is Auto ==> {
            &&& Some(next.oas_bits) == oas_bits_of(caps.oas)
            &&& next.oas_mask + 1 == pow2(next.oas_bits as nat)
        },
        state.resolved_host_caps is Some || !(state.oas_policy is Auto) ==> {
            &&& next.oas_bits == state.oas_bits
            &&& next.oas_mask == state.oas_mask
        },
{
    if state.resolved_host_caps is None && state.oas_policy is Auto {
        let n = next.oas_bits as nat;
        lemma_pow2_pos(n);
        vstd::bits::lemma_u64_pow2_no_overflow(n);
    }
}

/// The backend of a stream is that of a device with that stream, and there is
/// one exactly if there is such a device; it gets the configuration of the
/// stream.
pub proof fn law_stream_goes_to_the_backend_of_its_device(
    state: SmmuSharedState,
    sid: u32,
    read: Option<Ste>,
    backend: Option<usize>,
    applied: Option<(usize, StreamConfig)>,
)
    requires
        state.devices_ok(),
        state.entry_ok(sid),
        call_ensures(SmmuSharedState::get_stream_backend, (&state, sid), backend),
        call_ensures(SmmuSharedState::apply_stream_config, (&state, sid, read), applied),
    ensures
        backend is Some <==> exists|i: int|
            0 <= i < state.accel_devices@.len() && device_sid(#[trigger] state.accel_devices@[i])
                == Some(sid),
        backend matches Some(b) ==> exists|i: int|
            0 <= i < state.accel_devices@.len() && device_sid(#[trigger] state.accel_devices@[i])
                == Some(sid) && state.accel_devices@[i].backend == b,
        applied is Some <==> backend is Some,
        applied matches Some((b, config)) ==> config == state.config_of(sid, read) && exists|i: int|
            0 <= i < state.accel_devices@.len() && device_sid(#[trigger] state.accel_devices@[i])
                == Some(sid) && state.accel_devices@[i].backend == b,
{
    if let Some(b) = backend {
        let i = choose|i: int|
            0 <= i < state.accel_devices@.len() && (#[trigger] state.accel_devices@[i]).backend == b
                && device_sid(state.accel_devices@[i]) == Some(sid) && forall|k: int|
                0 <= k < i ==> device_sid(#[trigger] state.accel_devices@[k]) != Some(sid);
        assert(device_sid(state.accel_devices@[i]) == Some(sid));
    }
    if let Some((b, config)) = applied {
        let i = choose|i: int|
            0 <= i < state.accel_devices@.len() && (#[trigger] state.accel_devices@[i]).backend == b
                && device_sid(state.accel_devices@[i]) == Some(sid) && forall|k: int|
                0 <= k < i ==> device_sid(#[trigger] state.accel_devices@[k]) != Some(sid);
        assert(device_sid(state.accel_devices@[i]) == Some(sid));
    }
}

/// Every device has its backend in the list of all, in the order in which they
/// were registered; each stream that has one gets its own configuration.
pub proof fn law_every_backend_is_told(
    state: SmmuSharedState,
    reads: Vec<Option<Ste>>,
    backends: Vec<usize>,
    configs: Vec<(usize, StreamConfig)>,
    i: int,
    k: int,
)
    requires
        state.devices_ok(),
        reads@.len() == device_entries(state.accel_devices@).len(),
        call_ensures(SmmuSharedState::all_stream_backends, (&state,), backends),
        call_ensures(SmmuSharedState::apply_all_stream_configs, (&state, &reads), configs),
        0 <= i < state.accel_devices@.len(),
        0 <= k < device_entries(state.accel_devices@).len(),
    ensures
        backends@.len() == state.accel_devices@.len(),
        backends@[i] == state.accel_devices@[i].backend,
        configs@.len() == reads@.len(),
        ({
            let (sid, backend) = device_entries(state.accel_devices@)[k];
            configs@[k] == (backend, state.config_of(sid, reads@[k]))
        }),
{
}

} // verus!
