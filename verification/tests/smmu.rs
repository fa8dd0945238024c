//! The SMMU, with guest memory and page tables of the tests.

use vm_devices::pci::bus_range::AssignedBusRange;
use vm_devices::smmu::queue::{
    EventStep, EvtEntry, IrqLevels, EVENT_C_BAD_STE, EVT_SIZE,
};
use vm_devices::smmu::registers::{
    HostSmmuCaps, Idr0TtEndian, Idr0Ttf, SmmuOasPolicy, CMDQ_ERR, EVENTQ_ABT_ERR, IPS_44, IPS_48,
};
use vm_devices::smmu::shared::{
    AccelDevice, ConfigStep, HostCapsError, RegisterStep, SmmuSharedState,
};
use vm_devices::smmu::stream::{
    compose_stream_id, Ste, StreamConfig, STE1_NESTING_ALLOWED, STE_CONFIG_ABORT,
    STE_CONFIG_BYPASS, STE_CONFIG_S1_TRANS, STE_SIZE,
};
use vm_devices::smmu::translate::{
    ste_config_action, DmaOutcome, MsiOutcome, SmmuDmaFault, SmmuSignalMsi, SmmuTranslator,
    SteAction, TranslateResult,
};
use vm_devices::smmu::{min_oas_bits_for, oas_bits_from_encoding};

const MEMORY_SIZE: usize = 0x60_0000;
const STRTAB_BASE: u64 = 0x10_0000;
const STRTAB_LOG2SIZE: u8 = 10;
const CD_BASE: u64 = 0x20_0000;
const PT_L1_BASE: u64 = 0x30_1000;
const PT_L2_BASE: u64 = 0x30_2000;
const PT_L3_BASE: u64 = 0x30_3000;
const DATA_GPA: u64 = 0x40_0000;
const EVTQ_BASE: u64 = 0x50_0000;
const EVTQ_LOG2SIZE: u8 = 3;
const TEST_STREAM_ID_BASE: u32 = 0;
const TEST_BUS: u8 = 1;
const TEST_RID: u32 = (TEST_BUS as u32) << 8;

const C_BAD_STREAMID: u8 = 0x02;
const F_TRANSLATION: u8 = 0x10;

/// Guest memory.
struct Memory(Vec<u8>);

impl Memory {
    fn new() -> Memory {
        Memory(vec![0; MEMORY_SIZE])
    }

    fn write_at(&mut self, address: u64, data: &[u8]) {
        let at = address as usize;
        self.0[at..at + data.len()].copy_from_slice(data);
    }

    fn read_at(&self, address: u64, len: usize) -> &[u8] {
        &self.0[address as usize..address as usize + len]
    }

    fn read_u64(&self, address: u64) -> u64 {
        let mut bytes = [0; 8];
        bytes.copy_from_slice(self.read_at(address, 8));
        u64::from_le_bytes(bytes)
    }

    fn write_u64(&mut self, address: u64, value: u64) {
        self.write_at(address, &value.to_le_bytes());
    }
}

/// An SMMU with its guest memory.
struct Smmu {
    memory: Memory,
    state: SmmuSharedState,
}

/// A device behind the SMMU.
struct Device {
    bus_range: AssignedBusRange,
    translator: SmmuTranslator,
    msi: SmmuSignalMsi,
}

fn make_bus_range() -> AssignedBusRange {
    let mut range = AssignedBusRange::new();
    range.set_bus_range(TEST_BUS, TEST_BUS);
    range
}

fn expected_sid() -> u32 {
    TEST_STREAM_ID_BASE + ((TEST_BUS as u32) << 8)
}

fn device_context(bus_range: AssignedBusRange, stream_id_base: u32) -> Device {
    Device {
        bus_range,
        translator: SmmuTranslator { stream_id_base },
        msi: SmmuSignalMsi { stream_id_base },
    }
}

fn make_s1_ste(cd_base: u64) -> Ste {
    let mut ste = Ste::with_config(true, STE_CONFIG_S1_TRANS);
    ste.dw0 |= cd_base;
    ste
}

fn make_bypass_ste() -> Ste {
    Ste::with_config(true, STE_CONFIG_BYPASS)
}

fn make_abort_ste() -> Ste {
    Ste::with_config(true, STE_CONFIG_ABORT)
}

/// A table or page descriptor: valid, of the kind that goes on.
fn desc(address: u64) -> u64 {
    address | 3
}

impl Smmu {
    /// A disabled SMMU.
    fn disabled(accel: bool) -> Smmu {
        Smmu {
            memory: Memory::new(),
            state: SmmuSharedState::new(40, SmmuOasPolicy::Fixed(40), accel),
        }
    }

    /// An enabled SMMU with a stream table and an event queue.
    fn enabled() -> Smmu {
        let mut smmu = Smmu::disabled(false);
        smmu.state.set_strtab(STRTAB_BASE, STRTAB_LOG2SIZE);
        smmu.state.set_enabled(true);
        smmu.enable_queue();
        smmu
    }

    fn enable_queue(&mut self) {
        self.state.set_evtq_config(EVTQ_BASE, EVTQ_LOG2SIZE);
        self.state.set_evtq_enabled(true);
    }

    fn write_ste(&mut self, sid: u32, ste: &Ste) {
        let address = STRTAB_BASE + sid as u64 * STE_SIZE;
        self.memory.write_u64(address, ste.dw0);
        self.memory.write_u64(address + 8, ste.dw1);
    }

    /// A context descriptor: valid, and the first table.
    fn write_cd(&mut self) {
        self.memory.write_u64(CD_BASE, 1);
        self.memory.write_u64(CD_BASE + 8, PT_L1_BASE);
    }

    /// Maps the first page to the data.
    fn setup_translation(&mut self, sid: u32) {
        self.write_ste(sid, &make_s1_ste(CD_BASE));
        self.write_cd();
        self.memory.write_u64(PT_L1_BASE, desc(PT_L2_BASE));
        self.memory.write_u64(PT_L2_BASE, desc(PT_L3_BASE));
        self.memory.write_u64(PT_L3_BASE, desc(DATA_GPA));
    }

    fn read_ste(&self, sid: u32) -> Option<Ste> {
        match self.state.stream_config_step(sid) {
            ConfigStep::ReadSte(address) => {
                let mut bytes = [0; 64];
                bytes.copy_from_slice(self.memory.read_at(address, 64));
                Some(Ste::read(&bytes))
            }
            ConfigStep::Ready(_) => None,
        }
    }

    fn lookup_ste(&self, sid: u32) -> Result<Ste, EvtEntry> {
        match self.read_ste(sid) {
            None => Err(EvtEntry {
                event_id: C_BAD_STREAMID,
                sid,
                input_addr: 0,
            }),
            Some(ste) if !ste.valid() => Err(EvtEntry::bad_ste(sid)),
            Some(ste) => Ok(ste),
        }
    }

    fn stage1(&self, sid: u32, lookup: Result<Ste, EvtEntry>, iova: u64) -> Result<u64, EvtEntry> {
        let fault = EvtEntry {
            event_id: F_TRANSLATION,
            sid,
            input_addr: iova,
        };
        let cd = lookup?.dw0 & 0xf_ffff_ffff_ffc0;
        let mut table = self.memory.read_u64(cd + 8);
        for level in 1..=3 {
            let index = (iova >> (12 + 9 * (3 - level))) & 0x1ff;
            let entry = self.memory.read_u64(table + 8 * index);
            if entry & 1 == 0 {
                return Err(fault);
            }
            table = entry & !0xfff;
        }
        Ok(table | (iova & 0xfff))
    }

    fn translate(&self, sid: u32, iova: u64) -> TranslateResult {
        let lookup = self.lookup_ste(sid);
        let stage1 = self.stage1(sid, lookup, iova);
        self.state.translate_locked(sid, lookup, stage1)
    }

    fn record(&mut self, event: EvtEntry) {
        if let EventStep::Write { address } = self.state.write_event() {
            let mut bytes = [0; EVT_SIZE as usize];
            bytes[0] = event.event_id;
            bytes[4..8].copy_from_slice(&event.sid.to_le_bytes());
            bytes[16..24].copy_from_slice(&event.input_addr.to_le_bytes());
            self.memory.write_at(address, &bytes);
            self.state.commit_event();
        }
    }

    fn event_count(&self) -> u32 {
        self.state.evtq_prod()
    }

    /// The address that an access of the device goes to.
    fn access(&mut self, device: &Device, iova: u64) -> Result<u64, SmmuDmaFault> {
        let rid = (device.bus_range.bus_range().0 as u16) << 8;
        let sid = device.translator.stream_of(rid);
        let result = self.translate(sid, iova);
        match device.translator.translate(rid, iova, result) {
            DmaOutcome::Access(gpa) => Ok(gpa),
            DmaOutcome::Fault { error, event } => {
                if let Some(event) = event {
                    self.record(event);
                }
                Err(error)
            }
        }
    }

    fn read(&mut self, device: &Device, iova: u64, len: usize) -> Result<Vec<u8>, SmmuDmaFault> {
        let mut data = Vec::new();
        while data.len() < len {
            let at = iova + data.len() as u64;
            let count = (0x1000 - (at & 0xfff) as usize).min(len - data.len());
            let gpa = self.access(device, at)?;
            data.extend_from_slice(self.memory.read_at(gpa, count));
        }
        Ok(data)
    }

    fn write(&mut self, device: &Device, iova: u64, data: &[u8]) -> Result<(), SmmuDmaFault> {
        let gpa = self.access(device, iova)?;
        self.memory.write_at(gpa, data);
        Ok(())
    }

    /// The messages that go on.
    fn signal_msi(
        &mut self,
        device: &Device,
        devid: Option<u32>,
        address: u64,
        data: u32,
    ) -> Vec<(Option<u32>, u64, u32)> {
        let result = match device.msi.stream_of(devid) {
            Some(sid) => self.translate(sid, address),
            None => TranslateResult::Bypass,
        };
        match device.msi.signal_msi(devid, address, result) {
            MsiOutcome::Drop => Vec::new(),
            MsiOutcome::Forward { address } => vec![(devid, address, data)],
            MsiOutcome::Record(event) => {
                self.record(event);
                Vec::new()
            }
        }
    }

    fn current_stream_config(&self, sid: u32) -> StreamConfig {
        self.state.current_stream_config(sid, self.read_ste(sid))
    }

    /// What is applied to a device that is registered.
    fn register(&mut self, bus_range: AssignedBusRange, backend: usize) -> Vec<StreamConfig> {
        let step = self.state.register_accel_device(AccelDevice {
            bus_range,
            stream_id_base: TEST_STREAM_ID_BASE,
            backend,
        });
        match step {
            RegisterStep::Apply(config) => vec![config],
            RegisterStep::ReadSte { sid, address } => {
                assert_eq!(address, STRTAB_BASE + sid as u64 * STE_SIZE);
                vec![self.current_stream_config(sid)]
            }
            RegisterStep::LeaveDetached => Vec::new(),
        }
    }
}

#[test]
fn test_translating_memory_basic_read() {
    let mut smmu = Smmu::enabled();
    smmu.setup_translation(expected_sid());
    let data = b"hello SMMU";
    smmu.memory.write_at(DATA_GPA, data);
    let device = device_context(make_bus_range(), TEST_STREAM_ID_BASE);
    assert_eq!(smmu.read(&device, 0, data.len()).unwrap(), data);
}

#[test]
fn test_translating_memory_basic_write() {
    let mut smmu = Smmu::enabled();
    smmu.setup_translation(expected_sid());
    let device = device_context(make_bus_range(), TEST_STREAM_ID_BASE);
    let data = b"write test";
    smmu.write(&device, 0, data).unwrap();
    assert_eq!(smmu.memory.read_at(DATA_GPA, data.len()), data);
}

#[test]
fn test_translating_memory_with_offset() {
    let mut smmu = Smmu::enabled();
    smmu.setup_translation(expected_sid());
    let data = b"offset data";
    smmu.memory.write_at(DATA_GPA + 0x100, data);
    let device = device_context(make_bus_range(), TEST_STREAM_ID_BASE);
    assert_eq!(smmu.read(&device, 0x100, data.len()).unwrap(), data);
}

#[test]
fn test_translating_memory_cross_page() {
    let mut smmu = Smmu::enabled();
    smmu.setup_translation(expected_sid());
    smmu.memory
        .write_u64(PT_L3_BASE + 8, desc(DATA_GPA + 0x2000));
    let data_page1 = vec![0xAAu8; 0x10];
    let data_page2 = vec![0xBBu8; 0x10];
    smmu.memory.write_at(DATA_GPA + 0xFF0, &data_page1);
    smmu.memory.write_at(DATA_GPA + 0x2000, &data_page2);
    let device = device_context(make_bus_range(), TEST_STREAM_ID_BASE);
    let buf = smmu.read(&device, 0xFF0, 0x20).unwrap();
    assert_eq!(&buf[..0x10], &data_page1);
    assert_eq!(&buf[0x10..], &data_page2);
}

#[test]
fn test_translating_memory_bypass() {
    let mut smmu = Smmu::enabled();
    smmu.write_ste(expected_sid(), &make_bypass_ste());
    let data = b"bypass data";
    smmu.memory.write_at(0x1000, data);
    let device = device_context(make_bus_range(), TEST_STREAM_ID_BASE);
    assert_eq!(smmu.read(&device, 0x1000, data.len()).unwrap(), data);
}

#[test]
fn test_translating_memory_abort() {
    let mut smmu = Smmu::enabled();
    smmu.write_ste(expected_sid(), &make_abort_ste());
    let device = device_context(make_bus_range(), TEST_STREAM_ID_BASE);
    let result = smmu.read(&device, 0, 4);
    assert!(result.is_err());
    assert_eq!(smmu.event_count(), 1);
}

#[test]
fn test_translating_memory_unmapped() {
    let mut smmu = Smmu::enabled();
    smmu.write_ste(expected_sid(), &make_s1_ste(CD_BASE));
    smmu.write_cd();
    let device = device_context(make_bus_range(), TEST_STREAM_ID_BASE);
    let result = smmu.read(&device, 0, 4);
    assert!(result.is_err());
    assert_eq!(smmu.event_count(), 1);
    assert_eq!(smmu.memory.read_at(EVTQ_BASE, 1)[0], F_TRANSLATION);
    assert_eq!(result.unwrap_err().event_id, F_TRANSLATION);
}

#[test]
fn test_translating_memory_unassigned_bus() {
    let mut smmu = Smmu::enabled();
    // The buses are not assigned: the requester is 0, which has no entry.
    let device = device_context(AssignedBusRange::new(), TEST_STREAM_ID_BASE);
    smmu.read(&device, 0x2000, 10).unwrap_err();
}

#[test]
fn test_translating_memory_smmu_disabled() {
    let mut smmu = Smmu::disabled(false);
    let data = b"disabled smmu";
    smmu.memory.write_at(0x3000, data);
    let device = device_context(make_bus_range(), TEST_STREAM_ID_BASE);
    assert_eq!(smmu.read(&device, 0x3000, data.len()).unwrap(), data);
}

#[test]
fn test_signal_msi_translated() {
    let mut smmu = Smmu::enabled();
    smmu.setup_translation(expected_sid());
    smmu.memory
        .write_u64(PT_L3_BASE + 8, desc(DATA_GPA + 0x1000));
    let device = device_context(make_bus_range(), TEST_STREAM_ID_BASE);
    let calls = smmu.signal_msi(&device, Some(TEST_RID), 0x1040, 0xDEAD);
    assert_eq!(calls.len(), 1);
    assert_eq!(calls[0], (Some(TEST_RID), DATA_GPA + 0x1040, 0xDEAD));
}

#[test]
fn test_signal_msi_bypass() {
    let mut smmu = Smmu::enabled();
    smmu.write_ste(expected_sid(), &make_bypass_ste());
    let device = device_context(make_bus_range(), TEST_STREAM_ID_BASE);
    let calls = smmu.signal_msi(&device, Some(TEST_RID), 0xFEE0_0000, 0x42);
    assert_eq!(calls.len(), 1);
    assert_eq!(calls[0], (Some(TEST_RID), 0xFEE0_0000, 0x42));
}

#[test]
fn test_signal_msi_unmapped() {
    let mut smmu = Smmu::enabled();
    smmu.write_ste(expected_sid(), &make_s1_ste(CD_BASE));
    smmu.write_cd();
    let device = device_context(make_bus_range(), TEST_STREAM_ID_BASE);
    let calls = smmu.signal_msi(&device, Some(TEST_RID), 0x1000, 0x42);
    assert!(calls.is_empty());
    assert_eq!(smmu.event_count(), 1);
}

#[test]
fn test_signal_msi_devid_passthrough() {
    let mut smmu = Smmu::enabled();
    smmu.write_ste(expected_sid(), &make_bypass_ste());
    let device = device_context(make_bus_range(), TEST_STREAM_ID_BASE);
    let calls = smmu.signal_msi(&device, Some(TEST_RID), 0x1000, 0x42);
    assert_eq!(calls.len(), 1);
    assert_eq!(calls[0].0, Some(TEST_RID));
}

#[test]
fn test_signal_msi_no_devid() {
    let mut smmu = Smmu::enabled();
    let device = device_context(make_bus_range(), TEST_STREAM_ID_BASE);
    let calls = smmu.signal_msi(&device, None, 0xFEE0_0000, 0x42);
    assert_eq!(calls.len(), 0);
}

#[test]
fn test_translating_memory_nonzero_stream_id_base() {
    let mut smmu = Smmu::enabled();
    let stream_id_base: u32 = 256;
    let bus: u8 = 1;
    let sid = stream_id_base + ((bus as u32) << 8);
    smmu.setup_translation(sid);
    let data = b"remapped sid test";
    smmu.memory.write_at(DATA_GPA, data);
    let mut bus_range = AssignedBusRange::new();
    bus_range.set_bus_range(bus, bus);
    let device = device_context(bus_range, stream_id_base);
    assert_eq!(smmu.read(&device, 0, data.len()).unwrap(), data);
}

#[test]
fn test_signal_msi_nonzero_stream_id_base() {
    let mut smmu = Smmu::enabled();
    let stream_id_base: u32 = 256;
    let bus: u8 = 1;
    let sid = stream_id_base + ((bus as u32) << 8);
    smmu.write_ste(sid, &make_bypass_ste());
    let mut bus_range = AssignedBusRange::new();
    bus_range.set_bus_range(bus, bus);
    let device = device_context(bus_range, stream_id_base);
    let rid = (bus as u32) << 8;
    let calls = smmu.signal_msi(&device, Some(rid), 0xFEE0_0000, 0x99);
    assert_eq!(calls.len(), 1);
    assert_eq!(calls[0], (Some(rid), 0xFEE0_0000, 0x99));
}

fn compatible_host_caps() -> HostSmmuCaps {
    HostSmmuCaps {
        oas: IPS_48,
        ttf: Idr0Ttf {
            aarch32: false,
            aarch64: true,
        },
        ttendian: Idr0TtEndian::Le,
        gran4k: true,
    }
}

fn make_accel_state(policy: SmmuOasPolicy) -> SmmuSharedState {
    SmmuSharedState::new(40, policy, true)
}

#[test]
fn resolve_host_caps_accepts_compatible_host() {
    let mut state = make_accel_state(SmmuOasPolicy::Fixed(40));
    state.resolve_host_caps(compatible_host_caps()).unwrap();
}

#[test]
fn resolve_host_caps_auto_adopts_host_oas() {
    let mut state = make_accel_state(SmmuOasPolicy::Auto);
    let caps = HostSmmuCaps {
        oas: IPS_48,
        ..compatible_host_caps()
    };
    state.resolve_host_caps(caps).unwrap();
    assert_eq!(state.oas_bits(), 48);
    assert_eq!(state.oas_mask, (1 << 48) - 1);
}

#[test]
fn resolve_host_caps_rejects_fixed_oas_above_host() {
    let mut state = make_accel_state(SmmuOasPolicy::Fixed(52));
    let caps = HostSmmuCaps {
        oas: IPS_44,
        ..compatible_host_caps()
    };
    let error = state.resolve_host_caps(caps).unwrap_err();
    let err = error.message();
    assert!(err.contains("exceeds host SMMU OAS"), "{err}");
    assert_eq!(
        error,
        HostCapsError::OasExceedsHost {
            oas: 52,
            host_oas_bits: 44
        }
    );
}

#[test]
fn resolve_host_caps_rejects_no_aarch64() {
    let mut state = make_accel_state(SmmuOasPolicy::Fixed(40));
    let caps = HostSmmuCaps {
        ttf: Idr0Ttf {
            aarch32: true,
            aarch64: false,
        },
        ..compatible_host_caps()
    };
    let err = state.resolve_host_caps(caps).unwrap_err().message();
    assert!(err.contains("AArch64"), "{err}");
}

#[test]
fn resolve_host_caps_accepts_aarch32_and_aarch64_host() {
    let mut state = make_accel_state(SmmuOasPolicy::Fixed(40));
    let caps = HostSmmuCaps {
        ttf: Idr0Ttf {
            aarch32: true,
            aarch64: true,
        },
        ..compatible_host_caps()
    };
    state.resolve_host_caps(caps).unwrap();
}

#[test]
fn resolve_host_caps_rejects_big_endian_only_host() {
    let mut state = make_accel_state(SmmuOasPolicy::Fixed(40));
    let caps = HostSmmuCaps {
        ttendian: Idr0TtEndian::Be,
        ..compatible_host_caps()
    };
    let err = state.resolve_host_caps(caps).unwrap_err().message();
    assert!(err.contains("little-endian"), "{err}");
}

#[test]
fn resolve_host_caps_accepts_mixed_endian_host() {
    let mut state = make_accel_state(SmmuOasPolicy::Fixed(40));
    let caps = HostSmmuCaps {
        ttendian: Idr0TtEndian::Mixed,
        ..compatible_host_caps()
    };
    state.resolve_host_caps(caps).unwrap();
}

#[test]
fn resolve_host_caps_rejects_no_gran4k() {
    let mut state = make_accel_state(SmmuOasPolicy::Fixed(40));
    let caps = HostSmmuCaps {
        gran4k: false,
        ..compatible_host_caps()
    };
    let err = state.resolve_host_caps(caps).unwrap_err().message();
    assert!(err.contains("4KB translation granule"), "{err}");
}

#[test]
fn resolve_host_caps_rejects_second_device_with_different_caps() {
    let mut state = make_accel_state(SmmuOasPolicy::Fixed(40));
    state.resolve_host_caps(compatible_host_caps()).unwrap();
    let other = HostSmmuCaps {
        oas: IPS_44,
        ..compatible_host_caps()
    };
    let err = state.resolve_host_caps(other).unwrap_err().message();
    assert!(
        err.contains("cannot be backed by two physical SMMUs"),
        "{err}"
    );
}

#[test]
fn resolve_host_caps_accepts_second_device_with_identical_caps() {
    let mut state = make_accel_state(SmmuOasPolicy::Fixed(40));
    state.resolve_host_caps(compatible_host_caps()).unwrap();
    state.resolve_host_caps(compatible_host_caps()).unwrap();
}

#[test]
fn resolve_host_caps_rejects_unknown_oas() {
    let mut state = make_accel_state(SmmuOasPolicy::Auto);
    let caps = HostSmmuCaps {
        oas: 7,
        ..compatible_host_caps()
    };
    assert_eq!(
        state.resolve_host_caps(caps),
        Err(HostCapsError::UnknownOas(7))
    );
    // A refused host leaves nothing behind.
    assert_eq!(state.oas_bits(), 40);
    state.resolve_host_caps(compatible_host_caps()).unwrap();
}

#[test]
fn test_disabled_bypass_when_gbpa_abort_clear() {
    let mut smmu = Smmu::disabled(false);
    let data = b"disabled-bypass";
    smmu.memory.write_at(0x3000, data);
    smmu.state.set_gbpa_abort(false);
    smmu.enable_queue();
    let device = device_context(make_bus_range(), TEST_STREAM_ID_BASE);
    assert_eq!(smmu.read(&device, 0x3000, data.len()).unwrap(), data);
    assert_eq!(smmu.event_count(), 0);
}

#[test]
fn test_disabled_abort_when_gbpa_abort_set() {
    let mut smmu = Smmu::disabled(false);
    smmu.state.set_gbpa_abort(true);
    smmu.enable_queue();
    let device = device_context(make_bus_range(), TEST_STREAM_ID_BASE);
    let fault = smmu.read(&device, 0x3000, 4).unwrap_err();
    assert_eq!(smmu.event_count(), 0);
    assert_eq!(
        fault,
        SmmuDmaFault {
            event_id: 0,
            sid: expected_sid(),
            input_addr: 0x3000
        }
    );
    assert!(smmu
        .signal_msi(&device, Some(TEST_RID), 0xFEE0_0000, 1)
        .is_empty());
}

#[test]
fn test_current_stream_config_disabled_bypass() {
    let mut smmu = Smmu::disabled(true);
    smmu.state.set_gbpa_abort(false);
    assert_eq!(smmu.current_stream_config(0), StreamConfig::Bypass);
    assert_eq!(smmu.current_stream_config(0x1234), StreamConfig::Bypass);
}

#[test]
fn test_current_stream_config_disabled_abort() {
    let mut smmu = Smmu::disabled(true);
    smmu.state.set_gbpa_abort(true);
    assert_eq!(smmu.current_stream_config(0), StreamConfig::Abort);
    assert_eq!(smmu.current_stream_config(0x1234), StreamConfig::Abort);
    assert_eq!(smmu.state.disabled_policy(), Some(StreamConfig::Abort));
    assert!(smmu.state.is_accel());
}

#[test]
fn test_current_stream_config_enabled_reads_ste() {
    let sid = expected_sid();
    let mut smmu = Smmu::enabled();

    smmu.write_ste(sid, &make_s1_ste(CD_BASE));
    assert!(matches!(
        smmu.current_stream_config(sid),
        StreamConfig::Translate { sid: s, .. } if s == sid
    ));

    smmu.write_ste(sid, &make_bypass_ste());
    assert_eq!(smmu.current_stream_config(sid), StreamConfig::Bypass);

    smmu.write_ste(sid, &make_abort_ste());
    assert_eq!(smmu.current_stream_config(sid), StreamConfig::Abort);

    smmu.write_ste(sid, &Ste { dw0: 0, dw1: 0 });
    assert_eq!(smmu.current_stream_config(sid), StreamConfig::Abort);
}

#[test]
fn test_current_stream_config_out_of_range_sid_aborts() {
    let smmu = Smmu::enabled();
    let oob_sid = 1u32 << STRTAB_LOG2SIZE;
    assert_eq!(smmu.current_stream_config(oob_sid), StreamConfig::Abort);
    assert_eq!(
        smmu.state.current_stream_config(3, None),
        StreamConfig::Abort
    );
    assert_eq!(
        smmu.state.strtab_config(),
        (STRTAB_BASE, STRTAB_LOG2SIZE)
    );
}

#[test]
fn test_register_applies_bypass_when_disabled() {
    let mut smmu = Smmu::disabled(true);
    smmu.state.set_gbpa_abort(false);
    let applied = smmu.register(AssignedBusRange::new(), 0);
    assert_eq!(applied.len(), 1);
    assert_eq!(applied[0], StreamConfig::Bypass);
}

#[test]
fn test_register_applies_abort_when_disabled_gbpa_abort() {
    let mut smmu = Smmu::disabled(true);
    smmu.state.set_gbpa_abort(true);
    let applied = smmu.register(AssignedBusRange::new(), 0);
    assert_eq!(applied.len(), 1);
    assert_eq!(applied[0], StreamConfig::Abort);
}

#[test]
fn test_register_applies_ste_policy_when_enabled() {
    let mut smmu = Smmu::disabled(true);
    smmu.state.set_strtab(STRTAB_BASE, STRTAB_LOG2SIZE);
    smmu.state.set_enabled(true);
    smmu.write_ste(expected_sid(), &make_bypass_ste());
    let applied = smmu.register(make_bus_range(), 0);
    assert_eq!(applied.len(), 1);
    assert_eq!(applied[0], StreamConfig::Bypass);
}

#[test]
fn test_register_enabled_unassigned_bus_then_cfgi() {
    let mut smmu = Smmu::disabled(true);
    smmu.state.set_strtab(STRTAB_BASE, STRTAB_LOG2SIZE);
    smmu.state.set_enabled(true);
    assert!(smmu.register(AssignedBusRange::new(), 5).is_empty());
    assert_eq!(smmu.state.get_stream_backend(expected_sid()), None);

    smmu.state.set_device_buses(0, TEST_BUS, TEST_BUS);
    let sid = expected_sid();
    smmu.write_ste(sid, &make_s1_ste(CD_BASE));
    let (backend, applied) = smmu
        .state
        .apply_stream_config(sid, smmu.read_ste(sid))
        .unwrap();
    assert_eq!(backend, 5);
    assert!(
        matches!(applied, StreamConfig::Translate { sid: s, .. } if s == sid),
        "expected Translate for sid {sid:#x}, got {applied:?}"
    );
}

#[test]
fn test_apply_all_stream_configs_redrives() {
    let mut smmu = Smmu::disabled(true);
    smmu.state.set_strtab(STRTAB_BASE, STRTAB_LOG2SIZE);
    smmu.state.set_gbpa_abort(false);
    let applied = smmu.register(make_bus_range(), 3);
    assert_eq!(applied.last().copied(), Some(StreamConfig::Bypass));
    // A device without buses is left out.
    smmu.register(AssignedBusRange::new(), 4);

    let sid = expected_sid();
    smmu.write_ste(sid, &make_abort_ste());
    smmu.state.set_enabled(true);
    assert_eq!(smmu.state.stream_backend_entries(), [(sid, 3)]);
    assert_eq!(smmu.state.all_stream_backends(), [3, 4]);
    let reads = vec![smmu.read_ste(sid)];
    let applied = smmu.state.apply_all_stream_configs(&reads);
    assert_eq!(applied, [(3, StreamConfig::Abort)]);
}

#[test]
fn translation_state_is_set_at_once() {
    let mut state = make_accel_state(SmmuOasPolicy::Auto);
    state.sync_translation_state(true, true, 0x4000, 6);
    assert!(state.enabled);
    assert!(state.gbpa_abort);
    assert_eq!(state.strtab_config(), (0x4000, 6));
    assert_eq!(state.disabled_policy(), None);
    assert_eq!(
        state.stream_config_step(63),
        ConfigStep::ReadSte(0x4000 + 63 * 64)
    );
    assert_eq!(
        state.stream_config_step(64),
        ConfigStep::Ready(StreamConfig::Abort)
    );
}

#[test]
fn entries_are_read_from_bytes() {
    let mut bytes = [0u8; 64];
    bytes[0] = 1 | (STE_CONFIG_S1_TRANS << 1);
    bytes[8..16].fill(0xff);
    assert_eq!(Ste::parse_ste_config(&bytes), (true, STE_CONFIG_S1_TRANS));
    assert_eq!(
        Ste::extract_ste_dwords(&bytes),
        [0x0b, STE1_NESTING_ALLOWED]
    );
    let ste = Ste::read(&bytes);
    assert_eq!(ste_config_action(&ste), Some(SteAction::S1Translate));
    assert_eq!(
        StreamConfig::from_ste(9, &ste),
        StreamConfig::Translate {
            sid: 9,
            nested_dw0: 0x0b,
            nested_dw1: STE1_NESTING_ALLOWED
        }
    );
    // A configuration that is not supported.
    let nested = Ste::with_config(true, 7);
    assert_eq!(ste_config_action(&nested), None);
    assert_eq!(StreamConfig::from_ste(9, &nested), StreamConfig::Abort);
}

#[test]
fn unsupported_entry_faults() {
    let mut smmu = Smmu::enabled();
    smmu.write_ste(expected_sid(), &Ste::with_config(true, 6));
    let bad = EvtEntry {
        event_id: EVENT_C_BAD_STE,
        sid: expected_sid(),
        input_addr: 0,
    };
    assert_eq!(
        smmu.translate(expected_sid(), 0x5000),
        TranslateResult::Fault(bad)
    );
    // An entry that says abort is another result with the same event.
    smmu.write_ste(expected_sid(), &make_abort_ste());
    assert_eq!(
        smmu.translate(expected_sid(), 0x5000),
        TranslateResult::Abort(bad)
    );
}

#[test]
fn routes_are_translated_like_messages() {
    let msi = SmmuSignalMsi { stream_id_base: 512 };
    assert_eq!(msi.stream_of(Some(0x2_0108)), Some(512 + 0x108));
    assert_eq!(
        msi.enable_route(Some(1), 0x10, TranslateResult::Translated(0x20)),
        MsiOutcome::Forward { address: 0x20 }
    );
    assert_eq!(
        msi.enable_route(None, 0x10, TranslateResult::Bypass),
        MsiOutcome::Drop
    );
    assert_eq!(
        SmmuTranslator { stream_id_base: 0 }.max_iova(),
        1 << 48
    );
}

#[test]
fn stream_ids_need_an_assigned_bus() {
    let mut range = AssignedBusRange::new();
    assert_eq!(compose_stream_id(&range, 100, Some(0x108)), None);
    range.set_bus_range(2, 3);
    assert_eq!(compose_stream_id(&range, 100, None), Some(100 + 0x200));
    assert_eq!(compose_stream_id(&range, 100, Some(0x308)), Some(100 + 0x308));
    assert_eq!(compose_stream_id(&range, 100, Some(0x408)), None);
    assert_eq!(compose_stream_id(&range, 100, Some(0x108)), None);
}

#[test]
fn event_queue_holds_as_many_events_as_it_has_entries() {
    let mut queue = SmmuSharedState::new(40, SmmuOasPolicy::Auto, false);
    assert_eq!(queue.write_event(), EventStep::Disabled);
    queue.set_evtq_config(0x1000, 1);
    queue.set_evtq_enabled(true);
    queue.set_irq_ctrl(true, true);
    assert_eq!(queue.write_event(), EventStep::Write { address: 0x1000 });
    assert_eq!(queue.commit_event(), Some(true));
    assert_eq!(queue.write_event(), EventStep::Write { address: 0x1020 });
    queue.commit_event();
    assert_eq!(queue.evtq_prod(), 2);
    assert_eq!(queue.write_event(), EventStep::Overflow { gerror_irq: true });
    assert_eq!(queue.read_gerror().raw, EVENTQ_ABT_ERR);
    // It stays active, whatever comes in meanwhile.
    assert_eq!(queue.write_event(), EventStep::Overflow { gerror_irq: true });
    assert!(!queue.write_gerrorn(EVENTQ_ABT_ERR));
    assert_eq!(queue.read_gerrorn().raw, EVENTQ_ABT_ERR);
    // Room again, in the next lap.
    assert_eq!(queue.set_evtq_cons(1), None);
    assert_eq!(queue.write_event(), EventStep::Write { address: 0x1000 });
    queue.commit_event();
    assert_eq!(queue.evtq_prod(), 3);
    assert_eq!(queue.set_evtq_cons(3), Some(false));
    assert_eq!(queue.evtq_cons(), 3);
    queue.write_event();
    queue.commit_event();
    assert_eq!(queue.evtq_prod(), 0);
}

#[test]
fn command_queue_error_toggles() {
    let mut queue = SmmuSharedState::new(40, SmmuOasPolicy::Auto, false);
    assert!(!queue.toggle_cmdq_err());
    assert!(queue.cmdq_err_active());
    assert_eq!(queue.read_gerror().raw, CMDQ_ERR);
    assert!(queue.set_irq_ctrl(false, true));
    assert!(queue.queue_state.gerror_irq_level());
    assert!(!queue.write_gerrorn(CMDQ_ERR));
    assert!(!queue.cmdq_err_active());
    assert!(queue.toggle_cmdq_err());
    assert!(!queue.reset_queue_state());
    assert_eq!(queue.read_gerror().raw, 0);
}

#[test]
fn queue_state_survives_a_save() {
    let mut queue = SmmuSharedState::new(40, SmmuOasPolicy::Auto, false);
    queue.set_evtq_config(0x1000, 3);
    queue.set_evtq_enabled(true);
    queue.set_irq_ctrl(true, true);
    queue.write_event();
    queue.commit_event();
    queue.toggle_cmdq_err();
    let saved = queue.save_queue_state();
    let mut restored = SmmuSharedState::new(40, SmmuOasPolicy::Auto, false);
    restored.set_evtq_config(0x1000, 3);
    restored.set_evtq_enabled(true);
    restored.set_irq_ctrl(true, true);
    assert_eq!(
        restored.restore_queue_state(saved),
        IrqLevels {
            gerror: true,
            evtq: Some(true)
        }
    );
    assert_eq!(restored.save_queue_state(), saved);
    assert_eq!(restored.evtq_prod(), 1);
}

#[test]
fn output_address_sizes() {
    assert_eq!(oas_bits_from_encoding(IPS_48), Some(48));
    assert_eq!(oas_bits_from_encoding(7), None);
    assert_eq!(min_oas_bits_for(0), 32);
    assert_eq!(min_oas_bits_for(1 << 40), 40);
    assert_eq!(min_oas_bits_for((1 << 40) + 1), 42);
    assert_eq!(min_oas_bits_for(u64::MAX), 52);
}
