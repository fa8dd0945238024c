//! Remote and passthrough devices, and sockets.

use vm_devices::consomme::{is_connect_incomplete_error, OsSockets, SocketStep};
use vm_devices::pci::bus_range::AssignedBusRange;
use vm_devices::pci::remote::{
    mmio_read, mmio_write, pci_cfg_read, pci_cfg_write, PendingIo, RemotePciDeviceHandle,
    RemotePciRequest,
};
use vm_devices::smmu::registers::{HostSmmuCaps, Idr0TtEndian, Idr0Ttf, SmmuOasPolicy, IPS_48};
use vm_devices::smmu::shared::{HostCapsError, RegisterStep, SmmuSharedState};
use vm_devices::smmu::stream::{StreamConfig, STE1_NESTING_ALLOWED};
use vm_devices::vfio::nesting::{
    on_cfgi_ste, on_tlbi, query_host_caps, HostInfoError, IommuOp, StreamBackendState, StreamTarget,
};
use vm_devices::vfio::resolver::{
    begin_group_resolve, finish_resolve, nest_device, ResolveError, SmmuNestingEntry,
    SmmuNestingStore,
};
use vm_devices::vfio::resources::{
    BarPassthrough, VfioCdevDeviceHandle, VfioDeviceHandle, VFIO_CDEV_DEVICE_ID, VFIO_DEVICE_ID,
};

#[test]
fn remote_accesses_name_their_request() {
    assert_eq!(
        mmio_read(0x10, 2),
        (RemotePciRequest::MmioRead(0x10), PendingIo::MmioRead(2))
    );
    assert_eq!(
        pci_cfg_read(4),
        (RemotePciRequest::ConfigRead(4), PendingIo::ConfigRead)
    );
    assert_eq!(
        pci_cfg_write(4, 9),
        (RemotePciRequest::ConfigWrite(4, 9), PendingIo::ConfigWrite)
    );
    assert_eq!(
        mmio_write(0x10, &[1, 2], false),
        (
            RemotePciRequest::MmioWrite(0x10, 0x0201),
            PendingIo::MmioWrite
        )
    );
    assert_eq!(RemotePciDeviceHandle {}, RemotePciDeviceHandle {});
}

#[test]
fn remote_values_have_the_byte_order_of_the_machine() {
    let bytes = [1, 2, 3, 4, 5, 6, 7, 8];
    for size in [1, 2, 4, 8] {
        let value = |big| match mmio_write(0, &bytes[..size], big).0 {
            RemotePciRequest::MmioWrite(_, value) => value,
            other => panic!("unexpected {other:?}"),
        };
        let mut le = [0; 8];
        le[..size].copy_from_slice(&bytes[..size]);
        assert_eq!(value(false), u64::from_le_bytes(le));
        let mut be = [0; 8];
        be[8 - size..].copy_from_slice(&bytes[..size]);
        assert_eq!(value(true), u64::from_be_bytes(be));
    }
    let value: u64 = 0x0102_0304_0506_0708;
    assert_eq!(
        PendingIo::MmioRead(3).complete(Some(value), false),
        value.to_le_bytes()[..3]
    );
    assert_eq!(
        PendingIo::MmioRead(3).complete(Some(value), true),
        value.to_be_bytes()[..3]
    );
    assert_eq!(
        PendingIo::ConfigRead.complete(Some(0x1234), true),
        0x1234u32.to_be_bytes()
    );
}

#[test]
fn remote_write_reads_back() {
    for size in [1, 2, 4, 8] {
        let bytes = &[9, 8, 7, 6, 5, 4, 3, 2][..size];
        let RemotePciRequest::MmioWrite(_, value) = mmio_write(0, bytes, false).0 else {
            panic!("expected a write");
        };
        assert_eq!(
            PendingIo::MmioRead(size).complete(Some(value), false),
            bytes
        );
    }
}

#[test]
fn failed_remote_read_gives_all_ones() {
    assert_eq!(PendingIo::MmioRead(8).complete(None, false), [0xff; 8]);
    assert_eq!(PendingIo::ConfigRead.complete(None, false), [0xff; 4]);
    assert!(PendingIo::MmioWrite.complete(None, false).is_empty());
    assert!(PendingIo::ConfigWrite.complete(None, false).is_empty());
}

#[test]
fn sockets_are_bound_to_the_current_driver() {
    let mut sockets = OsSockets::new("first");
    assert_eq!(sockets.driver(), Some(&"first"));
    let mut socket = sockets.adopt(7);
    assert!(matches!(sockets.socket(&mut socket), SocketStep::Ready));
    assert_eq!(socket.get(), Some(&7));
    sockets.update_driver("second");
    assert_eq!(sockets.driver(), Some(&"second"));
    let SocketStep::Rebind(inner) = sockets.socket(&mut socket) else {
        panic!("expected a rebind");
    };
    assert_eq!(inner, 7);
    // Until it is put back, the socket is gone.
    assert!(matches!(
        sockets.socket(&mut socket),
        SocketStep::NotConnected
    ));
    sockets.rebound(&mut socket, inner);
    assert!(matches!(sockets.socket(&mut socket), SocketStep::Ready));
    assert_eq!(sockets.driver_seq(), 1);
    *socket.get_mut().unwrap() = 8;
    assert_eq!(socket.get(), Some(&8));
}

#[test]
fn socket_without_a_driver_cannot_be_used() {
    let none: OsSockets<&str> = OsSockets::without_driver();
    assert_eq!(none.driver(), None);
    let mut other = OsSockets::new("other");
    other.update_driver("again");
    let mut socket = other.adopt(1);
    assert!(matches!(none.socket(&mut socket), SocketStep::NoDriver));
    assert_eq!(socket.get(), None);
    assert_eq!(socket.get_mut(), None);
}

#[test]
fn connect_in_progress_is_no_failure() {
    let in_progress = 115;
    assert!(is_connect_incomplete_error(true, None, in_progress));
    assert!(is_connect_incomplete_error(
        false,
        Some(in_progress),
        in_progress
    ));
    assert!(!is_connect_incomplete_error(false, Some(111), in_progress));
    assert!(!is_connect_incomplete_error(false, None, in_progress));
}

fn ste(valid: bool, config: u8) -> [u8; 64] {
    let mut bytes = [0; 64];
    bytes[0] = valid as u8 | (config << 1);
    bytes[8..16].fill(0xff);
    bytes
}

#[test]
fn stream_entries_name_their_target() {
    assert_eq!(on_cfgi_ste(&ste(false, 5)), StreamTarget::Abort);
    assert_eq!(on_cfgi_ste(&ste(true, 0)), StreamTarget::Abort);
    assert_eq!(on_cfgi_ste(&ste(true, 4)), StreamTarget::Bypass);
    assert_eq!(
        on_cfgi_ste(&ste(true, 5)),
        StreamTarget::Translate {
            dw0: 0x0b,
            dw1: STE1_NESTING_ALLOWED
        }
    );
    assert_eq!(on_cfgi_ste(&ste(true, 7)), StreamTarget::Abort);
}

#[test]
fn host_tells_its_output_address_size() {
    assert_eq!(query_host_caps(2, 2, 0xfff0 | IPS_48 as u32), Ok(48));
    assert_eq!(
        query_host_caps(1, 2, 5),
        Err(HostInfoError::UnexpectedType(1))
    );
    assert_eq!(query_host_caps(2, 2, 7), Err(HostInfoError::UnknownOas(7)));
}

#[test]
fn device_is_switched_between_page_tables() {
    let mut state = StreamBackendState::new();
    // At first the device bypasses.
    assert_eq!(state.handle_bypass(1).ops, [IommuOp::Attach(1)]);
    assert_eq!(state.handle_abort().ops, [IommuOp::Detach]);
    state.switched(false, None);
    assert!(state.handle_abort().ops.is_empty());
    // The first nesting needs a virtual device, if the stream is known.
    assert_eq!(state.needs_vdevice(None), None);
    assert_eq!(state.needs_vdevice(Some(0x100)), Some(0x100));
    state.vdevice_allocated(40);
    assert_eq!(state.needs_vdevice(Some(0x100)), None);
    let plan = state.handle_s1_translate(50);
    assert_eq!(plan.ops, [IommuOp::Detach, IommuOp::Attach(50)]);
    assert_eq!(plan.destroy, None);
    state.switched(true, Some(50));
    // Another one: the old page table goes away.
    let plan = state.handle_s1_translate(51);
    assert_eq!(plan.destroy, Some(50));
    state.switched(true, Some(51));
    let plan = state.handle_bypass(1);
    assert_eq!(plan.ops, [IommuOp::Detach, IommuOp::Attach(1)]);
    assert_eq!(plan.destroy, Some(51));
    let plan = state.handle_abort();
    assert_eq!(plan.ops, [IommuOp::Detach]);
    assert_eq!(plan.destroy, Some(51));
    assert_eq!(state.teardown(), [51, 40]);
    assert!(state.teardown().is_empty());
}

#[test]
fn invalidation_commands_are_passed_on() {
    let mut bytes = [0; 16];
    bytes[0] = 0x12;
    bytes[15] = 0x80;
    assert_eq!(on_tlbi(&bytes), [0x12, 0x8000_0000_0000_0000]);
}

fn nesting_entry(smmu_id: usize) -> SmmuNestingEntry {
    SmmuNestingEntry {
        smmu_id,
        bus_range: AssignedBusRange::new(),
        stream_id_base: 0,
    }
}

#[test]
fn ports_are_found_by_name() {
    let mut store = SmmuNestingStore::new();
    assert_eq!(store.get("rp0"), None);
    store.register("rp0".to_string(), nesting_entry(1));
    store.register("rp1".to_string(), nesting_entry(2));
    store.register("rp0".to_string(), nesting_entry(3));
    assert_eq!(store.get("rp0"), Some(nesting_entry(3)));
    assert_eq!(store.get("rp1"), Some(nesting_entry(2)));
    assert_eq!(store.get("rp"), None);
    assert_eq!(
        store.begin_resolve(false, "rp1"),
        Ok(Some(nesting_entry(2)))
    );
    assert_eq!(store.begin_resolve(false, "other"), Ok(None));
    assert_eq!(
        store.begin_resolve(true, "rp1"),
        Err(ResolveError::SoftwareIommu)
    );
}

#[test]
fn device_is_nested_behind_a_compatible_host() {
    let mut shared = SmmuSharedState::new(40, SmmuOasPolicy::Fixed(40), true);
    let mut caps = HostSmmuCaps {
        oas: IPS_48,
        ttf: Idr0Ttf {
            aarch32: false,
            aarch64: false,
        },
        ttendian: Idr0TtEndian::Le,
        gran4k: true,
    };
    assert_eq!(
        nest_device(&mut shared, nesting_entry(0), caps, 6),
        Err(ResolveError::IncompatibleHost(HostCapsError::NoAarch64))
    );
    assert!(shared.all_stream_backends().is_empty());
    caps.ttf.aarch64 = true;
    assert_eq!(
        nest_device(&mut shared, nesting_entry(0), caps, 6),
        Ok(RegisterStep::Apply(StreamConfig::Bypass))
    );
    assert_eq!(shared.all_stream_backends(), [6]);
    caps.gran4k = false;
    assert_eq!(
        nest_device(&mut shared, nesting_entry(0), caps, 7),
        Err(ResolveError::IncompatibleHost(
            HostCapsError::SecondPhysicalSmmu
        ))
    );
}

#[test]
fn group_devices_need_a_memory_mapper() {
    assert_eq!(begin_group_resolve(false), Ok(()));
    assert_eq!(begin_group_resolve(true), Err(ResolveError::SoftwareIommu));
    assert_eq!(finish_resolve(true), Ok(()));
    assert_eq!(finish_resolve(false), Err(ResolveError::NoMemoryMapper));
}

#[test]
fn handles_have_their_identifiers() {
    assert_eq!(VFIO_DEVICE_ID, "vfio");
    assert_eq!(VFIO_CDEV_DEVICE_ID, "vfio-cdev");
    assert_eq!(BarPassthrough::default(), BarPassthrough::Guest);
    let group = VfioDeviceHandle {
        pci_id: "0000:01:00.0".to_string(),
        group: 3,
        bar_pt: [BarPassthrough::Guest; 6],
    };
    assert_eq!(group.group, 3);
    let cdev = VfioCdevDeviceHandle {
        pci_id: "0000:01:00.0".to_string(),
        cdev: 4,
        iommufd: 5,
        iommu_id: "iommu0".to_string(),
        bar_pt: [BarPassthrough::Sysfs; 6],
        port_name: "rp0".to_string(),
    };
    assert_eq!(cdev.iommufd, 5);
}
