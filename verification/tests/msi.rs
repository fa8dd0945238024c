//! Interrupt messages and their routes.

use vm_devices::gic::its::{
    mmio_read as its_mmio_read, translater_offset, GicItsSink, GIC_ITS_SIZE,
};
use vm_devices::gic::v2m::{FrameError, GicV2mDevice, SETSPI_NS_OFFSET, TYPER_OFFSET};
use vm_devices::pci::bus_range::AssignedBusRange;
use vm_devices::pci::msi::{
    resolve_default_rid, DefaultRid, MsiConnection, MsiMessage, MsiRoute, MsiTarget, RouteConsumer,
    RouteStep,
};

/// A connection with a backend that records messages.
struct Recorder {
    connection: MsiConnection,
    calls: Vec<(Option<u32>, u64, u32)>,
}

impl Recorder {
    fn new() -> Recorder {
        let mut connection = MsiConnection::new();
        connection.connect();
        Recorder {
            connection,
            calls: Vec::new(),
        }
    }

    fn deliver(&mut self, message: Option<MsiMessage>) {
        if let Some(message) = message.and_then(|m| self.connection.deliver(m)) {
            self.calls
                .push((message.devid, message.address, message.data));
        }
    }

    fn pop(&mut self) -> Option<(Option<u32>, u64, u32)> {
        if self.calls.is_empty() {
            None
        } else {
            Some(self.calls.remove(0))
        }
    }
}

fn buses(secondary: u8, subordinate: u8) -> AssignedBusRange {
    let mut range = AssignedBusRange::new();
    range.set_bus_range(secondary, subordinate);
    range
}

#[test]
fn signal_msi_resolves_default_rid() {
    let mut recorder = Recorder::new();
    let target = recorder.connection.msi_target(buses(5, 10), 0x18);
    recorder.deliver(target.signal_msi(0xFEE0_0000, 42));

    let (devid, addr, data) = recorder.pop().unwrap();
    assert_eq!(devid, Some((5 << 8) | 0x18));
    assert_eq!(addr, 0xFEE0_0000);
    assert_eq!(data, 42);
}

#[test]
fn signal_msi_with_rid_accepts_bus_in_range() {
    let mut recorder = Recorder::new();
    // RID with bus=7, devfn=0x0A → within [5, 10]
    let rid: u16 = (7 << 8) | 0x0A;
    let target = recorder.connection.msi_target(buses(5, 10), 0);
    recorder.deliver(target.signal_msi_with_rid(rid, 0xABCD, 99));

    let (devid, addr, data) = recorder.pop().unwrap();
    assert_eq!(devid, Some(rid as u32));
    assert_eq!(addr, 0xABCD);
    assert_eq!(data, 99);
}

#[test]
fn signal_msi_with_rid_drops_bus_outside_range() {
    let mut recorder = Recorder::new();
    let target = recorder.connection.msi_target(buses(5, 10), 0);

    // bus=11, above subordinate=10 → dropped
    let rid_above: u16 = 11 << 8;
    recorder.deliver(target.signal_msi_with_rid(rid_above, 0xABCD, 1));
    assert!(recorder.pop().is_none());

    // bus=4, below secondary=5 → dropped
    let rid_below: u16 = 4 << 8;
    recorder.deliver(target.signal_msi_with_rid(rid_below, 0xABCD, 2));
    assert!(recorder.pop().is_none());
}

#[test]
fn signal_msi_with_rid_accepts_boundary_buses() {
    let mut recorder = Recorder::new();
    let target = recorder.connection.msi_target(buses(5, 10), 0);

    // Exactly at secondary bus (5)
    recorder.deliver(target.signal_msi_with_rid(5 << 8, 0x1000, 10));
    assert!(recorder.pop().is_some());

    // Exactly at subordinate bus (10)
    recorder.deliver(target.signal_msi_with_rid(10 << 8, 0x2000, 20));
    assert!(recorder.pop().is_some());
}

#[test]
fn with_devfn_derives_target_with_new_devfn() {
    let mut recorder = Recorder::new();
    let derived = recorder
        .connection
        .msi_target(buses(2, 5), 0)
        .with_devfn(0x18); // dev 3, fn 0
    recorder.deliver(derived.signal_msi(0x1000, 1));

    let (devid, _, _) = recorder.pop().unwrap();
    assert_eq!(devid, Some((2 << 8) | 0x18));
}

#[test]
fn with_bus_range_derives_target_with_new_range() {
    let mut recorder = Recorder::new();
    let derived = recorder
        .connection
        .msi_target(buses(1, 20), 0)
        .with_bus_range(buses(10, 15), 0x08);
    recorder.deliver(derived.signal_msi(0x2000, 2));

    let (devid, _, _) = recorder.pop().unwrap();
    // secondary=10, devfn=0x08 → BDF = (10 << 8) | 0x08
    assert_eq!(devid, Some((10 << 8) | 0x08));

    // Validation uses the child range, not the parent
    recorder.deliver(derived.signal_msi_with_rid(16 << 8, 0x3000, 3));
    assert!(recorder.pop().is_none()); // bus 16 > subordinate 15
}

#[test]
fn with_rid_signal_msi_accepts_bus_in_range() {
    let mut recorder = Recorder::new();
    // RID with bus=7 (within [5, 10]), devfn=0x0A
    let rid: u16 = (7 << 8) | 0x0A;
    let derived = recorder
        .connection
        .msi_target(buses(5, 10), 0)
        .with_rid(rid);
    recorder.deliver(derived.signal_msi(0x1000, 7));

    let (devid, addr, data) = recorder.pop().unwrap();
    assert_eq!(devid, Some(rid as u32));
    assert_eq!(addr, 0x1000);
    assert_eq!(data, 7);
}

#[test]
fn with_rid_signal_msi_drops_bus_outside_range() {
    let mut recorder = Recorder::new();
    let target = recorder.connection.msi_target(buses(5, 10), 0);

    // bus=11 > subordinate=10 → dropped
    let derived_above = target.with_rid(11 << 8);
    recorder.deliver(derived_above.signal_msi(0x1000, 1));
    assert!(recorder.pop().is_none());

    // bus=4 < secondary=5 → dropped
    let derived_below = target.with_rid(4 << 8);
    recorder.deliver(derived_below.signal_msi(0x2000, 2));
    assert!(recorder.pop().is_none());
}

#[test]
fn messages_are_dropped_before_a_backend_is_connected() {
    let mut connection = MsiConnection::default();
    let message = connection.target().signal_msi(1, 2).unwrap();
    assert_eq!(message.devid, Some(0));
    assert_eq!(connection.deliver(message), None);
    connection.connect();
    assert_eq!(connection.deliver(message), Some(message));
    assert_eq!(
        MsiTarget::disconnected().default_rid,
        connection.target().default_rid
    );
}

#[test]
fn offset_target_follows_the_buses() {
    let mut target = MsiTarget::disconnected().with_rid_offset(0x108);
    assert!(target.signal_msi(0, 0).is_none());
    target.default_rid.bus_range.set_bus_range(5, 6);
    assert_eq!(target.signal_msi(0, 0).unwrap().devid, Some(0x608));
    target.default_rid.bus_range.set_bus_range(9, 20);
    assert_eq!(target.signal_msi(0, 0).unwrap().devid, Some(0xa08));
    // Far offsets do not wrap around.
    let far = DefaultRid {
        bus_range: buses(200, 255),
        rid_offset: 0xffff,
    };
    assert_eq!(resolve_default_rid(&far), None);
}

fn route(range: AssignedBusRange, devfn: u8) -> MsiRoute {
    let mut connection = MsiConnection::new();
    connection.connect();
    let target = connection.msi_target(range, devfn);
    assert!(!target.supports_direct_msi(&connection));
    assert!(target.new_route(&connection).is_none());
    connection.enable_msi_routes();
    assert!(target.supports_direct_msi(&connection));
    target.new_route(&connection).unwrap()
}

#[test]
fn route_enable_resolves_default_rid() {
    let mut route = route(buses(3, 8), 0x10);
    assert_eq!(route.enable(), RouteStep::Bind((3 << 8) | 0x10));
}

#[test]
fn route_enable_with_rid_accepts_bus_in_range() {
    let mut route = route(buses(5, 10), 0);
    let rid: u16 = (7 << 8) | 0x0A;
    assert_eq!(route.enable_with_rid(rid), RouteStep::Bind(rid as u32));
}

#[test]
fn route_enable_with_rid_disables_when_bus_outside_range() {
    let mut route = route(buses(5, 10), 0);
    assert_eq!(route.enable_with_rid(11 << 8), RouteStep::Disable);
    assert_eq!(route.consumer, RouteConsumer::Nobody);
}

#[test]
fn with_rid_route_enable_disables_when_bus_outside_range() {
    let mut connection = MsiConnection::new();
    connection.enable_msi_routes();
    let derived = connection.msi_target(buses(5, 10), 0).with_rid(11 << 8);
    let mut route = derived.new_route(&connection).unwrap();
    assert_eq!(route.enable(), RouteStep::Disable);
}

#[test]
fn route_has_one_reader_at_a_time() {
    let mut route = route(buses(3, 8), 0);
    let rid = 0x300;
    assert_eq!(route.enable(), RouteStep::Bind(rid));
    assert_eq!(route.bound(true, true, rid), RouteStep::Done);
    assert_eq!(route.consumer, RouteConsumer::Kernel);
    // Another vector: the kernel keeps its binding.
    assert_eq!(route.enable(), RouteStep::TryUpdate(rid));
    assert_eq!(route.updated(true, rid), RouteStep::Done);
    assert_eq!(route.consumer, RouteConsumer::Kernel);
    // Another doorbell: it is bound anew, and a task takes over.
    assert_eq!(route.enable(), RouteStep::TryUpdate(rid));
    assert_eq!(route.updated(false, rid), RouteStep::Bind(rid));
    assert_eq!(
        route.bound(false, true, rid),
        RouteStep::StartUsermode(rid)
    );
    route.usermode_started(true);
    assert_eq!(route.consumer, RouteConsumer::Usermode);
    // And back to the kernel: the task is stopped first.
    assert_eq!(route.enable(), RouteStep::Bind(rid));
    assert_eq!(route.consumer, RouteConsumer::Nobody);
    assert_eq!(route.bound(false, false, rid), RouteStep::Dropped);
    route.usermode_started(false);
    assert_eq!(route.disable(), RouteStep::Disable);
    assert_eq!(route.consumer, RouteConsumer::Nobody);
}

fn sink(segment: u16) -> GicItsSink {
    GicItsSink {
        segment,
        has_irqfd: false,
        translater_addr: 0x1000,
    }
}

#[test]
fn translate_matching_segment_strips_to_local_bdf() {
    // Segment 2, BDF 0x0300: SBDF = 0x0002_0300 -> local 0x0300.
    let sink2 = sink(2);
    assert_eq!(sink2.translate_devid(Some(0x0002_0300)), Ok(Some(0x0300)));
    // Segment 0 with a plain BDF is unchanged.
    let sink0 = sink(0);
    assert_eq!(sink0.translate_devid(Some(0x00AB)), Ok(Some(0x00AB)));
}

#[test]
fn translate_foreign_segment_is_rejected() {
    // A device in segment 1 targeting this segment-2 ITS must be dropped,
    // reported with the offending source segment.
    let sink2 = sink(2);
    assert_eq!(sink2.translate_devid(Some(0x0001_0300)), Err(1));
}

#[test]
fn translate_none_passes_through() {
    let sink5 = sink(5);
    assert_eq!(sink5.translate_devid(None), Ok(None));
}

#[test]
fn its_delivers_under_the_local_identifier() {
    let mut its = sink(2);
    let message = its.signal_msi(Some(0x2_0300), 0x1000, 7).unwrap();
    assert_eq!(message.devid, Some(0x300));
    assert_eq!(message.data, 7);
    assert!(its.signal_msi(Some(0x3_0300), 0x1000, 7).is_none());
    // Without kernel routes there is nothing to bind.
    assert!(its.bind_msi(Some(0x2_0300), 0x1000, 7).is_none());
    its.has_irqfd = true;
    assert_eq!(
        its.bind_msi(Some(0x2_0300), 0x1000, 7).unwrap().devid,
        Some(0x300)
    );
    assert!(its.bind_msi(Some(0x2_0300), 0x1004, 7).is_none());
    assert!(its.bind_msi(Some(0x3_0300), 0x1000, 7).is_none());
    assert_eq!(translater_offset(0x1_0040, 0x1_0000), 0x40);
    assert_eq!(its_mmio_read(3), [0xff; 3]);
    assert_eq!(GIC_ITS_SIZE, 0x2_0000);
}

#[test]
fn v2m_frame_asserts_its_own_interrupts() {
    let frame = GicV2mDevice::new(0xF000_0000, 64, 32);
    let doorbell = 0xF000_0000 + SETSPI_NS_OFFSET as u64;
    for spi in [63u32, 64, 95, 96] {
        let owned = (64..96).contains(&spi).then_some(spi);
        assert_eq!(frame.deliver_spi(spi), owned);
        assert_eq!(frame.signal_msi(doorbell, spi), owned);
        assert_eq!(
            frame.mmio_write(doorbell, &spi.to_le_bytes()),
            Ok(owned)
        );
        assert_eq!(frame.enable_route(doorbell, spi), owned.is_some());
        // Not at another address.
        assert_eq!(frame.signal_msi(doorbell + 4, spi), None);
        assert_eq!(
            frame.mmio_write(doorbell + 4, &spi.to_le_bytes()),
            Ok(None)
        );
        assert!(!frame.enable_route(doorbell + 4, spi));
    }
}

#[test]
fn v2m_frame_tells_its_interrupts() {
    let frame = GicV2mDevice::new(0xF000_0000, 64, 32);
    let typer = frame
        .mmio_read(0xF000_0000 + TYPER_OFFSET as u64, 4)
        .unwrap();
    assert_eq!(typer, (64u32 << 16 | 32).to_le_bytes());
    assert_eq!(frame.mmio_read(0xF000_0000, 4).unwrap(), [0; 4]);
    assert_eq!(
        frame.mmio_read(0xF000_0000, 8),
        Err(FrameError::InvalidAccessSize)
    );
    assert_eq!(
        frame.mmio_write(0xF000_0040, &[0; 2]),
        Err(FrameError::InvalidAccessSize)
    );
}
