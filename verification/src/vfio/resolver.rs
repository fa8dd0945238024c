//! Resolution of passthrough devices, and the ports behind which they are
//! nested.

use vstd::prelude::*;

use crate::pci::bus_range::AssignedBusRange;
use crate::smmu::registers::HostSmmuCaps;
use crate::smmu::shared::{
    device_sid, AccelDevice, HostCapsError, RegisterStep, SmmuSharedState,
};
use crate::text::text_eq;

verus! {

/// What is known of a port behind an SMMU that the host accelerates.
#[derive(Debug, Clone, Copy, PartialEq, Eq, Structural)]
pub struct SmmuNestingEntry {
    /// Number of the SMMU. Ports with the same one share a virtual IOMMU.
    pub smmu_id: usize,
    /// The buses of the port.
    pub bus_range: AssignedBusRange,
    /// First stream of the root complex of the port.
    pub stream_id_base: u32,
}

impl SmmuNestingEntry {
    /// The device behind the port.
    pub open spec fn device(self, backend: usize) -> AccelDevice {
        AccelDevice { bus_range: self.bus_range, stream_id_base: self.stream_id_base, backend }
    }
}

/// A named port.
#[derive(Debug)]
pub struct NestedPort {
    /// The name.
    pub name: String,
    /// What is known of it.
    pub entry: SmmuNestingEntry,
}

/// The ports behind SMMUs that the host accelerates, by name.
#[derive(Debug)]
pub struct SmmuNestingStore {
    ports: Vec<NestedPort>,
}

/// Why a device cannot be resolved.
#[derive(Debug, Clone, Copy, PartialEq, Eq, Structural)]
pub enum ResolveError {
    /// It is behind an IOMMU in software, which cannot program the host.
    SoftwareIommu,
    /// The host SMMU cannot back the SMMU of the device.
    IncompatibleHost(HostCapsError),
    /// There is nothing to map its memory with.
    NoMemoryMapper,
}

/// The named entries.
pub open spec fn entries_of(ports: Seq<NestedPort>) -> Map<Seq<char>, SmmuNestingEntry>
    decreases ports.len(),
{
    if ports.len() == 0 {
        Map::empty()
    } else {
        entries_of(ports.drop_last()).insert(ports.last().name@, ports.last().entry)
    }
}

proof fn lemma_entry_at(ports: Seq<NestedPort>, i: int)
    requires
        0 <= i < ports.len(),
        names_distinct(ports),
    ensures
        entries_of(ports).contains_key(ports[i].name@),
        entries_of(ports)[ports[i].name@] == ports[i].entry,
    decreases ports.len(),
{
    if i < ports.len() - 1 {
        let rest = ports.drop_last();
        assert(names_distinct(rest)) by {
            assert forall|a: int, b: int| 0 <= a < b < rest.len() implies (
            #[trigger] rest[a]).name@ != (#[trigger] rest[b]).name@ by {
                assert(ports[a].name@ != ports[b].name@);
            }
        }
        lemma_entry_at(rest, i);
        assert(rest[i] == ports[i]);
        assert(ports[i].name@ != ports[ports.len() - 1].name@);
    }
}

proof fn lemma_no_entry(ports: Seq<NestedPort>, name: Seq<char>)
    requires
        forall|i: int| 0 <= i < ports.len() ==> (#[trigger] ports[i]).name@ != name,
    ensures
        !entries_of(ports).contains_key(name),
    decreases ports.len(),
{
    if ports.len() > 0 {
        let rest = ports.drop_last();
        assert forall|i: int| 0 <= i < rest.len() implies (#[trigger] rest[i]).name@ != name by {
            assert(rest[i] == ports[i]);
        }
        lemma_no_entry(rest, name);
        assert(ports[ports.len() - 1].name@ != name);
    }
}

proof fn lemma_entries_update(ports: Seq<NestedPort>, i: int, port: NestedPort)
    requires
        0 <= i < ports.len(),
        names_distinct(ports),
        port.name@ == ports[i].name@,
    ensures
        entries_of(ports.update(i, port)) == entries_of(ports).insert(port.name@, port.entry),
    decreases ports.len(),
{
    let updated = ports.update(i, port);
    let rest = ports.drop_last();
    if i == ports.len() - 1 {
        assert(updated.drop_last() =~= rest);
        assert(entries_of(updated) =~= entries_of(ports).insert(port.name@, port.entry));
    } else {
        assert(names_distinct(rest)) by {
            assert forall|a: int, b: int| 0 <= a < b < rest.len() implies (
            #[trigger] rest[a]).name@ != (#[trigger] rest[b]).name@ by {
                assert(ports[a].name@ != ports[b].name@);
            }
        }
        assert(updated.drop_last() =~= rest.update(i, port));
        lemma_entries_update(rest, i, port);
        assert(ports[i].name@ != ports[ports.len() - 1].name@);
        assert(entries_of(updated) =~= entries_of(ports).insert(port.name@, port.entry));
    }
}

/// No two ports have the same name.
pub open spec fn names_distinct(ports: Seq<NestedPort>) -> bool {
    forall|i: int, j: int|
        0 <= i < j < ports.len() ==> (#[trigger] ports[i]).name@ != (#[trigger] ports[j]).name@
}

impl SmmuNestingStore {
    /// The entries by name.
    pub closed spec fn view(&self) -> Map<Seq<char>, SmmuNestingEntry> {
        entries_of(self.ports@)
    }

    /// No two ports have the same name.
    pub closed spec fn wf(&self) -> bool {
        names_distinct(self.ports@)
    }

    /// A store without ports.
    pub fn new() -> (r: SmmuNestingStore)
        ensures
            r.wf(),
            r@ == Map::<Seq<char>, SmmuNestingEntry>::empty(),
    {
        SmmuNestingStore { ports: Vec::new() }
    }

    fn find(&self, name: &str) -> (r: Option<usize>)
        ensures
            match r {
                Some(i) => i < self.ports@.len() && self.ports@[i as int].name@ == name@,
                None => forall|k: int|
                    0 <= k < self.ports@.len() ==> (#[trigger] self.ports@[k]).name@ != name@,
            },
    {
        let mut i: usize = 0;
        while i < self.ports.len()
            invariant
                i <= self.ports@.len(),
                forall|k: int| 0 <= k < i ==> (#[trigger] self.ports@[k]).name@ != name@,
            decreases self.ports@.len() - i,
        {
            if text_eq(self.ports[i].name.as_str(), name) {
                return Some(i);
            }
            i += 1;
        }
        None
    }

    /// Registers a port, or replaces what is known of it.
    pub fn register(&mut self, name: String, entry: SmmuNestingEntry)
        requires
            old(self).wf(),
        ensures
            final(self).wf(),
            final(self)@ == old(self)@.insert(name@, entry),
    {
        let ghost before = self.ports@;
        match self.find(name.as_str()) {
            Some(i) => {
                let port = NestedPort { name, entry };
                proof {
                    lemma_entries_update(before, i as int, port);
                }
                self.ports.set(i, port);
                assert(names_distinct(self.ports@)) by {
                    assert forall|a: int, b: int| 0 <= a < b < self.ports@.len() implies (
                    #[trigger] self.ports@[a]).name@ != (#[trigger] self.ports@[b]).name@ by {
                        assert(before[a].name@ != before[b].name@);
                    }
                }
            },
            None => {
                let port = NestedPort { name, entry };
                self.ports.push(port);
                assert(self.ports@.drop_last() =~= before);
            },
        }
    }

    /// What is known of a port.
    pub fn get(&self, name: &str) -> (r: Option<SmmuNestingEntry>)
        requires
            self.wf(),
        ensures
            r == (if self@.contains_key(name@) {
                Some(self@[name@])
            } else {
                None
            }),
    {
        match self.find(name) {
            Some(i) => {
                proof {
                    lemma_entry_at(self.ports@, i as int);
                }
                Some(self.ports[i].entry)
            },
            None => {
                proof {
                    lemma_no_entry(self.ports@, name@);
                }
                None
            },
        }
    }

    /// Starts to resolve a device: what is known of its port, if it is to be
    /// nested. The caller then has the device prepared for that.
    pub fn begin_resolve(&self, software_iommu: bool, port_name: &str) -> (r: Result<
        Option<SmmuNestingEntry>,
        ResolveError,
    >)
        requires
            self.wf(),
        ensures
            r == (if software_iommu {
                Err::<Option<SmmuNestingEntry>, ResolveError>(ResolveError::SoftwareIommu)
            } else if self@.contains_key(port_name@) {
                Ok::<Option<SmmuNestingEntry>, ResolveError>(Some(self@[port_name@]))
            } else {
                Ok::<Option<SmmuNestingEntry>, ResolveError>(None)
            }),
    {
        if software_iommu {
            return Err(ResolveError::SoftwareIommu);
        }
        Ok(self.get(port_name))
    }
}

/// Wires a device that was prepared for nesting into the SMMU of its port:
/// the host SMMU is settled, and the backend of the device is registered.
pub fn nest_device(
    shared: &mut SmmuSharedState,
    entry: SmmuNestingEntry,
    host_caps: HostSmmuCaps,
    backend: usize,
) -> (r: Result<RegisterStep, ResolveError>)
    requires
        entry.device(backend).in_range(),
        device_sid(entry.device(backend)) matches Some(sid) ==> old(shared).entry_ok(sid),
    ensures
        old(shared).same_but_host(*final(shared)),
        match old(shared).host_fault(host_caps) {
            Some(error) => {
                &&& r == Err::<RegisterStep, ResolveError>(ResolveError::IncompatibleHost(error))
                &&& old(shared).same_host(*final(shared))
                &&& final(shared).accel_devices@ == old(shared).accel_devices@
            },
            None => {
                &&& r == Ok::<RegisterStep, ResolveError>(
                    old(shared).register_step(entry.device(backend)),
                )
                &&& old(shared).host_settled(host_caps, *final(shared))
                &&& final(shared).accel_devices@ == old(shared).accel_devices@.push(
                    entry.device(backend),
                )
            },
        },
{
    match shared.resolve_host_caps(host_caps) {
        Ok(()) => {},
        Err(error) => {
            return Err(ResolveError::IncompatibleHost(error));
        },
    }
    let device = AccelDevice {
        bus_range: entry.bus_range,
        stream_id_base: entry.stream_id_base,
        backend,
    };
    Ok(shared.register_accel_device(device))
}

/// Starts to resolve a device that is opened by its group, which cannot be
/// nested.
pub fn begin_group_resolve(software_iommu: bool) -> (r: Result<(), ResolveError>)
    ensures
        r == (if software_iommu {
            Err::<(), ResolveError>(ResolveError::SoftwareIommu)
        } else {
            Ok::<(), ResolveError>(())
        }),
{
    if software_iommu {
        Err(ResolveError::SoftwareIommu)
    } else {
        Ok(())
    }
}

/// Ends the resolution of a device: its memory has to be mapped.
pub fn finish_resolve(has_memory_mapper: bool) -> (r: Result<(), ResolveError>)
    ensures
        r == (if has_memory_mapper {
            Ok::<(), ResolveError>(())
        } else {
            Err::<(), ResolveError>(ResolveError::NoMemoryMapper)
        }),
{
    if has_memory_mapper {
        Ok(())
    } else {
        Err(ResolveError::NoMemoryMapper)
    }
}

/// A port that is registered is found by its name, with what was registered
/// last, and no other port changes.
pub proof fn law_registered_port_is_found(
    store: &mut SmmuNestingStore,
    name: String,
    entry: SmmuNestingEntry,
    other: Seq<char>,
)
    requires
        old(store).wf(),
        call_ensures(SmmuNestingStore::register, (store, name, entry), ()),
    ensures
        final(store)@.contains_key(name@),
        final(store)@[name@] == entry,
        other != name@ ==> {
            &&& final(store)@.contains_key(other) <==> old(store)@.contains_key(other)
            &&& old(store)@.contains_key(other) ==> final(store)@[other] == old(store)@[other]
        },
{
}

/// A device behind an IOMMU in software is refused, however it is opened. One
/// behind a registered port is to be nested as the port says, and another is
/// not nested. In the end its memory has to be mapped.
pub proof fn law_device_is_nested_as_its_port_says(
    store: SmmuNestingStore,
    software_iommu: bool,
    port_name: &str,
    has_memory_mapper: bool,
    begun: Result<Option<SmmuNestingEntry>, ResolveError>,
    group: Result<(), ResolveError>,
    finished: Result<(), ResolveError>,
)
    requires
        store.wf(),
        call_ensures(
            SmmuNestingStore::begin_resolve,
            (&store, software_iommu, port_name),
            begun,
        ),
        call_ensures(begin_group_resolve, (software_iommu,), group),
        call_ensures(finish_resolve, (has_memory_mapper,), finished),
    ensures
        begun is Err <==> software_iommu,
        group is Err <==> software_iommu,
        begun matches Err(e) ==> e == ResolveError::SoftwareIommu,
        group matches Err(e) ==> e == ResolveError::SoftwareIommu,
        begun matches Ok(Some(entry)) ==> store@.contains_key(port_name@) && store@[port_name@]
            == entry,
        begun matches Ok(None) ==> !store@.contains_key(port_name@),
        finished is Ok <==> has_memory_mapper,
        finished matches Err(e) ==> e == ResolveError::NoMemoryMapper,
{
}

/// A device that is nested is added to the devices of its SMMU, behind the
/// port that it is behind; one whose host cannot back the SMMU changes
/// nothing.
pub proof fn law_nested_device_is_registered(
    shared: &mut SmmuSharedState,
    entry: SmmuNestingEntry,
    host_caps: HostSmmuCaps,
    backend: usize,
    r: Result<RegisterStep, ResolveError>,
)
    requires
        call_ensures(nest_device, (shared, entry, host_caps, backend), r),
    ensures
        r is Ok <==> old(shared).host_fault(host_caps) is None,
        r is Ok ==> {
            let devices = final(shared).accel_devices@;
            let new = devices[devices.len() - 1];
            &&& devices.len() == old(shared).accel_devices@.len() + 1
            &&& devices.drop_last() == old(shared).accel_devices@
            &&& new.bus_range == entry.bus_range
            &&& new.stream_id_base == entry.stream_id_base
            &&& new.backend == backend
            &&& final(shared).resolved_host_caps == Some(host_caps)
        },
        r matches Err(e) ==> {
            &&& old(shared).host_fault(host_caps) matches Some(fault) && e
                == ResolveError::IncompatibleHost(fault)
            &&& final(shared).accel_devices@ == old(shared).accel_devices@
            &&& final(shared).resolved_host_caps == old(shared).resolved_host_caps
        },
{
    if r is Ok {
        assert(final(shared).accel_devices@.drop_last() =~= old(shared).accel_devices@);
    }
}

} // verus!
