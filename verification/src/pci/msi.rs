//! Message signaled interrupts (MSIs) and their requesters.

use vstd::prelude::*;

use super::bus_range::AssignedBusRange;

verus! {

/// An interrupt message for a backend.
#[derive(Debug, Clone, Copy, PartialEq, Eq, Structural)]
pub struct MsiMessage {
    /// The requester, if it is known.
    pub devid: Option<u32>,
    /// The address.
    pub address: u64,
    /// The data.
    pub data: u32,
}

/// Where the requester of a device comes from: an offset to function zero on
/// the first bus of its port.
#[derive(Debug, Clone, Copy, PartialEq, Eq, Structural)]
pub struct DefaultRid {
    /// The buses of the port.
    pub bus_range: AssignedBusRange,
    /// The offset. It reaches higher buses if it is 256 or more.
    pub rid_offset: u16,
}

/// The requester of a device, or nothing if its bus is beyond the last bus of
/// the port.
pub open spec fn default_rid(default: DefaultRid) -> Option<u32> {
    let rid = default.bus_range.secondary * 256 + default.rid_offset;
    if rid / 256 > default.bus_range.subordinate {
        None
    } else {
        Some(rid as u32)
    }
}

/// The requester of a device.
pub fn resolve_default_rid(default: &DefaultRid) -> (r: Option<u32>)
    ensures
        r == default_rid(*default),
{
    let (secondary, subordinate) = default.bus_range.bus_range();
    let rid: u32 = secondary as u32 * 256 + default.rid_offset as u32;
    if rid / 256 > subordinate as u32 {
        return None;
    }
    Some(rid)
}

/// A source of interrupt messages with an identity.
#[derive(Debug, Clone, Copy, PartialEq, Eq, Structural)]
pub struct MsiTarget {
    /// The identity.
    pub default_rid: DefaultRid,
}

/// The slot for the backend of interrupt messages. It has no identity of its
/// own.
#[derive(Debug, Clone, Copy, PartialEq, Eq, Structural)]
pub struct MsiConnection {
    /// Whether a backend is connected. Messages are dropped before.
    pub connected: bool,
    /// Whether routes through the kernel are enabled.
    pub routes_enabled: bool,
}

impl MsiConnection {
    /// A connection without a backend.
    pub fn new() -> (r: MsiConnection)
        ensures
            !r.connected,
            !r.routes_enabled,
    {
        MsiConnection { connected: false, routes_enabled: false }
    }

    /// Connects a backend.
    pub fn connect(&mut self)
        ensures
            *final(self) == (MsiConnection { connected: true, ..*old(self) }),
    {
        self.connected = true;
    }

    /// What becomes of a message: it is handed to the backend, or dropped if
    /// there is none.
    pub fn deliver(&self, message: MsiMessage) -> (r: Option<MsiMessage>)
        ensures
            r == (if self.connected {
                Some(message)
            } else {
                None
            }),
    {
        if self.connected {
            Some(message)
        } else {
            None
        }
    }

    /// Enables routes through the kernel.
    pub fn enable_msi_routes(&mut self)
        ensures
            *final(self) == (MsiConnection { routes_enabled: true, ..*old(self) }),
    {
        self.routes_enabled = true;
    }

    /// A target with the given identity.
    pub fn msi_target(&self, bus_range: AssignedBusRange, devfn: u8) -> (r: MsiTarget)
        ensures
            r.default_rid == (DefaultRid { bus_range, rid_offset: devfn as u16 }),
    {
        MsiTarget { default_rid: DefaultRid { bus_range, rid_offset: devfn as u16 } }
    }

    /// A target without an identity.
    pub fn target(&self) -> (r: MsiTarget)
        ensures
            r.default_rid == (DefaultRid {
                bus_range: AssignedBusRange { secondary: 0, subordinate: 0 },
                rid_offset: 0,
            }),
    {
        self.msi_target(AssignedBusRange::new(), 0)
    }
}

impl Default for MsiConnection {
    fn default() -> (r: MsiConnection)
        ensures
            !r.connected,
            !r.routes_enabled,
    {
        MsiConnection::new()
    }
}

impl MsiTarget {
    /// A target without an identity, for where no message is to be sent.
    pub fn disconnected() -> (r: MsiTarget)
        ensures
            r.default_rid == (DefaultRid {
                bus_range: AssignedBusRange { secondary: 0, subordinate: 0 },
                rid_offset: 0,
            }),
    {
        MsiTarget { default_rid: DefaultRid { bus_range: AssignedBusRange::new(), rid_offset: 0 } }
    }

    /// The target of another function on the first bus.
    pub fn with_devfn(&self, devfn: u8) -> (r: MsiTarget)
        ensures
            r.default_rid == (DefaultRid { rid_offset: devfn as u16, ..self.default_rid }),
    {
        self.with_rid_offset(devfn as u16)
    }

    /// The target of a function on other buses.
    pub fn with_bus_range(&self, bus_range: AssignedBusRange, devfn: u8) -> (r: MsiTarget)
        ensures
            r.default_rid == (DefaultRid { bus_range, rid_offset: devfn as u16 }),
    {
        MsiTarget { default_rid: DefaultRid { bus_range, rid_offset: devfn as u16 } }
    }

    /// The target of the requester `rid`. The offset is taken from the first
    /// bus as it is now.
    pub fn with_rid(&self, rid: u16) -> (r: MsiTarget)
        ensures
            r.default_rid == (DefaultRid {
                rid_offset: ((rid - self.default_rid.bus_range.secondary * 256) % 0x1_0000) as u16,
                ..self.default_rid
            }),
    {
        let (secondary, _subordinate) = self.default_rid.bus_range.bus_range();
        self.with_rid_offset(rid.wrapping_sub(secondary as u16 * 256))
    }

    /// The target at an offset. It follows the buses as they are assigned.
    pub fn with_rid_offset(&self, rid_offset: u16) -> (r: MsiTarget)
        ensures
            r.default_rid == (DefaultRid { rid_offset, ..self.default_rid }),
    {
        MsiTarget { default_rid: DefaultRid { bus_range: self.default_rid.bus_range, rid_offset } }
    }

    /// Sends a message under the identity of the target. It is dropped if the
    /// bus of the identity is not one of the port.
    pub fn signal_msi(&self, address: u64, data: u32) -> (r: Option<MsiMessage>)
        ensures
            r == (match default_rid(self.default_rid) {
                Some(rid) => Some(MsiMessage { devid: Some(rid), address, data }),
                None => None,
            }),
    {
        match resolve_default_rid(&self.default_rid) {
            Some(rid) => Some(MsiMessage { devid: Some(rid), address, data }),
            None => None,
        }
    }

    /// Sends a message under the identity `rid`. It is dropped if the bus of
    /// `rid` is not one of the port.
    pub fn signal_msi_with_rid(&self, rid: u16, address: u64, data: u32) -> (r: Option<MsiMessage>)
        ensures
            r == (if self.default_rid.bus_range.holds_bus(rid as int / 256) {
                Some(MsiMessage { devid: Some(rid as u32), address, data })
            } else {
                None
            }),
    {
        let bus: u8 = (rid / 256) as u8;
        if !self.default_rid.bus_range.contains_bus(bus) {
            return None;
        }
        Some(MsiMessage { devid: Some(rid as u32), address, data })
    }

    /// A route of the target, if routes are enabled on its connection.
    pub fn new_route(&self, connection: &MsiConnection) -> (r: Option<MsiRoute>)
        ensures
            r == (if connection.routes_enabled {
                Some(MsiRoute { default_rid: self.default_rid, consumer: RouteConsumer::Nobody })
            } else {
                None
            }),
    {
        if !connection.routes_enabled {
            return None;
        }
        Some(MsiRoute { default_rid: self.default_rid, consumer: RouteConsumer::Nobody })
    }

    /// Whether the target can have routes, by its connection.
    pub fn supports_direct_msi(&self, connection: &MsiConnection) -> (r: bool)
        ensures
            r == connection.routes_enabled,
    {
        connection.routes_enabled
    }
}

/// A target that was derived for a requester on a bus of the port sends under
/// that requester; one for a bus below or above the port sends nothing.
pub proof fn law_derived_target_keeps_its_rid(range: AssignedBusRange, rid: u16)
    ensures
        ({
            let offset = ((rid - range.secondary * 256) % 0x1_0000) as u16;
            let resolved = default_rid(DefaultRid { bus_range: range, rid_offset: offset });
            &&& range.holds_bus(rid as int / 256) ==> resolved == Some(rid as u32)
            &&& !range.holds_bus(rid as int / 256) ==> resolved is None
        }),
{
}

/// A target at an offset follows the buses: wherever the port is moved, it
/// sends under the requester at that offset from the first bus, as long as
/// that is on a bus of the port.
pub proof fn law_offset_target_follows_the_buses(range: AssignedBusRange, rid_offset: u16)
    ensures
        ({
            let rid = range.secondary * 256 + rid_offset;
            let resolved = default_rid(DefaultRid { bus_range: range, rid_offset });
            &&& range.holds_bus(rid / 256) ==> resolved == Some(rid as u32)
            &&& !range.holds_bus(rid / 256) ==> resolved is None
        }),
{
}

/// Who reads the event of a route.
#[derive(Debug, Clone, Copy, PartialEq, Eq, Structural)]
pub enum RouteConsumer {
    /// Nobody: what arrives stays pending.
    Nobody,
    /// The kernel.
    Kernel,
    /// A task that sends the messages itself.
    Usermode,
}

/// A route of one interrupt vector. Its event has at most one reader.
#[derive(Debug, Clone, Copy, PartialEq, Eq, Structural)]
pub struct MsiRoute {
    /// The identity.
    pub default_rid: DefaultRid,
    /// Who reads the event.
    pub consumer: RouteConsumer,
}

/// What the caller does with a route.
#[derive(Debug, Clone, Copy, PartialEq, Eq, Structural)]
pub enum RouteStep {
    /// Stop whoever reads the event.
    Disable,
    /// Ask the kernel to keep its binding for this requester.
    TryUpdate(u32),
    /// Stop whoever reads the event, and bind it in the kernel for this
    /// requester.
    Bind(u32),
    /// Start a task that reads the event and sends under this requester.
    StartUsermode(u32),
    /// Nothing.
    Done,
    /// Nothing: there is nobody to read the event, and messages are dropped.
    Dropped,
}

impl MsiRoute {
    /// How a route is programmed for a requester: a binding in the kernel is
    /// kept if it can be.
    pub open spec fn program_step(self, rid: u32) -> RouteStep {
        if self.consumer == RouteConsumer::Kernel {
            RouteStep::TryUpdate(rid)
        } else {
            RouteStep::Bind(rid)
        }
    }

    fn program(&mut self, rid: u32) -> (r: RouteStep)
        ensures
            r == old(self).program_step(rid),
            final(self).default_rid == old(self).default_rid,
            final(self).consumer == (if old(self).consumer == RouteConsumer::Kernel {
                RouteConsumer::Kernel
            } else {
                RouteConsumer::Nobody
            }),
    {
        if self.consumer == RouteConsumer::Kernel {
            RouteStep::TryUpdate(rid)
        } else {
            self.consumer = RouteConsumer::Nobody;
            RouteStep::Bind(rid)
        }
    }

    /// Programs the route under its own identity, or disables it if the bus
    /// of that is not one of the port.
    pub fn enable(&mut self) -> (r: RouteStep)
        ensures
            final(self).default_rid == old(self).default_rid,
            match default_rid(old(self).default_rid) {
                Some(rid) => {
                    &&& r == old(self).program_step(rid)
                    &&& final(self).consumer == (if old(self).consumer == RouteConsumer::Kernel {
                        RouteConsumer::Kernel
                    } else {
                        RouteConsumer::Nobody
                    })
                },
                None => r == RouteStep::Disable && final(self).consumer == RouteConsumer::Nobody,
            },
    {
        match resolve_default_rid(&self.default_rid) {
            Some(rid) => self.program(rid),
            None => {
                self.consumer = RouteConsumer::Nobody;
                RouteStep::Disable
            },
        }
    }

    /// Programs the route under the identity `rid`, or disables it if the bus
    /// of that is not one of the port.
    pub fn enable_with_rid(&mut self, rid: u16) -> (r: RouteStep)
        ensures
            final(self).default_rid == old(self).default_rid,
            if old(self).default_rid.bus_range.holds_bus(rid as int / 256) {
                &&& r == old(self).program_step(rid as u32)
                &&& final(self).consumer == (if old(self).consumer == RouteConsumer::Kernel {
                    RouteConsumer::Kernel
                } else {
                    RouteConsumer::Nobody
                })
            } else {
                r == RouteStep::Disable && final(self).consumer == RouteConsumer::Nobody
            },
    {
        let bus: u8 = (rid / 256) as u8;
        if !self.default_rid.bus_range.contains_bus(bus) {
            self.consumer = RouteConsumer::Nobody;
            return RouteStep::Disable;
        }
        self.program(rid as u32)
    }

    /// Takes the answer of the kernel to an update. If it did not keep the
    /// binding, the event is bound anew.
    pub fn updated(&mut self, kept: bool, rid: u32) -> (r: RouteStep)
        requires
            old(self).consumer == RouteConsumer::Kernel,
        ensures
            final(self).default_rid == old(self).default_rid,
            if kept {
                r == RouteStep::Done && final(self).consumer == RouteConsumer::Kernel
            } else {
                r == RouteStep::Bind(rid) && final(self).consumer == RouteConsumer::Nobody
            },
    {
        if kept {
            return RouteStep::Done;
        }
        self.consumer = RouteConsumer::Nobody;
        RouteStep::Bind(rid)
    }

    /// Takes the answer of the kernel to a binding. If it cannot serve the
    /// address, a task does, where there is a driver to run one.
    pub fn bound(&mut self, bound: bool, has_driver: bool, rid: u32) -> (r: RouteStep)
        requires
            old(self).consumer == RouteConsumer::Nobody,
        ensures
            final(self).default_rid == old(self).default_rid,
            if bound {
                r == RouteStep::Done && final(self).consumer == RouteConsumer::Kernel
            } else {
                &&& final(self).consumer == RouteConsumer::Nobody
                &&& r == (if has_driver {
                    RouteStep::StartUsermode(rid)
                } else {
                    RouteStep::Dropped
                })
            },
    {
        if bound {
            self.consumer = RouteConsumer::Kernel;
            return RouteStep::Done;
        }
        if has_driver {
            RouteStep::StartUsermode(rid)
        } else {
            RouteStep::Dropped
        }
    }

    /// Notes whether the task was started.
    pub fn usermode_started(&mut self, started: bool)
        requires
            old(self).consumer == RouteConsumer::Nobody,
        ensures
            final(self).default_rid == old(self).default_rid,
            final(self).consumer == (if started {
                RouteConsumer::Usermode
            } else {
                RouteConsumer::Nobody
            }),
    {
        if started {
            self.consumer = RouteConsumer::Usermode;
        }
    }

    /// Disables the route.
    pub fn disable(&mut self) -> (r: RouteStep)
        ensures
            *final(self) == (MsiRoute { consumer: RouteConsumer::Nobody, ..*old(self) }),
            r == RouteStep::Disable,
    {
        self.consumer = RouteConsumer::Nobody;
        RouteStep::Disable
    }
}

/// A message names a requester on one of the buses of its port, and no other
/// message is sent. With the requester given or found from the target, the
/// same message goes out.
pub proof fn law_message_comes_from_the_port(
    target: MsiTarget,
    rid: u16,
    address: u64,
    data: u32,
    default: Option<MsiMessage>,
    given: Option<MsiMessage>,
)
    requires
        call_ensures(MsiTarget::signal_msi, (&target, address, data), default),
        call_ensures(MsiTarget::signal_msi_with_rid, (&target, rid, address, data), given),
    ensures
        ({
            let range = target.default_rid.bus_range;
            let own = range.secondary * 256 + target.default_rid.rid_offset;
            &&& default is Some <==> own <= range.subordinate * 256 + 255
            &&& default matches Some(m) ==> {
                &&& m.devid == Some(own as u32)
                &&& m.address == address
                &&& m.data == data
            }
            &&& given is Some <==> range.secondary * 256 <= rid <= range.subordinate * 256 + 255
            &&& given matches Some(m) ==> {
                &&& m.devid == Some(rid as u32)
                &&& m.address == address
                &&& m.data == data
            }
            &&& own == rid ==> default == given
        }),
{
}

/// A route that the kernel has is updated in place, with the requester it is
/// for; another is bound anew.
pub proof fn law_route_is_programmed_for_its_requester(route: MsiRoute, rid: u32)
    ensures
        route.consumer is Kernel ==> route.program_step(rid) == RouteStep::TryUpdate(rid),
        !(route.consumer is Kernel) ==> route.program_step(rid) == RouteStep::Bind(rid),
{
}

/// Messages reach whoever is connected as they are, and nobody before that.
/// Routes are given out, for the requester of the target and used by nobody,
/// once they are enabled.
pub proof fn law_connection_delivers_what_is_sent(
    connection: MsiConnection,
    target: MsiTarget,
    message: MsiMessage,
    delivered: Option<MsiMessage>,
    route: Option<MsiRoute>,
    direct: bool,
)
    requires
        call_ensures(MsiConnection::deliver, (&connection, message), delivered),
        call_ensures(MsiTarget::new_route, (&target, &connection), route),
        call_ensures(MsiTarget::supports_direct_msi, (&target, &connection), direct),
    ensures
        delivered is Some <==> connection.connected,
        delivered matches Some(m) ==> m == message,
        direct <==> route is Some,
        route is Some <==> connection.routes_enabled,
        route matches Some(r) ==> r.default_rid == target.default_rid && r.consumer is Nobody,
{
}

/// A target that is derived for a requester sends for it while its bus is one
/// of those of the port, as the function of a device does for any bus that the
/// port is given.
pub proof fn law_derived_targets_send_for_their_requester(
    target: MsiTarget,
    rid: u16,
    devfn: u8,
    for_rid: MsiTarget,
    for_function: MsiTarget,
)
    requires
        call_ensures(MsiTarget::with_rid, (&target, rid), for_rid),
        call_ensures(MsiTarget::with_devfn, (&target, devfn), for_function),
    ensures
        ({
            let range = target.default_rid.bus_range;
            &&& for_rid.default_rid.bus_range == range
            &&& for_function.default_rid.bus_range == range
            &&& range.secondary <= rid as int / 256 <= range.subordinate ==> default_rid(
                for_rid.default_rid,
            ) == Some(rid as u32)
            &&& range.secondary <= range.subordinate ==> default_rid(for_function.default_rid)
                == Some((range.secondary * 256 + devfn) as u32)
        }),
{
    law_derived_target_keeps_its_rid(target.default_rid.bus_range, rid);
}

/// A route that is enabled is programmed for the requester of its target, and
/// disabled if that has none. What the kernel has, it keeps until it is told.
pub proof fn law_enabled_route_is_programmed(route: &mut MsiRoute, r: RouteStep)
    requires
        call_ensures(MsiRoute::enable, (route,), r),
    ensures
        final(route).default_rid == old(route).default_rid,
        ({
            let range = old(route).default_rid.bus_range;
            let rid = range.secondary * 256 + old(route).default_rid.rid_offset;
            if rid <= range.subordinate * 256 + 255 {
                if old(route).consumer is Kernel {
                    r == RouteStep::TryUpdate(rid as u32) && final(route).consumer is Kernel
                } else {
                    r == RouteStep::Bind(rid as u32) && final(route).consumer is Nobody
                }
            } else {
                r == RouteStep::Disable && final(route).consumer is Nobody
            }
        }),
{
}

/// A route that is enabled for a requester is programmed for it if its bus is
/// one of those of the port, and disabled otherwise.
pub proof fn law_route_is_programmed_within_the_port(route: &mut MsiRoute, rid: u16, r: RouteStep)
    requires
        call_ensures(MsiRoute::enable_with_rid, (route, rid), r),
    ensures
        final(route).default_rid == old(route).default_rid,
        ({
            let range = old(route).default_rid.bus_range;
            if range.secondary * 256 <= rid <= range.subordinate * 256 + 255 {
                if old(route).consumer is Kernel {
                    r == RouteStep::TryUpdate(rid as u32) && final(route).consumer is Kernel
                } else {
                    r == RouteStep::Bind(rid as u32) && final(route).consumer is Nobody
                }
            } else {
                r == RouteStep::Disable && final(route).consumer is Nobody
            }
        }),
{
}

/// A route that the kernel keeps is done, and one that it does not keep is
/// bound anew for the same requester.
pub proof fn law_lost_route_is_bound_anew(route: &mut MsiRoute, kept: bool, rid: u32, r: RouteStep)
    requires
        call_ensures(MsiRoute::updated, (route, kept, rid), r),
    ensures
        final(route).default_rid == old(route).default_rid,
        kept ==> r == RouteStep::Done && final(route).consumer is Kernel,
        !kept ==> r == RouteStep::Bind(rid) && final(route).consumer is Nobody,
{
}

/// A route that the kernel cannot have is delivered by the process, for the
/// same requester, if there is a driver to do it; otherwise its interrupts are
/// lost.
pub proof fn law_unbound_route_is_delivered_here(
    route: &mut MsiRoute,
    bound: bool,
    has_driver: bool,
    rid: u32,
    r: RouteStep,
)
    requires
        call_ensures(MsiRoute::bound, (route, bound, has_driver, rid), r),
    ensures
        final(route).default_rid == old(route).default_rid,
        bound ==> r == RouteStep::Done && final(route).consumer is Kernel,
        !bound ==> final(route).consumer is Nobody,
        !bound && has_driver ==> r == RouteStep::StartUsermode(rid),
        !bound && !has_driver ==> r == RouteStep::Dropped,
{
}

/// A disabled route is used by nobody, and keeps its requester.
pub proof fn law_disabled_route_is_used_by_nobody(route: &mut MsiRoute, r: RouteStep)
    requires
        call_ensures(MsiRoute::disable, (route,), r),
    ensures
        r == RouteStep::Disable,
        final(route).consumer is Nobody,
        final(route).default_rid == old(route).default_rid,
{
}

} // verus!
