//! The doorbell of a GICv3 interrupt translation service (ITS).

use vstd::prelude::*;

use crate::pci::msi::MsiMessage;

verus! {

/// Size of the register frame of an ITS.
pub const GIC_ITS_SIZE: u64 = 0x2_0000;

/// Length of the doorbell register.
pub const GITS_TRANSLATER_LEN: u64 = 4;

/// The doorbell of an ITS. A device names itself by a global identifier, with
/// its segment in the upper half. It may deliver only to the ITS of its own
/// segment, where it is known by the lower half.
#[derive(Debug, Clone, Copy, PartialEq, Eq, Structural)]
pub struct GicItsSink {
    /// The segment of the ITS.
    pub segment: u16,
    /// Whether the backend has kernel routes.
    pub has_irqfd: bool,
    /// Address of the doorbell.
    pub translater_addr: u64,
}

/// The local identifier of a device, or its segment if that is another one.
pub open spec fn local_devid(segment: u16, devid: Option<u32>) -> Result<Option<u32>, u16> {
    match devid {
        None => Ok(None),
        Some(sbdf) => if sbdf / 0x1_0000 == segment {
            Ok(Some((sbdf % 0x1_0000) as u32))
        } else {
            Err((sbdf / 0x1_0000) as u16)
        },
    }
}

impl GicItsSink {
    /// The local identifier of a device, or its segment if that is another
    /// one. A message without an identifier passes.
    pub fn translate_devid(&self, devid: Option<u32>) -> (r: Result<Option<u32>, u16>)
        ensures
            r == local_devid(self.segment, devid),
    {
        let sbdf: u32 = match devid {
            None => {
                return Ok(None);
            },
            Some(sbdf) => sbdf,
        };
        let source_segment: u16 = (sbdf / 0x1_0000) as u16;
        if source_segment != self.segment {
            return Err(source_segment);
        }
        Ok(Some(sbdf % 0x1_0000))
    }

    /// The message to deliver, or nothing if the device is of another
    /// segment.
    pub fn signal_msi(&self, devid: Option<u32>, address: u64, data: u32) -> (r: Option<MsiMessage>)
        ensures
            r == (match local_devid(self.segment, devid) {
                Ok(local) => Some(MsiMessage { devid: local, address, data }),
                Err(_) => None,
            }),
    {
        match self.translate_devid(devid) {
            Ok(local) => Some(MsiMessage { devid: local, address, data }),
            Err(_) => None,
        }
    }

    /// The message for which to set up a kernel route, or nothing if the
    /// kernel cannot serve it: the address is not that of the doorbell, the
    /// device is of another segment, or there are no kernel routes.
    pub fn bind_msi(&self, devid: Option<u32>, address: u64, data: u32) -> (r: Option<MsiMessage>)
        ensures
            r == (match local_devid(self.segment, devid) {
                Ok(local) => if address == self.translater_addr && self.has_irqfd {
                    Some(MsiMessage { devid: local, address, data })
                } else {
                    None
                },
                Err(_) => None,
            }),
    {
        if address != self.translater_addr {
            return None;
        }
        match self.translate_devid(devid) {
            Ok(local) => if self.has_irqfd {
                Some(MsiMessage { devid: local, address, data })
            } else {
                None
            },
            Err(_) => None,
        }
    }
}

/// Offset of the doorbell in the frame of an ITS.
pub fn translater_offset(translater_addr: u64, base: u64) -> (r: u64)
    requires
        base <= translater_addr,
    ensures
        r == translater_addr - base,
{
    translater_addr - base
}

/// What a trapped read of the frame gives: all ones.
pub fn mmio_read(len: usize) -> (r: Vec<u8>)
    ensures
        r@ == Seq::new(len as nat, |i: int| 0xffu8),
{
    let mut data: Vec<u8> = Vec::new();
    let mut i: usize = 0;
    while i < len
        invariant
            i <= len,
            data@ == Seq::new(i as nat, |k: int| 0xffu8),
        decreases len - i,
    {
        data.push(0xff);
        i += 1;
    }
    data
}

/// A device delivers only to the ITS of its segment: what is delivered is
/// told apart from what any device of another segment would deliver.
pub proof fn law_foreign_segments_are_dropped(segment: u16, sbdf: u32)
    ensures
        local_devid(segment, Some(sbdf)) is Ok <==> sbdf / 0x1_0000 == segment,
        local_devid(segment, Some(sbdf)) matches Ok(Some(local)) ==> segment * 0x1_0000 + local
            == sbdf,
{
}

/// An interrupt of the own segment is passed on for the requester within the
/// segment, and one that names no requester as it is. It is bound exactly if
/// it is passed on, goes to the translation register and can be bound at all,
/// and what is bound is what is passed on.
pub proof fn law_bound_interrupts_are_those_signaled(
    sink: GicItsSink,
    devid: Option<u32>,
    address: u64,
    data: u32,
    signaled: Option<MsiMessage>,
    bound: Option<MsiMessage>,
)
    requires
        call_ensures(GicItsSink::signal_msi, (&sink, devid, address, data), signaled),
        call_ensures(GicItsSink::bind_msi, (&sink, devid, address, data), bound),
    ensures
        signaled is Some <==> (devid matches Some(sbdf) ==> sbdf / 0x1_0000 == sink.segment),
        signaled matches Some(m) ==> {
            &&& m.address == address
            &&& m.data == data
            &&& match devid {
                Some(sbdf) => m.devid == Some((sbdf - sink.segment * 0x1_0000) as u32),
                None => m.devid is None,
            }
        },
        bound is Some <==> signaled is Some && address == sink.translater_addr && sink.has_irqfd,
        bound is Some ==> bound == signaled,
{
}

} // verus!
