//! The message frame of a GICv2m: a write to its doorbell asserts a shared
//! peripheral interrupt (SPI).

use vstd::prelude::*;

use crate::bytes::{get_u32, le32, push_u32};

verus! {

/// Size of the frame.
pub const FRAME_SIZE: u64 = 0x1000;

/// Length of the doorbell register.
pub const SETSPI_LEN: u64 = 4;

/// Offset of the type register.
pub const TYPER_OFFSET: u16 = 0x008;

/// Offset of the doorbell register.
pub const SETSPI_NS_OFFSET: u16 = 0x040;

/// Why an access to the frame fails.
#[derive(Debug, Clone, Copy, PartialEq, Eq, Structural)]
pub enum FrameError {
    /// The access is not one of four bytes.
    InvalidAccessSize,
}

/// A message frame.
#[derive(Debug, Clone, Copy, PartialEq, Eq, Structural)]
pub struct GicV2mDevice {
    /// Base address of the frame.
    pub frame_base: u64,
    /// Address of the doorbell.
    pub setspi_addr: u64,
    /// First SPI of the frame.
    pub spi_base: u32,
    /// Number of SPIs of the frame.
    pub spi_count: u32,
}

impl GicV2mDevice {
    /// The doorbell and the SPIs are within range.
    pub open spec fn wf(self) -> bool {
        &&& self.setspi_addr == self.frame_base + SETSPI_NS_OFFSET
        &&& self.spi_base + self.spi_count <= u32::MAX
    }

    /// Whether an SPI belongs to the frame.
    pub open spec fn owns_spi(self, spi: u32) -> bool {
        self.spi_base <= spi < self.spi_base + self.spi_count
    }

    /// The type register: the first SPI in bits 16 to 25, the number of SPIs
    /// in bits 0 to 9.
    pub open spec fn typer(self) -> int {
        self.spi_base % 1024 * 0x1_0000 + self.spi_count % 1024
    }

    /// The offset in the frame of an address.
    pub open spec fn offset_of(self, addr: u64) -> int {
        (addr - self.frame_base) % 0x1_0000
    }

    /// The SPI that a write of a value to an address of the frame asserts.
    pub open spec fn written(self, addr: u64, value: u32) -> Option<u32> {
        if self.offset_of(addr) == SETSPI_NS_OFFSET && self.owns_spi(value) {
            Some(value)
        } else {
            None
        }
    }

    /// The SPI that a message asserts.
    pub open spec fn signaled(self, address: u64, data: u32) -> Option<u32> {
        if address == self.setspi_addr && self.owns_spi(data) {
            Some(data)
        } else {
            None
        }
    }

    /// A frame.
    pub fn new(frame_base: u64, spi_base: u32, spi_count: u32) -> (r: GicV2mDevice)
        requires
            frame_base + SETSPI_NS_OFFSET <= u64::MAX,
            spi_base + spi_count <= u32::MAX,
        ensures
            r.wf(),
            r.frame_base == frame_base,
            r.spi_base == spi_base,
            r.spi_count == spi_count,
    {
        GicV2mDevice {
            frame_base,
            setspi_addr: frame_base + SETSPI_NS_OFFSET as u64,
            spi_base,
            spi_count,
        }
    }

    /// The SPI to assert, if it belongs to the frame.
    pub fn deliver_spi(&self, spi: u32) -> (r: Option<u32>)
        requires
            self.wf(),
        ensures
            r == (if self.owns_spi(spi) {
                Some(spi)
            } else {
                None
            }),
    {
        if spi < self.spi_base || spi >= self.spi_base + self.spi_count {
            return None;
        }
        Some(spi)
    }

    /// Reads a register of the frame.
    pub fn mmio_read(&self, addr: u64, len: usize) -> (r: Result<Vec<u8>, FrameError>)
        requires
            self.frame_base <= addr,
        ensures
            if len != 4 {
                r == Err::<Vec<u8>, FrameError>(FrameError::InvalidAccessSize)
            } else {
                r matches Ok(data) && data@.len() == 4 && le32(data@, 0) == (if self.offset_of(addr)
                    == TYPER_OFFSET {
                    self.typer()
                } else {
                    0
                })
            },
    {
        if len != 4 {
            return Err(FrameError::InvalidAccessSize);
        }
        let offset: u16 = ((addr - self.frame_base) % 0x1_0000) as u16;
        let value: u32 = if offset == TYPER_OFFSET {
            self.spi_base % 1024 * 0x1_0000 + self.spi_count % 1024
        } else {
            0
        };
        let mut data: Vec<u8> = Vec::new();
        push_u32(&mut data, value);
        Ok(data)
    }

    /// Writes a register of the frame. Returns the SPI to assert, if any.
    pub fn mmio_write(&self, addr: u64, data: &[u8]) -> (r: Result<Option<u32>, FrameError>)
        requires
            self.wf(),
            self.frame_base <= addr,
        ensures
            if data@.len() != 4 {
                r == Err::<Option<u32>, FrameError>(FrameError::InvalidAccessSize)
            } else {
                r == Ok::<Option<u32>, FrameError>(self.written(addr, le32(data@, 0)))
            },
    {
        if data.len() != 4 {
            return Err(FrameError::InvalidAccessSize);
        }
        let offset: u16 = ((addr - self.frame_base) % 0x1_0000) as u16;
        let value: u32 = get_u32(data, 0);
        if offset == SETSPI_NS_OFFSET {
            Ok(self.deliver_spi(value))
        } else {
            Ok(None)
        }
    }

    /// The SPI to assert for a message, if it goes to the doorbell and names
    /// an SPI of the frame.
    pub fn signal_msi(&self, address: u64, data: u32) -> (r: Option<u32>)
        requires
            self.wf(),
        ensures
            r == self.signaled(address, data),
    {
        if address != self.setspi_addr {
            return None;
        }
        self.deliver_spi(data)
    }

    /// Whether a kernel route may be enabled for a message.
    pub fn enable_route(&self, address: u64, data: u32) -> (r: bool)
        requires
            self.wf(),
        ensures
            r == (self.signaled(address, data) is Some),
    {
        address == self.setspi_addr && self.deliver_spi(data).is_some()
    }
}

/// A write to the frame and a message to the same address assert the same
/// SPI, or both none.
pub proof fn law_deliveries_agree(device: GicV2mDevice, addr: u64, spi: u32)
    requires
        device.wf(),
        device.frame_base <= addr < device.frame_base + FRAME_SIZE,
    ensures
        device.written(addr, spi) == device.signaled(addr, spi),
{
}

/// A write raises an interrupt exactly if it goes to the register 0x40 of the
/// frame and names an interrupt of the frame, and then it raises that one.
pub proof fn law_write_raises_the_interrupt_it_names(device: GicV2mDevice, addr: u64, spi: u32)
    requires
        device.wf(),
    ensures
        device.signaled(addr, spi) is Some <==> addr == device.frame_base + 0x40
            && device.spi_base <= spi && spi - device.spi_base < device.spi_count,
        device.signaled(addr, spi) matches Some(raised) ==> raised == spi,
        device.frame_base <= addr < device.frame_base + 0x1000 ==> {
            &&& device.written(addr, spi) is Some <==> addr == device.frame_base + 0x40
                && device.spi_base <= spi && spi - device.spi_base < device.spi_count
            &&& device.written(addr, spi) matches Some(raised) ==> raised == spi
        },
{
}

/// The register 0x8 of the frame says which interrupts it has: the first in
/// the bits from 16 on, and how many in the lowest ones. Every other reads as
/// zero, and only whole registers can be read.
pub proof fn law_frame_says_what_it_has(
    device: GicV2mDevice,
    offset: u64,
    len: usize,
    r: Result<Vec<u8>, FrameError>,
)
    requires
        offset < 0x1000,
        device.frame_base + offset <= u64::MAX,
        device.spi_base < 1024,
        device.spi_count < 1024,
        call_ensures(
            GicV2mDevice::mmio_read,
            (&device, (device.frame_base + offset) as u64, len),
            r,
        ),
    ensures
        r is Ok <==> len == 4,
        r matches Ok(data) ==> data@.len() == 4 && {
            let value = le32(data@, 0);
            if offset == 8 {
                value / 0x1_0000 == device.spi_base && value % 0x1_0000 == device.spi_count
            } else {
                value == 0
            }
        },
{
}

/// An interrupt is delivered exactly if it is one of the frame, and a route is
/// enabled exactly if a message to the same address with the same data would
/// raise one.
pub proof fn law_frame_delivers_its_own_interrupts(
    device: GicV2mDevice,
    address: u64,
    spi: u32,
    delivered: Option<u32>,
    signaled: Option<u32>,
    enabled: bool,
)
    requires
        device.wf(),
        call_ensures(GicV2mDevice::deliver_spi, (&device, spi), delivered),
        call_ensures(GicV2mDevice::signal_msi, (&device, address, spi), signaled),
        call_ensures(GicV2mDevice::enable_route, (&device, address, spi), enabled),
    ensures
        delivered is Some <==> device.spi_base <= spi && spi - device.spi_base < device.spi_count,
        delivered matches Some(raised) ==> raised == spi,
        signaled is Some <==> delivered is Some && address == device.frame_base + 0x40,
        signaled is Some ==> signaled == delivered,
        enabled <==> signaled is Some,
{
}

} // verus!
