//! Descriptions of passthrough devices.

use vstd::prelude::*;

verus! {

/// How a virtual BAR is programmed before the guest configures it.
#[derive(Debug, Clone, Copy, PartialEq, Eq, Structural)]
pub enum BarPassthrough {
    /// It is left to the guest.
    Guest,
    /// With the address of the physical BAR, as the host reports it.
    Sysfs,
    /// With this host physical address.
    Address(u64),
}

impl Default for BarPassthrough {
    fn default() -> (r: BarPassthrough)
        ensures
            r == BarPassthrough::Guest,
    {
        BarPassthrough::Guest
    }
}

/// Resource identifier of a device that is opened by its group.
pub const VFIO_DEVICE_ID: &'static str = "vfio";

/// Resource identifier of a device that is opened by itself.
pub const VFIO_CDEV_DEVICE_ID: &'static str = "vfio-cdev";

/// A device that is opened by its group, `F` being an open file.
#[derive(Debug)]
pub struct VfioDeviceHandle<F> {
    /// Address of the device on the host.
    pub pci_id: String,
    /// The open group.
    pub group: F,
    /// How its BARs are programmed.
    pub bar_pt: [BarPassthrough; 6],
}

/// A device that is opened by itself, `F` being an open file.
#[derive(Debug)]
pub struct VfioCdevDeviceHandle<F> {
    /// Address of the device on the host.
    pub pci_id: String,
    /// The open device.
    pub cdev: F,
    /// The open IOMMU interface.
    pub iommufd: F,
    /// Devices with the same identifier share their page tables.
    pub iommu_id: String,
    /// How its BARs are programmed.
    pub bar_pt: [BarPassthrough; 6],
    /// Name of the port that the device is plugged into.
    pub port_name: String,
}

} // verus!
