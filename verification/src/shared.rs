//! Names and control codes shared between the driver and user mode.
use vstd::prelude::*;

verus! {

/// Kernel device object name.
pub const DEVICE_NAME: &'static str = "\\\\Device\\\\WdRust";

/// DOS symbolic link of the device.
pub const DOS_DEVICE_NAME: &'static str = "\\\\DosDevices\\\\WdRust";

/// Control code that opens a handle.
pub const IOCTL_OPEN: u32 = 0x8000_2000;

/// Control code that receives one queued event.
pub const IOCTL_RECV: u32 = 0x8000_2004;

/// Control code that sends (reinjects) one packet.
pub const IOCTL_SEND: u32 = 0x8000_2008;

} // verus!
