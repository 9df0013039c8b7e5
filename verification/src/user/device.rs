//! Where the device lives and whether it is there.
use vstd::prelude::*;

verus! {

/// Whether the device could be found.
#[derive(Debug, Clone, Copy, PartialEq, Eq, Structural)]
pub enum DeviceAvailability {
    Present,
    Missing,
}

/// The Win32 path of the device.
pub open spec fn spec_device_path() -> Seq<char> {
    "\\\\.\\WdRust"@
}

/// The Win32 path of the device, `\\.\WdRust`.
pub fn default_device_path() -> (p: &'static str)
    ensures
        p@ == spec_device_path(),
{
    "\\\\.\\WdRust"
}

} // verus!
