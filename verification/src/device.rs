//! Devices and related types.
//!
//! Device creation itself is I/O against the device's own manager and
//! belongs to the driver; the library holds the error vocabulary the
//! creation path reports with.

use crate::manager::DeviceManagerNotFound;
use vstd::prelude::*;

verus! {

/// This error occurs when a device creation failed.
#[derive(Debug, PartialEq, Eq)]
pub enum CreateDeviceError {
    /// The appropriate device manager was not found.
    ManagerNotFound(DeviceManagerNotFound),
    /// The device creation failed, with a device-specific description.
    Device(String),
}

impl From<DeviceManagerNotFound> for CreateDeviceError {
    fn from(e: DeviceManagerNotFound) -> (r: Self)
        ensures
            r == CreateDeviceError::ManagerNotFound(e),
    {
        CreateDeviceError::ManagerNotFound(e)
    }
}

impl vstd::std_specs::convert::FromSpecImpl<DeviceManagerNotFound> for CreateDeviceError {
    open spec fn obeys_from_spec() -> bool {
        true
    }

    open spec fn from_spec(e: DeviceManagerNotFound) -> Self {
        CreateDeviceError::ManagerNotFound(e)
    }
}

impl CreateDeviceError {
    /// True when the failure was a missing device manager.
    pub fn is_manager_not_found(&self) -> (r: bool)
        ensures
            r == (self is ManagerNotFound),
    {
        matches!(self, CreateDeviceError::ManagerNotFound(_))
    }
}

} // verus!
