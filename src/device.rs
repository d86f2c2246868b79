//! The platform-neutral device model and the events that carry it.

use vstd::prelude::*;

verus! {

/// One human-interface device: a backend-specific stable path, and the
/// vendor and product identifiers where the backend could read them.
#[derive(Debug, Clone)]
pub struct DeviceInfo {
    pub path: String,
    pub vid: Option<u16>,
    pub pid: Option<u16>,
}

impl DeviceInfo {
    /// A device as the library hands it out: its path is never empty.
    pub open spec fn wf(&self) -> bool {
        self.path@.len() > 0
    }
}

/// A device arrival or removal, with the device's full snapshot.
#[derive(Debug, Clone)]
pub enum HidEvent {
    Arrived(DeviceInfo),
    Removed(DeviceInfo),
}

impl HidEvent {
    pub open spec fn spec_device(&self) -> DeviceInfo {
        match self {
            HidEvent::Arrived(d) => *d,
            HidEvent::Removed(d) => *d,
        }
    }

    /// The device that the event is about.
    pub fn device(&self) -> (r: &DeviceInfo)
        ensures
            *r == self.spec_device(),
    {
        match self {
            HidEvent::Arrived(d) => d,
            HidEvent::Removed(d) => d,
        }
    }
}

} // verus!
