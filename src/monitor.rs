//! The monitor facade as it stands on a host without a device backend:
//! enumeration sees no device, and an event source reports itself
//! disconnected at once instead of blocking forever.

use std::sync::mpsc::Receiver;

use vstd::prelude::*;

use crate::device::{DeviceInfo, HidEvent};

verus! {

/// The devices attached now: none that this host's backend can see.
pub fn list_devices() -> (r: Vec<DeviceInfo>)
    ensures
        r@.len() == 0,
        forall|i: int| 0 <= i < r@.len() ==> r@[i].wf(),
{
    Vec::new()
}

/// Starts monitoring arrivals and removals. Without a backend nothing ever
/// sends: the sending end is dropped as the function returns,
/// so every receive reports the channel disconnected.
pub fn start_hid_monitor() -> Receiver<HidEvent> {
    let (_unused_sender, rx) = std::sync::mpsc::channel::<HidEvent>();
    rx
}

} // verus!
