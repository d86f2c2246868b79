//! The plain values behind the C-compatible device and event structures.
//!
//! A device crosses the boundary as a nul-terminated path and, for each
//! optional identifier, a value with a presence flag. The values are
//! computed here; the boundary layer only copies them into freshly
//! allocated, caller-freed memory.

use vstd::prelude::*;
use vstd::utf8::encode_utf8;

use crate::device::{DeviceInfo, HidEvent};

verus! {

/// The kind of an event as the boundary reports it: `0` for an arrival,
/// `1` for a removal.
#[derive(Debug, Clone, Copy, PartialEq, Eq)]
pub enum CEventType {
    Arrived,
    Removed,
}

impl CEventType {
    pub open spec fn spec_code(&self) -> i32 {
        match self {
            CEventType::Arrived => 0,
            CEventType::Removed => 1,
        }
    }

    /// The integer that stands for the kind at the boundary.
    pub fn code(&self) -> (r: i32)
        ensures
            r == self.spec_code(),
    {
        match self {
            CEventType::Arrived => 0,
            CEventType::Removed => 1,
        }
    }
}

/// A device as the boundary lays it out. `path` holds the bytes before the
/// terminating nul and holds no nul itself.
#[derive(Debug, Clone)]
pub struct CDeviceRecord {
    pub path: Vec<u8>,
    pub vid: u32,
    pub pid: u32,
    pub has_vid: i32,
    pub has_pid: i32,
}

/// The path bytes that can cross the boundary: the path's own bytes, or
/// none at all where the path holds a nul and so cannot be nul-terminated.
pub open spec fn c_path_bytes(b: Seq<u8>) -> Seq<u8> {
    if b.contains(0u8) {
        Seq::empty()
    } else {
        b
    }
}

pub open spec fn id_value(id: Option<u16>) -> u32 {
    match id {
        Some(v) => v as u32,
        None => 0,
    }
}

pub open spec fn id_flag(id: Option<u16>) -> i32 {
    if id is Some {
        1
    } else {
        0
    }
}

fn nul_free_copy(b: &[u8]) -> (r: Vec<u8>)
    ensures
        r@ == c_path_bytes(b@),
{
    let mut r: Vec<u8> = Vec::with_capacity(b.len());
    let mut i: usize = 0;
    while i < b.len()
        invariant
            i <= b@.len(),
            r@ == b@.take(i as int),
            forall|j: int| 0 <= j < i ==> b@[j] != 0u8,
        decreases b@.len() - i,
    {
        if b[i] == 0u8 {
            assert(b@.contains(0u8));
            return Vec::new();
        }
        r.push(b[i]);
        i = i + 1;
        assert(r@ =~= b@.take(i as int));
    }
    assert(b@.take(i as int) =~= b@);
    assert(!b@.contains(0u8));
    r
}

fn id_parts(id: Option<u16>) -> (r: (u32, i32))
    ensures
        r == (id_value(id), id_flag(id)),
{
    match id {
        Some(v) => (v as u32, 1),
        None => (0, 0),
    }
}

/// `r` lays out the device `d`: its path's UTF-8 bytes where they hold no
/// nul, and each identifier as a value (`0` when absent) with a flag.
pub open spec fn is_record_of(r: CDeviceRecord, d: DeviceInfo) -> bool {
    &&& r.path@ == c_path_bytes(encode_utf8(d.path@))
    &&& r.vid == id_value(d.vid)
    &&& r.pid == id_value(d.pid)
    &&& r.has_vid == id_flag(d.vid)
    &&& r.has_pid == id_flag(d.pid)
}

/// The boundary layout of a device, in freshly owned values.
pub fn device_record(info: &DeviceInfo) -> (r: CDeviceRecord)
    ensures
        is_record_of(r, *info),
{
    let path = nul_free_copy(info.path.as_str().as_bytes());
    let (vid, has_vid) = id_parts(info.vid);
    let (pid, has_pid) = id_parts(info.pid);
    CDeviceRecord { path, vid, pid, has_vid, has_pid }
}

pub open spec fn spec_event_type(e: HidEvent) -> CEventType {
    match e {
        HidEvent::Arrived(_) => CEventType::Arrived,
        HidEvent::Removed(_) => CEventType::Removed,
    }
}

/// The boundary layout of an event: its kind and its device.
pub fn event_record(e: &HidEvent) -> (r: (CEventType, CDeviceRecord))
    ensures
        r.0 == spec_event_type(*e),
        is_record_of(r.1, e.spec_device()),
{
    match e {
        HidEvent::Arrived(d) => (CEventType::Arrived, device_record(d)),
        HidEvent::Removed(d) => (CEventType::Removed, device_record(d)),
    }
}

/// The boundary layout of a list of devices, one record for each device,
/// in order.
pub fn device_records(devices: &Vec<DeviceInfo>) -> (r: Vec<CDeviceRecord>)
    ensures
        r@.len() == devices@.len(),
        forall|i: int| 0 <= i < r@.len() ==> is_record_of(#[trigger] r@[i], devices@[i]),
{
    let mut r: Vec<CDeviceRecord> = Vec::with_capacity(devices.len());
    let mut i: usize = 0;
    while i < devices.len()
        invariant
            i <= devices@.len(),
            r@.len() == i,
            forall|j: int| 0 <= j < i ==> is_record_of(#[trigger] r@[j], devices@[j]),
        decreases devices@.len() - i,
    {
        r.push(device_record(&devices[i]));
        i = i + 1;
    }
    r
}

} // verus!
