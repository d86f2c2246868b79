//! The platform-neutral steps of the platform backends: how a device read
//! from the OS becomes a `DeviceInfo` and how a change notification becomes
//! a `HidEvent`. The OS calls themselves stay with the caller, which hands
//! over what they returned as plain values.

use vstd::prelude::*;

use crate::device::{DeviceInfo, HidEvent};
use crate::vid_pid::{parse_vid_pid_from_path, vid_pid_of};
use vstd::utf8::encode_utf8;

verus! {

/// The text that `String::from_utf8_lossy` makes of the bytes `b`.
pub uninterp spec fn utf8_lossy(b: Seq<u8>) -> Seq<char>;

pub open spec fn is_ascii_bytes(b: Seq<u8>) -> bool {
    forall|i: int| 0 <= i < b.len() ==> b[i] < 0x80u8
}

pub open spec fn ascii_text(b: Seq<u8>) -> Seq<char> {
    b.map_values(|c: u8| c as char)
}

/// Relies on std's `String::from_utf8_lossy`: the text that the bytes
/// encode, with each invalid sequence replaced; ASCII bytes come out as the
/// same characters.
#[verifier::external_body]
fn text_from_bytes(b: &[u8]) -> (r: String)
    ensures
        r@ == utf8_lossy(b@),
        is_ascii_bytes(b@) ==> r@ == ascii_text(b@),
{
    String::from_utf8_lossy(b).into_owned()
}

/// The bytes of a nul-terminated buffer before its first nul (all of them
/// where there is none).
pub open spec fn before_nul(b: Seq<u8>) -> Seq<u8>
    decreases b.len(),
{
    if b.len() == 0 {
        b
    } else if b[0] == 0u8 {
        Seq::empty()
    } else {
        seq![b[0]] + before_nul(b.drop_first())
    }
}

/// The decimal digits of `n`.
pub open spec fn decimal(n: nat) -> Seq<u8>
    decreases n,
{
    if n < 10 {
        seq![(0x30 + n) as u8]
    } else {
        decimal(n / 10).push((0x30 + n % 10) as u8)
    }
}

/// An optional identifier as debug formatting writes it: `Some(1133)` or
/// `None`.
pub open spec fn debug_option(id: Option<u16>) -> Seq<u8> {
    match id {
        Some(v) => seq!['S' as u8, 'o' as u8, 'm' as u8, 'e' as u8, '(' as u8] + decimal(v as nat) + seq![')' as u8],
        None => seq!['N' as u8, 'o' as u8, 'n' as u8, 'e' as u8],
    }
}

/// The path made up for a device whose registry entry gives none:
/// `macos-hid:vid=<vid>:pid=<pid>:svc=<service>`.
pub open spec fn diagnostic_path(vid: Option<u16>, pid: Option<u16>, service: u32) -> Seq<u8> {
    seq!['m' as u8, 'a' as u8, 'c' as u8, 'o' as u8, 's' as u8, '-' as u8, 'h' as u8, 'i' as u8, 'd' as u8, ':' as u8, 'v' as u8, 'i' as u8, 'd' as u8, '=' as u8]
        + debug_option(vid) + seq![':' as u8, 'p' as u8, 'i' as u8, 'd' as u8, '=' as u8] + debug_option(pid) + seq![
        ':' as u8,
        's' as u8,
        'v' as u8,
        'c' as u8,
        '=' as u8,
    ] + decimal(service as nat)
}

/// The text of a registry entry's path, where the lookup gave one.
pub open spec fn registry_text(entry: Option<Seq<u8>>) -> Seq<char> {
    match entry {
        Some(b) => utf8_lossy(before_nul(b)),
        None => Seq::empty(),
    }
}

/// A device's path: its registry entry's path, or where that is missing
/// or empty, the made-up diagnostic path.
pub open spec fn registry_device_path(
    vid: Option<u16>,
    pid: Option<u16>,
    service: u32,
    entry: Option<Seq<u8>>,
) -> Seq<char> {
    let t = registry_text(entry);
    if t.len() > 0 {
        t
    } else {
        ascii_text(diagnostic_path(vid, pid, service))
    }
}

proof fn lemma_decimal_digits(n: nat)
    ensures
        decimal(n).len() > 0,
        forall|i: int| 0 <= i < decimal(n).len() ==> 0x30u8 <= #[trigger] decimal(n)[i] <= 0x39u8,
    decreases n,
{
    if n >= 10 {
        lemma_decimal_digits(n / 10);
    }
}

fn push_decimal(out: &mut Vec<u8>, n: u32)
    ensures
        final(out)@ == old(out)@ + decimal(n as nat),
    decreases n,
{
    if n >= 10 {
        push_decimal(out, n / 10);
    }
    out.push(0x30u8 + (n % 10) as u8);
    assert(out@ =~= old(out)@ + decimal(n as nat));
}

fn push_debug_option(out: &mut Vec<u8>, id: Option<u16>)
    ensures
        final(out)@ == old(out)@ + debug_option(id),
{
    match id {
        Some(v) => {
            let mut open = vec!['S' as u8, 'o' as u8, 'm' as u8, 'e' as u8, '(' as u8];
            out.append(&mut open);
            push_decimal(out, v as u32);
            out.push(')' as u8);
        },
        None => {
            let mut none = vec!['N' as u8, 'o' as u8, 'n' as u8, 'e' as u8];
            out.append(&mut none);
        },
    }
    assert(out@ =~= old(out)@ + debug_option(id));
}

fn diagnostic_path_bytes(vid: Option<u16>, pid: Option<u16>, service: u32) -> (r: Vec<u8>)
    ensures
        r@ == diagnostic_path(vid, pid, service),
        is_ascii_bytes(r@),
        r@.len() > 0,
{
    let mut out = vec!['m' as u8, 'a' as u8, 'c' as u8, 'o' as u8, 's' as u8, '-' as u8, 'h' as u8, 'i' as u8, 'd' as u8, ':' as u8, 'v' as u8, 'i' as u8, 'd' as u8, '=' as u8];
    push_debug_option(&mut out, vid);
    let mut pid_key = vec![':' as u8, 'p' as u8, 'i' as u8, 'd' as u8, '=' as u8];
    out.append(&mut pid_key);
    push_debug_option(&mut out, pid);
    let mut svc_key = vec![':' as u8, 's' as u8, 'v' as u8, 'c' as u8, '=' as u8];
    out.append(&mut svc_key);
    push_decimal(&mut out, service);
    proof {
        lemma_decimal_digits(service as nat);
        if let Some(v) = vid {
            lemma_decimal_digits(v as nat);
        }
        if let Some(v) = pid {
            lemma_decimal_digits(v as nat);
        }
        assert(out@ =~= diagnostic_path(vid, pid, service));
    }
    out
}

/// The bytes of a nul-terminated buffer before its first nul.
pub fn nul_terminated(buf: &[u8]) -> (r: Vec<u8>)
    ensures
        r@ == before_nul(buf@),
{
    let mut r: Vec<u8> = Vec::new();
    let mut i: usize = 0;
    while i < buf.len()
        invariant
            i <= buf@.len(),
            r@ == buf@.take(i as int),
            forall|j: int| 0 <= j < i ==> buf@[j] != 0u8,
        ensures
            i <= buf@.len(),
            r@ == buf@.take(i as int),
            forall|j: int| 0 <= j < i ==> buf@[j] != 0u8,
            i == buf@.len() || buf@[i as int] == 0u8,
        decreases buf@.len() - i,
    {
        if buf[i] == 0u8 {
            break;
        }
        r.push(buf[i]);
        i = i + 1;
        assert(r@ =~= buf@.take(i as int));
    }
    proof {
        lemma_before_nul(buf@, i as int);
    }
    r
}

proof fn lemma_before_nul(b: Seq<u8>, k: int)
    requires
        0 <= k <= b.len(),
        forall|j: int| 0 <= j < k ==> b[j] != 0u8,
        k == b.len() || b[k] == 0u8,
    ensures
        before_nul(b) == b.take(k),
    decreases b.len(),
{
    if b.len() == 0 {
        assert(b.take(k) =~= b);
    } else if b[0] == 0u8 {
        assert(b.take(k) =~= Seq::<u8>::empty());
    } else {
        let rest = b.drop_first();
        assert forall|j: int| 0 <= j < k - 1 implies rest[j] != 0u8 by {
            assert(rest[j] == b[j + 1]);
        }
        lemma_before_nul(rest, k - 1);
        assert(seq![b[0]] + rest.take(k - 1) =~= b.take(k));
    }
}

/// Reads a numeric device property as a `u16`, keeping the low 16 bits of
/// the number that the OS gave, where it gave one.
pub fn property_u16(number: Option<i32>) -> (r: Option<u16>)
    ensures
        r == match number {
            Some(v) => Some(v as u16),
            None => None::<u16>,
        },
{
    match number {
        Some(v) => Some(v as u16),
        None => None,
    }
}

/// A device found through a registry-backed backend: its identifiers as
/// read, and as its path the registry entry's path (`entry`, the
/// nul-terminated buffer that the lookup filled, where it succeeded), or a
/// made-up diagnostic path where that is missing or empty.
pub fn device_from_registry_entry(
    vid: Option<u16>,
    pid: Option<u16>,
    service: u32,
    entry: Option<Vec<u8>>,
) -> (r: DeviceInfo)
    ensures
        r.vid == vid,
        r.pid == pid,
        r.path@ == registry_device_path(
            vid,
            pid,
            service,
            match entry {
                Some(b) => Some(b@),
                None => None,
            },
        ),
        r.wf(),
{
    let text = match entry {
        Some(b) => {
            let bytes = nul_terminated(b.as_slice());
            text_from_bytes(bytes.as_slice())
        },
        None => String::new(),
    };
    if text.as_str().is_empty() {
        let bytes = diagnostic_path_bytes(vid, pid, service);
        let path = text_from_bytes(bytes.as_slice());
        DeviceInfo { path, vid, pid }
    } else {
        DeviceInfo { path: text, vid, pid }
    }
}

/// The path made up for a device interface whose path came back empty:
/// `windows-hid:unnamed-interface`.
pub open spec fn unnamed_interface_path() -> Seq<u8> {
    seq![
        'w' as u8, 'i' as u8, 'n' as u8, 'd' as u8, 'o' as u8, 'w' as u8, 's' as u8, '-' as u8,
        'h' as u8, 'i' as u8, 'd' as u8, ':' as u8, 'u' as u8, 'n' as u8, 'n' as u8, 'a' as u8,
        'm' as u8, 'e' as u8, 'd' as u8, '-' as u8, 'i' as u8, 'n' as u8, 't' as u8, 'e' as u8,
        'r' as u8, 'f' as u8, 'a' as u8, 'c' as u8, 'e' as u8,
    ]
}

/// The path of a device known by its interface path `p`: `p` itself, or
/// the made-up diagnostic path where `p` is empty.
pub open spec fn interface_device_path(p: Seq<char>) -> Seq<char> {
    if p.len() > 0 {
        p
    } else {
        ascii_text(unnamed_interface_path())
    }
}

fn unnamed_interface_text() -> (r: String)
    ensures
        r@ == ascii_text(unnamed_interface_path()),
        r@.len() > 0,
{
    let b = vec![
        'w' as u8, 'i' as u8, 'n' as u8, 'd' as u8, 'o' as u8, 'w' as u8, 's' as u8, '-' as u8,
        'h' as u8, 'i' as u8, 'd' as u8, ':' as u8, 'u' as u8, 'n' as u8, 'n' as u8, 'a' as u8,
        'm' as u8, 'e' as u8, 'd' as u8, '-' as u8, 'i' as u8, 'n' as u8, 't' as u8, 'e' as u8,
        'r' as u8, 'f' as u8, 'a' as u8, 'c' as u8, 'e' as u8,
    ];
    assert(b@ =~= unnamed_interface_path());
    text_from_bytes(b.as_slice())
}

/// A device found by its interface path, with the identifiers that the
/// path carries; an empty path, which names no device, is replaced by a
/// made-up diagnostic one.
pub fn device_from_interface_path(path: String) -> (r: DeviceInfo)
    ensures
        r.path@ == interface_device_path(path@),
        r.vid == vid_pid_of(encode_utf8(path@)).0,
        r.pid == vid_pid_of(encode_utf8(path@)).1,
        r.wf(),
{
    let (vid, pid) = parse_vid_pid_from_path(path.as_str());
    if path.as_str().is_empty() {
        DeviceInfo { path: unnamed_interface_text(), vid, pid }
    } else {
        DeviceInfo { path, vid, pid }
    }
}

} // verus!

verus! {

/// The kind of change that a device-change notification reports.
#[derive(Debug, Clone, Copy, PartialEq, Eq)]
pub enum ChangeKind {
    Arrival,
    Removal,
}

/// The notification code of a device that arrived.
pub const DEVICE_ARRIVAL: u32 = 0x8000;

/// The notification code of a device whose removal is complete.
pub const DEVICE_REMOVE_COMPLETE: u32 = 0x8004;

/// Tells the two device-change codes that the monitor forwards apart; any
/// other code is ignored.
pub fn classify_device_change(code: u32) -> (r: Option<ChangeKind>)
    ensures
        r == (if code == DEVICE_ARRIVAL {
            Some(ChangeKind::Arrival)
        } else if code == DEVICE_REMOVE_COMPLETE {
            Some(ChangeKind::Removal)
        } else {
            None
        }),
{
    if code == DEVICE_ARRIVAL {
        Some(ChangeKind::Arrival)
    } else if code == DEVICE_REMOVE_COMPLETE {
        Some(ChangeKind::Removal)
    } else {
        None
    }
}

/// The event for a change of kind `kind` on the device with interface path
/// `path`: one event for every notification, an empty path replaced as
/// `device_from_interface_path` replaces it.
pub fn interface_change_event(path: String, kind: ChangeKind) -> (r: HidEvent)
    ensures
        r.spec_device().path@ == interface_device_path(path@),
        r.spec_device().vid == vid_pid_of(encode_utf8(path@)).0,
        r.spec_device().pid == vid_pid_of(encode_utf8(path@)).1,
        r.spec_device().wf(),
        kind == ChangeKind::Arrival ==> r is Arrived,
        kind == ChangeKind::Removal ==> r is Removed,
{
    let d = device_from_interface_path(path);
    match kind {
        ChangeKind::Arrival => HidEvent::Arrived(d),
        ChangeKind::Removal => HidEvent::Removed(d),
    }
}

} // verus!
