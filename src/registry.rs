//! The table of active monitors that the C-compatible surface hands out as
//! integer handles.
//!
//! Handles are issued from 1 upwards, each greater than every one before,
//! and never again once stopped; `0` is never issued and stands for failure.
//! The table owns the receiving end of each monitor's event channel.

use std::collections::HashMap;
use std::sync::mpsc::Receiver;

use vstd::prelude::*;

use crate::channel::{poll_channel, ChannelPoll};
use crate::device::HidEvent;

verus! {

broadcast use vstd::std_specs::hash::group_hash_axioms;

/// An event was delivered.
pub const STATUS_EVENT: i32 = 1;

/// No event is waiting (non-blocking receive only).
pub const STATUS_NO_EVENT: i32 = 0;

/// An invalid argument, or the registry's lock could not be taken.
pub const STATUS_FAILURE: i32 = -1;

/// The monitor's channel is disconnected: no event will ever come.
pub const STATUS_DISCONNECTED: i32 = -2;

/// No monitor has that handle.
pub const STATUS_NOT_FOUND: i32 = -3;

/// `stop` removed the monitor.
pub const STOP_DONE: i32 = 1;

/// `stop` found no monitor with that handle.
pub const STOP_NOT_FOUND: i32 = 0;

/// The status and the event that a receive reports for what a look at the
/// channel found.
pub open spec fn poll_outcome(p: ChannelPoll) -> (i32, Option<HidEvent>) {
    match p {
        ChannelPoll::Event(e) => (STATUS_EVENT, Some(e)),
        ChannelPoll::Empty => (STATUS_NO_EVENT, None),
        ChannelPoll::Disconnected => (STATUS_DISCONNECTED, None),
    }
}

/// Maps a look at the channel to the receive status and event.
pub fn poll_status(p: ChannelPoll) -> (r: (i32, Option<HidEvent>))
    ensures
        r == poll_outcome(p),
{
    match p {
        ChannelPoll::Event(e) => (STATUS_EVENT, Some(e)),
        ChannelPoll::Empty => (STATUS_NO_EVENT, None),
        ChannelPoll::Disconnected => (STATUS_DISCONNECTED, None),
    }
}

/// The active monitors, keyed by handle, and the last handle issued.
pub struct MonitorRegistry {
    last_issued: u32,
    monitors: HashMap<u32, Receiver<HidEvent>>,
}

/// How the registry may change from `a` to `b` under any of its operations:
/// the last issued handle never goes down, and a handle that `b` holds was
/// either held by `a` or issued after everything that `a` issued and no
/// later than `b`'s last issued handle.
pub open spec fn evolves(a: MonitorRegistry, b: MonitorRegistry) -> bool {
    &&& a.last_issued() <= b.last_issued()
    &&& forall|h: u32| #[trigger]
        b.handles().contains(h) ==> a.handles().contains(h) || a.last_issued() < h
            <= b.last_issued()
}

impl MonitorRegistry {
    #[verifier::type_invariant]
    spec fn inv(&self) -> bool {
        forall|h: u32| #[trigger] self.monitors@.contains_key(h) ==> 0 < h <= self.last_issued
    }

    /// The greatest handle issued so far (`0` before the first).
    pub closed spec fn last_issued(&self) -> u32 {
        self.last_issued
    }

    /// The handles of the monitors that are active.
    pub closed spec fn handles(&self) -> Set<u32> {
        self.monitors@.dom()
    }

    /// The receiving end of each active monitor, by handle.
    pub closed spec fn receivers(&self) -> Map<u32, Receiver<HidEvent>> {
        self.monitors@
    }

    /// Every active handle was issued: it is non-zero and at most the last
    /// issued handle.
    pub open spec fn holds_issued_only(&self) -> bool {
        forall|h: u32| #[trigger] self.handles().contains(h) ==> 0 < h <= self.last_issued()
    }

    /// An empty registry that has issued nothing.
    pub fn new() -> (r: Self)
        ensures
            r.last_issued() == 0,
            r.handles() == Set::<u32>::empty(),
            r.receivers() == Map::<u32, Receiver<HidEvent>>::empty(),
            r.holds_issued_only(),
    {
        MonitorRegistry { last_issued: 0, monitors: HashMap::new() }
    }

    /// Registers a monitor's receiving end under a fresh handle and returns
    /// the handle; returns `0`, dropping `rx`, once every `u32` handle has
    /// been issued.
    pub fn start(&mut self, rx: Receiver<HidEvent>) -> (h: u32)
        ensures
            old(self).last_issued() == u32::MAX ==> h == 0 && final(self).last_issued()
                == old(self).last_issued() && final(self).receivers() == old(self).receivers(),
            old(self).last_issued() < u32::MAX ==> h == old(self).last_issued() + 1
                && final(self).last_issued() == h && !old(self).handles().contains(h)
                && final(self).receivers() == old(self).receivers().insert(h, rx),
            final(self).handles() == final(self).receivers().dom(),
            final(self).holds_issued_only(),
            evolves(*old(self), *final(self)),
    {
        proof {
            use_type_invariant(&*self);
        }
        if self.last_issued == u32::MAX {
            return 0;
        }
        let h = self.last_issued + 1;
        let mut monitors: HashMap<u32, Receiver<HidEvent>> = HashMap::new();
        std::mem::swap(&mut self.monitors, &mut monitors);
        monitors.insert(h, rx);
        self.last_issued = h;
        std::mem::swap(&mut self.monitors, &mut monitors);
        h
    }

    /// Removes the monitor with handle `h`, which drops its receiving end.
    pub fn stop(&mut self, h: u32) -> (r: i32)
        ensures
            r == (if old(self).handles().contains(h) {
                STOP_DONE
            } else {
                STOP_NOT_FOUND
            }),
            final(self).receivers() == old(self).receivers().remove(h),
            final(self).handles() == old(self).handles().remove(h),
            final(self).last_issued() == old(self).last_issued(),
            final(self).holds_issued_only(),
            evolves(*old(self), *final(self)),
    {
        proof {
            use_type_invariant(&*self);
        }
        let mut monitors: HashMap<u32, Receiver<HidEvent>> = HashMap::new();
        std::mem::swap(&mut self.monitors, &mut monitors);
        let removed = monitors.remove(&h);
        std::mem::swap(&mut self.monitors, &mut monitors);
        match removed {
            Some(_) => STOP_DONE,
            None => STOP_NOT_FOUND,
        }
    }

    /// Whether a monitor with handle `h` is active.
    pub fn contains(&self, h: u32) -> (r: bool)
        ensures
            r == self.handles().contains(h),
    {
        self.monitors.contains_key(&h)
    }

    /// Takes the next event of monitor `h` if one is waiting, without
    /// blocking: `STATUS_NOT_FOUND` for an unknown handle, else what the
    /// channel shows (`STATUS_EVENT` with the event, `STATUS_NO_EVENT` or
    /// `STATUS_DISCONNECTED`).
    pub fn try_recv_event(&self, h: u32) -> (r: (i32, Option<HidEvent>))
        ensures
            !self.handles().contains(h) ==> r == (STATUS_NOT_FOUND, None::<HidEvent>),
            self.handles().contains(h) ==> exists|p: ChannelPoll| r == poll_outcome(p),
    {
        match self.monitors.get(&h) {
            Some(rx) => {
                let p = poll_channel(rx);
                let ghost q = p;
                let r = poll_status(p);
                assert(r == poll_outcome(q));
                r
            },
            None => (STATUS_NOT_FOUND, None),
        }
    }
}

/// What a blocking receive does after one non-blocking look.
#[derive(Debug, PartialEq, Eq)]
pub enum WaitStep {
    /// Look again later.
    Wait,
    /// Return this status to the caller.
    Finish(i32),
}

/// The decision of a blocking receive after a look that reported `status`:
/// wait while no event is there; report a monitor that was stopped while
/// the caller `waited` as disconnected; report anything else as it is.
pub fn next_wait_step(status: i32, waited: bool) -> (r: WaitStep)
    ensures
        status == STATUS_NO_EVENT ==> r == WaitStep::Wait,
        status == STATUS_NOT_FOUND && waited ==> r == WaitStep::Finish(STATUS_DISCONNECTED),
        status != STATUS_NO_EVENT && !(status == STATUS_NOT_FOUND && waited) ==> r
            == WaitStep::Finish(status),
{
    if status == STATUS_NO_EVENT {
        WaitStep::Wait
    } else if status == STATUS_NOT_FOUND && waited {
        WaitStep::Finish(STATUS_DISCONNECTED)
    } else {
        WaitStep::Finish(status)
    }
}

} // verus!

verus! {

/// The registry's operations compose: whatever sequence of them leads from
/// `a` to `c` through `b` evolves `a` into `c`.
pub proof fn lemma_evolves_transitive(a: MonitorRegistry, b: MonitorRegistry, c: MonitorRegistry)
    requires
        evolves(a, b),
        evolves(b, c),
    ensures
        evolves(a, c),
{
}

/// A registry reached from a new one by any operations holds only handles
/// that it issued: each is non-zero and at most its last issued handle, so
/// the next handle it issues is greater than all of them.
pub proof fn lemma_handles_were_issued(a: MonitorRegistry, b: MonitorRegistry)
    requires
        a.last_issued() == 0,
        a.handles() == Set::<u32>::empty(),
        evolves(a, b),
    ensures
        forall|h: u32| #[trigger] b.handles().contains(h) ==> 0 < h <= b.last_issued(),
{
}

/// Handles only grow: the handle that `start` issues from state `b` (one
/// past `b`'s last issued handle) is non-zero and greater than every handle
/// issued up to any earlier state `a`.
pub proof fn lemma_later_handle_greater(a: MonitorRegistry, b: MonitorRegistry, h: u32)
    requires
        evolves(a, b),
        h == b.last_issued() + 1,
    ensures
        h != 0,
        h > a.last_issued(),
{
}

/// A stopped handle stays unknown: once an issued handle `h` is no longer
/// active in `a`, no later state `b` holds it again, so receiving on it
/// reports `STATUS_NOT_FOUND` and never delivers an event.
pub proof fn lemma_stopped_handle_stays_unknown(a: MonitorRegistry, b: MonitorRegistry, h: u32)
    requires
        0 < h <= a.last_issued(),
        !a.handles().contains(h),
        evolves(a, b),
    ensures
        !b.handles().contains(h),
{
}

} // verus!
