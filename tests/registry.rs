use std::sync::mpsc::channel;

use hid_monitor::device::{DeviceInfo, HidEvent};
use hid_monitor::monitor::start_hid_monitor;
use hid_monitor::registry::{
    next_wait_step, poll_status, MonitorRegistry, WaitStep, STATUS_DISCONNECTED, STATUS_EVENT,
    STATUS_FAILURE, STATUS_NOT_FOUND, STATUS_NO_EVENT, STOP_DONE, STOP_NOT_FOUND,
};
use hid_monitor::channel::ChannelPoll;

fn device(path: &str) -> DeviceInfo {
    DeviceInfo { path: path.to_string(), vid: Some(0x046d), pid: Some(0xc52b) }
}

#[test]
fn handles_start_at_one_and_increase() {
    let mut reg = MonitorRegistry::new();
    let (_t1, r1) = channel::<HidEvent>();
    let (_t2, r2) = channel::<HidEvent>();
    let (_t3, r3) = channel::<HidEvent>();
    let h1 = reg.start(r1);
    let h2 = reg.start(r2);
    assert_eq!(h1, 1);
    assert_eq!(h2, 2);
    assert_eq!(reg.stop(h2), STOP_DONE);
    let h3 = reg.start(r3);
    assert_eq!(h3, 3);
}

#[test]
fn two_monitors_are_independent() {
    let mut reg = MonitorRegistry::new();
    let (_t1, r1) = channel::<HidEvent>();
    let (t2, r2) = channel::<HidEvent>();
    let h1 = reg.start(r1);
    let h2 = reg.start(r2);
    assert!(h1 != 0 && h2 != 0 && h1 != h2);
    assert_eq!(reg.stop(h1), STOP_DONE);
    t2.send(HidEvent::Arrived(device("dev-a"))).unwrap();
    let (status, event) = reg.try_recv_event(h2);
    assert_eq!(status, STATUS_EVENT);
    match event {
        Some(HidEvent::Arrived(d)) => assert_eq!(d.path, "dev-a"),
        other => panic!("unexpected {:?}", other),
    }
}

#[test]
fn stopping_an_unknown_handle_reports_not_found() {
    let mut reg = MonitorRegistry::new();
    assert_eq!(reg.stop(7), STOP_NOT_FOUND);
    assert_eq!(reg.stop(0), STOP_NOT_FOUND);
    assert_ne!(reg.stop(7), STOP_DONE);
}

#[test]
fn stopped_handle_is_not_found_afterwards() {
    let mut reg = MonitorRegistry::new();
    let (tx, rx) = channel::<HidEvent>();
    let h = reg.start(rx);
    assert_eq!(reg.stop(h), STOP_DONE);
    let _ = tx.send(HidEvent::Removed(device("dev-b")));
    let (status, event) = reg.try_recv_event(h);
    assert_eq!(status, STATUS_NOT_FOUND);
    assert!(event.is_none());
    assert!(!reg.contains(h));
    assert_eq!(reg.stop(h), STOP_NOT_FOUND);
}

#[test]
fn empty_channel_reports_no_event() {
    let mut reg = MonitorRegistry::new();
    let (_tx, rx) = channel::<HidEvent>();
    let h = reg.start(rx);
    let (status, event) = reg.try_recv_event(h);
    assert_eq!(status, STATUS_NO_EVENT);
    assert!(event.is_none());
}

#[test]
fn dropped_sender_reports_disconnected() {
    let mut reg = MonitorRegistry::new();
    let (tx, rx) = channel::<HidEvent>();
    let h = reg.start(rx);
    tx.send(HidEvent::Arrived(device("dev-c"))).unwrap();
    drop(tx);
    assert_eq!(reg.try_recv_event(h).0, STATUS_EVENT);
    assert_eq!(reg.try_recv_event(h).0, STATUS_DISCONNECTED);
}

#[test]
fn events_come_in_the_order_sent() {
    let mut reg = MonitorRegistry::new();
    let (tx, rx) = channel::<HidEvent>();
    let h = reg.start(rx);
    tx.send(HidEvent::Arrived(device("first"))).unwrap();
    tx.send(HidEvent::Removed(device("second"))).unwrap();
    match reg.try_recv_event(h) {
        (1, Some(HidEvent::Arrived(d))) => assert_eq!(d.path, "first"),
        other => panic!("unexpected {:?}", other),
    }
    match reg.try_recv_event(h) {
        (1, Some(HidEvent::Removed(d))) => assert_eq!(d.path, "second"),
        other => panic!("unexpected {:?}", other),
    }
}

#[test]
fn backendless_monitor_is_disconnected_at_once() {
    let mut reg = MonitorRegistry::new();
    let h = reg.start(start_hid_monitor());
    assert_eq!(h, 1);
    let (status, event) = reg.try_recv_event(h);
    assert_eq!(status, STATUS_DISCONNECTED);
    assert!(event.is_none());
}

#[test]
fn poll_status_maps_each_outcome() {
    assert_eq!(poll_status(ChannelPoll::Empty).0, STATUS_NO_EVENT);
    assert_eq!(poll_status(ChannelPoll::Disconnected).0, STATUS_DISCONNECTED);
    let (status, event) = poll_status(ChannelPoll::Event(HidEvent::Arrived(device("x"))));
    assert_eq!(status, STATUS_EVENT);
    assert!(event.is_some());
}

#[test]
fn blocking_receive_decisions() {
    assert_eq!(next_wait_step(STATUS_NO_EVENT, false), WaitStep::Wait);
    assert_eq!(next_wait_step(STATUS_NO_EVENT, true), WaitStep::Wait);
    assert_eq!(next_wait_step(STATUS_EVENT, true), WaitStep::Finish(STATUS_EVENT));
    assert_eq!(next_wait_step(STATUS_NOT_FOUND, false), WaitStep::Finish(STATUS_NOT_FOUND));
    assert_eq!(next_wait_step(STATUS_NOT_FOUND, true), WaitStep::Finish(STATUS_DISCONNECTED));
    assert_eq!(next_wait_step(STATUS_DISCONNECTED, false), WaitStep::Finish(STATUS_DISCONNECTED));
    assert_eq!(next_wait_step(STATUS_FAILURE, true), WaitStep::Finish(STATUS_FAILURE));
}

#[test]
fn status_codes_have_their_boundary_values() {
    assert_eq!((STATUS_EVENT, STATUS_NO_EVENT, STATUS_FAILURE), (1, 0, -1));
    assert_eq!((STATUS_DISCONNECTED, STATUS_NOT_FOUND), (-2, -3));
}

#[test]
fn stopping_one_monitor_keeps_the_others_queued_events() {
    let mut reg = MonitorRegistry::new();
    let (t1, r1) = channel::<HidEvent>();
    let (t2, r2) = channel::<HidEvent>();
    let (t3, r3) = channel::<HidEvent>();
    let h1 = reg.start(r1);
    let h2 = reg.start(r2);
    let h3 = reg.start(r3);
    t1.send(HidEvent::Arrived(device("one"))).unwrap();
    t2.send(HidEvent::Arrived(device("two"))).unwrap();
    t3.send(HidEvent::Arrived(device("three"))).unwrap();
    assert_eq!(reg.stop(h2), STOP_DONE);
    match reg.try_recv_event(h1) {
        (1, Some(HidEvent::Arrived(d))) => assert_eq!(d.path, "one"),
        other => panic!("unexpected {:?}", other),
    }
    match reg.try_recv_event(h3) {
        (1, Some(HidEvent::Arrived(d))) => assert_eq!(d.path, "three"),
        other => panic!("unexpected {:?}", other),
    }
    assert!(t2.send(HidEvent::Arrived(device("late"))).is_err());
}
