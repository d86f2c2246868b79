//! The event channel between a monitor's producer and its consumer.

use std::sync::mpsc::{Receiver, Sender};

use vstd::prelude::*;

use crate::device::HidEvent;

verus! {

#[verifier::external_type_specification]
#[verifier::external_body]
#[verifier::reject_recursive_types(T)]
pub struct ExReceiver<T>(Receiver<T>);

#[verifier::external_type_specification]
#[verifier::external_body]
#[verifier::reject_recursive_types(T)]
pub struct ExSender<T>(Sender<T>);

/// Relies on std's `mpsc::channel`: a connected sending and receiving end.
pub assume_specification<T>[ std::sync::mpsc::channel::<T> ]() -> (Sender<T>, Receiver<T>);

/// What one non-blocking look at a monitor's channel found.
#[derive(Debug)]
pub enum ChannelPoll {
    Event(HidEvent),
    Empty,
    Disconnected,
}

/// Relies on std's `Receiver::try_recv`: it returns at once, with the next
/// queued value, or with whether the channel is empty or disconnected.
#[verifier::external_body]
pub(crate) fn poll_channel(rx: &Receiver<HidEvent>) -> (r: ChannelPoll) {
    match rx.try_recv() {
        Ok(e) => ChannelPoll::Event(e),
        Err(std::sync::mpsc::TryRecvError::Empty) => ChannelPoll::Empty,
        Err(std::sync::mpsc::TryRecvError::Disconnected) => ChannelPoll::Disconnected,
    }
}

} // verus!
