//! The channel that file changes go through, with a record of what it was handed.
//!
//! The record exists in proofs only. It is written by the one function that sends on the
//! channel, so it cannot differ from what was sent.
use tokio::sync::broadcast::Sender;
use vstd::prelude::*;

verus! {

/// A file change that `notify` reports, as an opaque type.
#[verifier::external_type_specification]
#[verifier::external_body]
pub struct ExEvent(notify::Event);

/// The sending half of a `tokio` broadcast channel, as an opaque type.
#[verifier::external_type_specification]
#[verifier::external_body]
#[verifier::reject_recursive_types(T)]
pub struct ExBroadcastSender<T>(tokio::sync::broadcast::Sender<T>);

/// The sending end for file changes.
pub struct Events {
    tx: Sender<notify::Event>,
    sent: Ghost<Seq<(notify::Event, Option<usize>)>>,
}

/// The sending end as a mathematical value: its channel, and the events that were handed to
/// it, each with how many subscribers it went to, or `None` where there were none.
#[verifier::ext_equal]
pub struct EventsView {
    pub sender: Sender<notify::Event>,
    pub sent: Seq<(notify::Event, Option<usize>)>,
}

impl View for Events {
    type V = EventsView;

    closed spec fn view(&self) -> EventsView {
        EventsView { sender: self.tx, sent: self.sent@ }
    }
}

impl Events {
    /// A sending end that was handed nothing yet.
    pub fn new(tx: Sender<notify::Event>) -> (events: Events)
        ensures
            events@.sender == tx,
            events@.sent == Seq::<(notify::Event, Option<usize>)>::empty(),
    {
        Events { tx, sent: Ghost(Seq::empty()) }
    }
}

/// The number of subscribers that an event went to, where it went to any.
pub open spec fn subscribers(outcome: Result<usize, notify::Event>) -> Option<usize> {
    match outcome {
        Ok(count) => Some(count),
        Err(_) => None,
    }
}

/// Calls `tokio::sync::broadcast::Sender::send`.
///
/// Believed: the channel is handed `event`, once. Where it has subscribers, it takes the event
/// and tells their number, which is not 0; where it has none, it hands the event back. Which
/// of the two holds, other tasks decide: so no clause says when.
#[verifier::external_body]
pub(crate) fn send_event(events: &mut Events, event: notify::Event) -> (outcome: Result<
    usize,
    notify::Event,
>)
    ensures
        final(events)@ == (EventsView {
            sender: old(events)@.sender,
            sent: old(events)@.sent.push((event, subscribers(outcome))),
        }),
        match outcome {
            Ok(count) => count > 0,
            Err(returned) => returned == event,
        },
{
    events.tx.send(event).map_err(|unsent| unsent.0)
}

} // verus!
