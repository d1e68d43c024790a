//! The task that turns file changes into reload messages.
//!
//! After a change the task waits, throws away the changes that came meanwhile, and has every
//! client reload once.
use vstd::prelude::*;

use crate::changes::{cursor, cursor_moved, try_receive, Changes, Drained};

verus! {

/// The message that makes a client reload its page.
pub const RELOAD_MESSAGE: &'static str = "rld";

/// How long the task waits after a change, in milliseconds.
pub const DEBOUNCE_MILLIS: u64 = 100;

/// How many changes the channel to the task holds before the oldest is overwritten.
pub const CHANGE_BUFFER: usize = 16;

/// Where the task stands.
#[derive(Clone, Copy, Debug, PartialEq, Eq, Structural)]
pub enum BroadcastTask {
    /// It waits for a change.
    Receiving,
    /// A change came: it lets further changes come in.
    Debouncing,
    /// It throws away the changes that came in.
    Draining,
    /// It has the clients reload.
    Reloading,
    /// It has ended.
    Stopped,
}

/// What the task has seen happen.
#[derive(Clone, Copy, Debug, PartialEq, Eq, Structural)]
pub enum BroadcastEvent {
    /// A change was received.
    Received,
    /// Receiving failed: the channel is closed, or changes were overwritten.
    ReceiveFailed,
    /// The waiting time is over.
    Slept,
    /// Another change was there, or others were overwritten.
    Pending,
    /// No other change is there.
    NonePending,
    /// The clients were handed the reload message.
    Reloaded,
}

/// What has to be done for the task.
#[derive(Debug, PartialEq, Eq)]
pub enum BroadcastAction {
    /// Wait for a change.
    Receive,
    /// Wait so many milliseconds.
    Sleep(u64),
    /// Receive a change if there is one.
    TryReceive,
    /// Hand the message to every client.
    Send(String),
    /// Nothing more.
    Stop,
}

/// What has to be done, as a mathematical value.
pub enum BroadcastActionView {
    Receive,
    Sleep(u64),
    TryReceive,
    Send(Seq<char>),
    Stop,
}

impl View for BroadcastAction {
    type V = BroadcastActionView;

    open spec fn view(&self) -> BroadcastActionView {
        match *self {
            BroadcastAction::Receive => BroadcastActionView::Receive,
            BroadcastAction::Sleep(millis) => BroadcastActionView::Sleep(millis),
            BroadcastAction::TryReceive => BroadcastActionView::TryReceive,
            BroadcastAction::Send(message) => BroadcastActionView::Send(message@),
            BroadcastAction::Stop => BroadcastActionView::Stop,
        }
    }
}

/// What has to be done where `task` stands.
pub open spec fn pending_action(task: BroadcastTask) -> BroadcastActionView {
    match task {
        BroadcastTask::Receiving => BroadcastActionView::Receive,
        BroadcastTask::Debouncing => BroadcastActionView::Sleep(DEBOUNCE_MILLIS),
        BroadcastTask::Draining => BroadcastActionView::TryReceive,
        BroadcastTask::Reloading => BroadcastActionView::Send(RELOAD_MESSAGE@),
        BroadcastTask::Stopped => BroadcastActionView::Stop,
    }
}

/// Where `task` stands after `event`. An event that it does not wait for changes nothing.
pub open spec fn after_event(task: BroadcastTask, event: BroadcastEvent) -> BroadcastTask {
    match (task, event) {
        (BroadcastTask::Receiving, BroadcastEvent::Received) => BroadcastTask::Debouncing,
        (BroadcastTask::Receiving, BroadcastEvent::ReceiveFailed) => BroadcastTask::Stopped,
        (BroadcastTask::Debouncing, BroadcastEvent::Slept) => BroadcastTask::Draining,
        (BroadcastTask::Draining, BroadcastEvent::NonePending) => BroadcastTask::Reloading,
        (BroadcastTask::Reloading, BroadcastEvent::Reloaded) => BroadcastTask::Receiving,
        _ => task,
    }
}

/// Where `task` stands after all of `events`.
pub open spec fn after_events(task: BroadcastTask, events: Seq<BroadcastEvent>) -> BroadcastTask
    decreases events.len(),
{
    if events.len() == 0 {
        task
    } else {
        after_event(after_events(task, events.drop_last()), events.last())
    }
}

/// How often `task` has the clients reload in the course of `events`.
pub open spec fn reloads(task: BroadcastTask, events: Seq<BroadcastEvent>) -> nat
    decreases events.len(),
{
    if events.len() == 0 {
        0
    } else {
        let before = after_events(task, events.drop_last());
        let now = after_event(before, events.last());
        let earlier = reloads(task, events.drop_last());
        if before != BroadcastTask::Reloading && now == BroadcastTask::Reloading {
            earlier + 1
        } else {
            earlier
        }
    }
}

/// How often `event` occurs in `events`.
pub open spec fn occurrences(events: Seq<BroadcastEvent>, event: BroadcastEvent) -> nat
    decreases events.len(),
{
    if events.len() == 0 {
        0
    } else {
        let earlier = occurrences(events.drop_last(), event);
        if events.last() == event {
            earlier + 1
        } else {
            earlier
        }
    }
}

/// What a look for another change means for the task: after a change that was taken, and after
/// changes that were overwritten, more may be there.
pub open spec fn event_of(look: Drained) -> BroadcastEvent {
    match look {
        Drained::Taken => BroadcastEvent::Pending,
        Drained::Overwritten(_) => BroadcastEvent::Pending,
        Drained::Empty => BroadcastEvent::NonePending,
        Drained::Closed => BroadcastEvent::NonePending,
    }
}

/// A burst of changes: one is received, the wait ends, and then the task looks for others. Its
/// looks end in `looks`.
pub open spec fn burst(looks: Seq<Drained>) -> Seq<BroadcastEvent> {
    seq![BroadcastEvent::Received, BroadcastEvent::Slept] + looks.map_values(
        |look: Drained| event_of(look),
    )
}

impl BroadcastEvent {
    /// The event that waiting for a change ended in.
    pub fn of_receive(received: bool) -> (event: BroadcastEvent)
        ensures
            event == if received {
                BroadcastEvent::Received
            } else {
                BroadcastEvent::ReceiveFailed
            },
    {
        if received {
            BroadcastEvent::Received
        } else {
            BroadcastEvent::ReceiveFailed
        }
    }

    /// The event that a look for another change ended in.
    pub fn of_look(look: Drained) -> (event: BroadcastEvent)
        ensures
            event == event_of(look),
            event == BroadcastEvent::NonePending <==> look is Empty || look is Closed,
            event == BroadcastEvent::Pending <==> look is Taken || look is Overwritten,
    {
        match look {
            Drained::Taken => BroadcastEvent::Pending,
            Drained::Overwritten(_) => BroadcastEvent::Pending,
            Drained::Empty => BroadcastEvent::NonePending,
            Drained::Closed => BroadcastEvent::NonePending,
        }
    }
}

/// Throws one pending change away, if there is one, and tells whether more may be there. Where
/// changes were overwritten, those that came after them are.
pub fn drain_one(changes: &mut Changes) -> (event: BroadcastEvent)
    ensures
        final(changes).looks().len() == old(changes).looks().len() + 1,
        final(changes).looks().drop_last() == old(changes).looks(),
        event == event_of(final(changes).looks().last()),
        cursor_moved(
            cursor(old(changes).receiver()),
            final(changes).looks().last(),
            cursor(final(changes).receiver()),
        ),
{
    let ghost before = changes.looks();
    let look = try_receive(changes);
    assert(changes.looks().drop_last() == before);
    BroadcastEvent::of_look(look)
}

/// Starts the task: it waits for the first change.
pub fn setup_websocket_broadcast() -> (task: BroadcastTask)
    ensures
        task == BroadcastTask::Receiving,
{
    BroadcastTask::Receiving
}

impl BroadcastTask {
    /// What has to be done now.
    pub fn action(self) -> (action: BroadcastAction)
        ensures
            action@ == pending_action(self),
            match self {
                BroadcastTask::Receiving => action is Receive,
                BroadcastTask::Debouncing => action == BroadcastAction::Sleep(100),
                BroadcastTask::Draining => action is TryReceive,
                BroadcastTask::Reloading => action matches BroadcastAction::Send(message)
                    && message@ == "rld"@,
                BroadcastTask::Stopped => action is Stop,
            },
    {
        match self {
            BroadcastTask::Receiving => BroadcastAction::Receive,
            BroadcastTask::Debouncing => BroadcastAction::Sleep(DEBOUNCE_MILLIS),
            BroadcastTask::Draining => BroadcastAction::TryReceive,
            BroadcastTask::Reloading => BroadcastAction::Send(RELOAD_MESSAGE.to_owned()),
            BroadcastTask::Stopped => BroadcastAction::Stop,
        }
    }

    /// Goes on after `event`.
    pub fn step(self, event: BroadcastEvent) -> (next: BroadcastTask)
        ensures
            next == after_event(self, event),
    {
        match (self, event) {
            (BroadcastTask::Receiving, BroadcastEvent::Received) => BroadcastTask::Debouncing,
            (BroadcastTask::Receiving, BroadcastEvent::ReceiveFailed) => BroadcastTask::Stopped,
            (BroadcastTask::Debouncing, BroadcastEvent::Slept) => BroadcastTask::Draining,
            (BroadcastTask::Draining, BroadcastEvent::NonePending) => BroadcastTask::Reloading,
            (BroadcastTask::Reloading, BroadcastEvent::Reloaded) => BroadcastTask::Receiving,
            _ => self,
        }
    }
}

} // verus!
