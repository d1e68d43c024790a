//! The two halves of a WebSocket connection: one forwards the client's queue, the other
//! listens until the connection ends.
use vstd::prelude::*;

verus! {

/// What the forwarding half has to do next.
pub enum Outgoing<M> {
    /// Wait for a message in the client's queue.
    Receive,
    /// Send the message to the client.
    Send(M),
    /// Nothing more.
    Stop,
}

/// What the listening half got from the connection.
#[derive(Clone, Copy, Debug, PartialEq, Eq, Structural)]
pub enum Incoming {
    /// The client sent a message.
    Message,
    /// Receiving failed.
    Failed,
    /// The connection is closed.
    Closed,
}

/// What follows on a look into the queue.
pub open spec fn after_queued<M>(queued: Option<M>) -> Outgoing<M> {
    match queued {
        Some(message) => Outgoing::Send(message),
        None => Outgoing::Stop,
    }
}

/// What follows on an attempt to send.
pub open spec fn after_sent<M>(sent: bool) -> Outgoing<M> {
    if sent {
        Outgoing::Receive
    } else {
        Outgoing::Stop
    }
}

/// The messages that are sent from `queue`, where the attempt on the `i`-th succeeds if
/// `sent[i]` is set, and the queue closes behind its last message.
pub open spec fn forwarded<M>(queue: Seq<M>, sent: Seq<bool>) -> Seq<M>
    decreases queue.len(),
{
    let queued = if queue.len() > 0 {
        Some(queue[0])
    } else {
        None
    };
    match after_queued(queued) {
        Outgoing::Send(message) => seq![message] + (match after_sent::<M>(sent[0]) {
            Outgoing::Receive => if queue.len() > 0 {
                forwarded(queue.drop_first(), sent.drop_first())
            } else {
                Seq::empty()
            },
            _ => Seq::empty(),
        }),
        _ => Seq::empty(),
    }
}

/// Goes on after a look into the queue: `None` says that it is closed.
pub fn forward_queued<M>(queued: Option<M>) -> (next: Outgoing<M>)
    ensures
        next == after_queued(queued),
        queued matches Some(message) ==> next == Outgoing::Send(message),
        queued is None <==> next is Stop,
{
    match queued {
        Some(message) => Outgoing::Send(message),
        None => Outgoing::Stop,
    }
}

/// Goes on after an attempt to send a message to the client.
pub fn forward_sent<M>(sent: bool) -> (next: Outgoing<M>)
    ensures
        next == after_sent::<M>(sent),
        sent <==> next is Receive,
        !sent <==> next is Stop,
{
    if sent {
        Outgoing::Receive
    } else {
        Outgoing::Stop
    }
}

/// Whether to go on listening: messages are read and dropped, anything else ends it.
pub fn keep_listening(incoming: Incoming) -> (listen: bool)
    ensures
        listen == (incoming == Incoming::Message),
{
    match incoming {
        Incoming::Message => true,
        Incoming::Failed => false,
        Incoming::Closed => false,
    }
}

} // verus!
