//! One WebSocket client: the channel to it, and a record of what it was handed.
//!
//! The record exists in proofs only. It is written by the one function that sends on the
//! channel, so it cannot differ from what was sent.
use axum::extract::ws::Message;
use tokio::sync::mpsc::{UnboundedReceiver, UnboundedSender};
use vstd::prelude::*;

verus! {

/// The sending half of a `tokio` channel without a bound, as an opaque type.
#[verifier::external_type_specification]
#[verifier::external_body]
#[verifier::reject_recursive_types(T)]
pub struct ExUnboundedSender<T>(tokio::sync::mpsc::UnboundedSender<T>);

/// The receiving half of a `tokio` channel without a bound, as an opaque type.
#[verifier::external_type_specification]
#[verifier::external_body]
#[verifier::reject_recursive_types(T)]
pub struct ExUnboundedReceiver<T>(tokio::sync::mpsc::UnboundedReceiver<T>);

/// A WebSocket message of `axum`, as an opaque type.
#[verifier::external_type_specification]
#[verifier::external_body]
pub struct ExMessage(axum::extract::ws::Message);

/// A connected client.
pub struct Client {
    tx: UnboundedSender<Message>,
    handed: Ghost<Seq<(Seq<char>, bool)>>,
}

/// A client as a mathematical value: its channel, and the texts that were handed to the
/// channel, each with whether the channel took it.
#[verifier::ext_equal]
pub struct ClientView {
    pub sender: UnboundedSender<Message>,
    pub handed: Seq<(Seq<char>, bool)>,
}

impl View for Client {
    type V = ClientView;

    closed spec fn view(&self) -> ClientView {
        ClientView { sender: self.tx, handed: self.handed@ }
    }
}

impl Client {
    /// A client that was handed nothing yet.
    pub fn new(tx: UnboundedSender<Message>) -> (client: Client)
        ensures
            client@.sender == tx,
            client@.handed == Seq::<(Seq<char>, bool)>::empty(),
    {
        Client { tx, handed: Ghost(Seq::empty()) }
    }
}

/// Whether `sender` and `queue` are the two halves of one channel: what the one is handed, the
/// other gives out.
pub uninterp spec fn bound(
    sender: UnboundedSender<Message>,
    queue: UnboundedReceiver<Message>,
) -> bool;

/// Whether two senders belong to different channels: no queue belongs to both.
pub open spec fn apart(a: UnboundedSender<Message>, b: UnboundedSender<Message>) -> bool {
    forall|queue: UnboundedReceiver<Message>|
        #![trigger bound(a, queue)]
        #![trigger bound(b, queue)]
        !(bound(a, queue) && bound(b, queue))
}

/// The client after it was handed `text`.
pub open spec fn after_sending(client: ClientView, text: Seq<char>, accepted: bool) -> ClientView {
    ClientView { sender: client.sender, handed: client.handed.push((text, accepted)) }
}

/// Calls `tokio::sync::mpsc::unbounded_channel`.
///
/// Believed: the two halves belong to one channel, and it is a new one: the sender shares no
/// queue with a client that exists already. The existing clients are looked at in the contract
/// alone.
#[verifier::external_body]
pub(crate) fn open_channel(_existing: &Vec<Client>) -> (channel: (
    UnboundedSender<Message>,
    UnboundedReceiver<Message>,
))
    ensures
        bound(channel.0, channel.1),
        forall|i: int|
            0 <= i < _existing.len() ==> apart((#[trigger] _existing[i])@.sender, channel.0),
{
    tokio::sync::mpsc::unbounded_channel()
}

/// Calls `tokio::sync::mpsc::UnboundedSender::send` with a text message of `axum`.
///
/// Believed: the client's channel is handed `text`, once, and `accepted` is whether the channel
/// took it. It does as long as its receiving half is open, which another task decides: so no
/// clause says when.
#[verifier::external_body]
pub(crate) fn send_text(client: &mut Client, text: &str) -> (accepted: bool)
    ensures
        final(client)@ == after_sending(old(client)@, text@, accepted),
{
    client.tx.send(Message::Text(text.to_string())).is_ok()
}

} // verus!
