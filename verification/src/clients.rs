//! The connected WebSocket clients, in the order in which they came.
use axum::extract::ws::Message;
use tokio::sync::mpsc::UnboundedReceiver;
use vstd::prelude::*;

use crate::client::{
    after_sending, apart, bound, open_channel, send_text, Client, ClientView,
};

verus! {

/// The clients whose flag is set, in their order.
pub open spec fn kept<C>(clients: Seq<C>, accepted: Seq<bool>) -> Seq<C>
    decreases clients.len(),
{
    if clients.len() == 0 {
        Seq::empty()
    } else {
        let before = kept(clients.drop_last(), accepted.drop_last());
        if accepted.last() {
            before.push(clients.last())
        } else {
            before
        }
    }
}

/// The clients as mathematical values.
pub open spec fn views(clients: Seq<Client>) -> Seq<ClientView> {
    clients.map_values(|client: Client| client@)
}

/// The clients after each was handed `message` once, where `accepted` tells which channels
/// took it.
pub open spec fn told(
    clients: Seq<ClientView>,
    message: Seq<char>,
    accepted: Seq<bool>,
) -> Seq<ClientView> {
    Seq::new(clients.len(), |i: int| after_sending(clients[i], message, accepted[i]))
}

/// Keeping clients and looking at them as mathematical values can be done in either order.
proof fn lemma_kept_views(clients: Seq<Client>, accepted: Seq<bool>)
    requires
        accepted.len() == clients.len(),
    ensures
        views(kept(clients, accepted)) == kept(views(clients), accepted),
    decreases clients.len(),
{
    if clients.len() > 0 {
        lemma_kept_views(clients.drop_last(), accepted.drop_last());
        assert(views(clients).drop_last() == views(clients.drop_last()));
        if accepted.last() {
            assert(views(kept(clients, accepted)) == views(
                kept(clients.drop_last(), accepted.drop_last()),
            ).push(clients.last()@));
        }
    } else {
        assert(views(kept(clients, accepted)) == Seq::<ClientView>::empty());
    }
}

/// Adds a client behind the others and tells how many there are now.
pub fn register<C>(clients: &mut Vec<C>, client: C) -> (total: usize)
    ensures
        final(clients)@ == old(clients)@.push(client),
        total == final(clients)@.len(),
{
    clients.push(client);
    clients.len()
}

/// Opens a channel for a new client and adds the client behind the others. Returns the queue
/// of the messages for this client, and how many clients there are now.
pub fn connect(clients: &mut Vec<Client>) -> (connected: (UnboundedReceiver<Message>, usize))
    ensures
        final(clients)@.len() == old(clients)@.len() + 1,
        final(clients)@.drop_last() == old(clients)@,
        bound(final(clients)@.last()@.sender, connected.0),
        final(clients)@.last()@.handed == Seq::<(Seq<char>, bool)>::empty(),
        forall|i: int|
            0 <= i < old(clients)@.len() ==> apart(
                (#[trigger] old(clients)@[i])@.sender,
                final(clients)@.last()@.sender,
            ),
        connected.1 == final(clients)@.len(),
{
    let (tx, queue) = open_channel(clients);
    let total: usize = register(clients, Client::new(tx));
    (queue, total)
}

/// Removes the clients whose flag is not set, and returns them.
pub fn retain_accepted<C>(clients: &mut Vec<C>, accepted: &Vec<bool>) -> (removed: Vec<C>)
    requires
        accepted.len() == old(clients).len(),
    ensures
        final(clients)@ == kept(old(clients)@, accepted@),
        removed@ == kept(old(clients)@, accepted@.map_values(|taken: bool| !taken)),
{
    let ghost all = clients@;
    let ghost refused = accepted@.map_values(|taken: bool| !taken);
    let mut removed: Vec<C> = Vec::new();
    let mut seen: usize = 0;
    let mut place: usize = 0;
    assert(all.skip(0) == all);
    while seen < accepted.len()
        invariant
            seen <= accepted.len() == all.len(),
            refused == accepted@.map_values(|taken: bool| !taken),
            place == kept(all.take(seen as int), accepted@.take(seen as int)).len(),
            clients@ == kept(all.take(seen as int), accepted@.take(seen as int)) + all.skip(
                seen as int,
            ),
            removed@ == kept(all.take(seen as int), refused.take(seen as int)),
        decreases accepted.len() - seen,
    {
        let ghost before = kept(all.take(seen as int), accepted@.take(seen as int));
        proof {
            assert(all.take(seen + 1).drop_last() == all.take(seen as int));
            assert(accepted@.take(seen + 1).drop_last() == accepted@.take(seen as int));
            assert(refused.take(seen + 1).drop_last() == refused.take(seen as int));
            assert(refused.take(seen + 1).last() == !accepted@[seen as int]);
            assert(clients@[place as int] == all[seen as int]);
        }
        if accepted[seen] {
            assert(place < clients.len());
            place = place + 1;
            assert(clients@ == before.push(all[seen as int]) + all.skip(seen + 1));
        } else {
            let gone = clients.remove(place);
            removed.push(gone);
            assert(clients@ == before + all.skip(seen + 1));
        }
        seen = seen + 1;
    }
    assert(all.take(seen as int) == all);
    assert(accepted@.take(seen as int) == accepted@);
    assert(refused.take(seen as int) == refused);
    removed
}

/// Hands `message` to each client once, in their order. Returns which channels took it.
pub fn tell_each(clients: &mut Vec<Client>, message: &str) -> (accepted: Vec<bool>)
    ensures
        accepted@.len() == old(clients)@.len(),
        views(final(clients)@) == told(views(old(clients)@), message@, accepted@),
        final(clients)@.len() == old(clients)@.len(),
        forall|i: int|
            #![trigger final(clients)@[i]]
            0 <= i < old(clients)@.len() ==> {
                &&& final(clients)@[i]@.sender == old(clients)@[i]@.sender
                &&& final(clients)@[i]@.handed == old(clients)@[i]@.handed.push(
                    (message@, accepted@[i]),
                )
            },
{
    let ghost before = clients@;
    let mut accepted: Vec<bool> = Vec::new();
    let mut i: usize = 0;
    while i < clients.len()
        invariant
            i <= clients.len(),
            clients@.len() == before.len(),
            accepted@.len() == i,
            forall|j: int|
                0 <= j < i ==> (#[trigger] clients@[j])@ == after_sending(
                    before[j]@,
                    message@,
                    accepted@[j],
                ),
            forall|j: int| i <= j < clients@.len() ==> #[trigger] clients@[j] == before[j],
        decreases clients.len() - i,
    {
        let taken = send_text(&mut clients[i], message);
        accepted.push(taken);
        i = i + 1;
    }
    accepted
}

/// Hands `message` to each client once, in their order, and removes the clients whose channel
/// did not take it. Returns which channels took it, and the clients that were removed.
pub fn broadcast(clients: &mut Vec<Client>, message: &str) -> (outcome: (Vec<bool>, Vec<Client>))
    ensures
        outcome.0@.len() == old(clients)@.len(),
        views(final(clients)@) == kept(
            told(views(old(clients)@), message@, outcome.0@),
            outcome.0@,
        ),
        views(outcome.1@) == kept(
            told(views(old(clients)@), message@, outcome.0@),
            outcome.0@.map_values(|taken: bool| !taken),
        ),
{
    let accepted = tell_each(clients, message);
    proof {
        lemma_kept_views(clients@, accepted@);
        lemma_kept_views(clients@, accepted@.map_values(|taken: bool| !taken));
    }
    let removed = retain_accepted(clients, &accepted);
    (accepted, removed)
}

} // verus!
