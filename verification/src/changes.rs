//! The receiving end for file changes, with a record of how looks for a change ended.
//!
//! The record exists in proofs only. It holds the looks that are made here, each as it ended.
//! Changes that are received on the receiver itself, as by a task that waits for one, are not in
//! it.
use tokio::sync::broadcast::error::TryRecvError;
use tokio::sync::broadcast::Receiver;
use vstd::prelude::*;

verus! {

/// The receiving half of a `tokio` broadcast channel, as an opaque type.
#[verifier::external_type_specification]
#[verifier::external_body]
#[verifier::reject_recursive_types(T)]
pub struct ExBroadcastReceiver<T>(tokio::sync::broadcast::Receiver<T>);

/// How a look for a change ended.
#[derive(Clone, Copy, Debug, PartialEq, Eq, Structural)]
pub enum Drained {
    /// A change was there: it is taken.
    Taken,
    /// No change was there.
    Empty,
    /// The channel is closed.
    Closed,
    /// So many changes were overwritten: those that came after them are still there.
    Overwritten(u64),
}

/// The receiving end for file changes.
pub struct Changes {
    /// The receiver itself, to wait on.
    pub rx: Receiver<notify::Event>,
    looks: Ghost<Seq<Drained>>,
}

impl Changes {
    /// How the looks that were made through this end have ended, so far.
    pub closed spec fn looks(&self) -> Seq<Drained> {
        self.looks@
    }

    /// The receiver.
    pub closed spec fn receiver(&self) -> Receiver<notify::Event> {
        self.rx
    }

    /// A receiving end through which no one looked for a change yet.
    pub fn new(rx: Receiver<notify::Event>) -> (changes: Changes)
        ensures
            changes.receiver() == rx,
            changes.looks() == Seq::<Drained>::empty(),
    {
        Changes { rx, looks: Ghost(Seq::empty()) }
    }
}

/// The receiver's cursor: the position in the channel of the change that it reads next.
pub uninterp spec fn cursor(rx: Receiver<notify::Event>) -> u64;

/// The position `count` behind `position`. Positions wrap around.
pub open spec fn advanced(position: u64, count: u64) -> int {
    (position + count) % 0x1_0000_0000_0000_0000
}

/// Whether a look that ended in `look` may move the cursor from `before` to `after`: past the
/// change that it took, past those that were overwritten, and nowhere where there was none.
pub open spec fn cursor_moved(before: u64, look: Drained, after: u64) -> bool {
    match look {
        Drained::Taken => after == advanced(before, 1),
        Drained::Empty => after == before,
        Drained::Overwritten(count) => count > 0 && after == advanced(before, count),
        Drained::Closed => true,
    }
}

/// Calls `tokio::sync::broadcast::Receiver::try_recv`, drops the change that it receives, and
/// tells its outcomes apart.
///
/// Believed: the receiver is asked once, the look ended so, and the cursor, which is the
/// receiver's own, moved as the look says. Which outcome it is, other tasks decide: so no
/// clause says when. Of the cursor on a closed channel nothing is said: it stays where it is
/// unless the slot that it points at is empty.
#[verifier::external_body]
pub(crate) fn try_receive(changes: &mut Changes) -> (look: Drained)
    ensures
        final(changes).looks() == old(changes).looks().push(look),
        cursor_moved(cursor(old(changes).receiver()), look, cursor(final(changes).receiver())),
{
    match changes.rx.try_recv() {
        Ok(_) => Drained::Taken,
        Err(TryRecvError::Empty) => Drained::Empty,
        Err(TryRecvError::Closed) => Drained::Closed,
        Err(TryRecvError::Lagged(count)) => Drained::Overwritten(count),
    }
}

} // verus!
