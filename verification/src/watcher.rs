//! What becomes of the events that the file watcher reports.
use vstd::prelude::*;

use crate::events::{send_event, Events, EventsView};

verus! {

/// An error of the file watcher, as an opaque type.
#[verifier::external_type_specification]
#[verifier::external_body]
pub struct ExWatchError(notify::Error);

/// What became of a report of the watcher.
pub enum Report {
    /// The event went to so many subscribers.
    Forwarded(usize),
    /// No one was subscribed: the event comes back.
    Unheard(notify::Event),
    /// The watcher failed.
    Failed(notify::Error),
}

/// The report on an event whose sending ended in `outcome`.
pub open spec fn report_of(outcome: Result<usize, notify::Event>) -> Report {
    match outcome {
        Ok(count) => Report::Forwarded(count),
        Err(event) => Report::Unheard(event),
    }
}

/// Whether `found` was passed on as it has to be: an event is handed to the channel once, and
/// the report is the channel's own outcome; an error leaves the channel alone.
pub open spec fn passed_on(
    before: EventsView,
    found: Result<notify::Event, notify::Error>,
    after: EventsView,
    report: Report,
) -> bool {
    match found {
        Ok(event) => {
            &&& after.sender == before.sender
            &&& after.sent.len() == before.sent.len() + 1
            &&& after.sent.drop_last() == before.sent
            &&& after.sent.last().0 == event
            &&& match after.sent.last().1 {
                Some(count) => count > 0 && report == Report::Forwarded(count),
                None => report == Report::Unheard(event),
            }
        },
        Err(error) => after == before && report == Report::Failed(error),
    }
}

/// Reports how sending an event ended.
pub fn report(outcome: Result<usize, notify::Event>) -> (report: Report)
    ensures
        report == report_of(outcome),
        match outcome {
            Ok(count) => report == Report::Forwarded(count),
            Err(event) => report == Report::Unheard(event),
        },
{
    match outcome {
        Ok(count) => Report::Forwarded(count),
        Err(event) => Report::Unheard(event),
    }
}

/// Passes an event of the watcher on to the subscribers; an error is reported and goes no
/// further.
pub fn forward_event(
    events: &mut Events,
    found: Result<notify::Event, notify::Error>,
) -> (outcome: Report)
    ensures
        passed_on(old(events)@, found, final(events)@, outcome),
        found is Err ==> *final(events) == *old(events),
        match found {
            Ok(event) => match outcome {
                Report::Forwarded(count) => count > 0 && final(events)@.sent
                    == old(events)@.sent.push((event, Some(count))),
                Report::Unheard(returned) => returned == event && final(events)@.sent
                    == old(events)@.sent.push((event, None)),
                Report::Failed(_) => false,
            },
            Err(error) => outcome == Report::Failed(error),
        },
{
    match found {
        Ok(event) => {
            let ghost before = events@.sent;
            let outcome = report(send_event(events, event));
            assert(events@.sent.drop_last() == before);
            assert(events@.sent == before.push(events@.sent.last()));
            outcome
        },
        Err(error) => Report::Failed(error),
    }
}

} // verus!
