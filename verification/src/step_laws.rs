//! What holds of single steps: of the reload task, of the connections, of the file watcher and
//! of the announcement.
use vstd::prelude::*;

use crate::changes::{advanced, cursor_moved, Drained};
use crate::client::{after_sending, Client, ClientView};
use crate::clients::{kept, told, views};
use crate::events::{subscribers, EventsView};
use crate::reload::{
    after_event, burst, event_of, pending_action, BroadcastAction, BroadcastActionView,
    BroadcastEvent, BroadcastTask, CHANGE_BUFFER, RELOAD_MESSAGE,
};
use crate::script::{script_text, SCRIPT_HEAD, SCRIPT_MIDDLE, SCRIPT_TAIL, WS_ROUTE};
use crate::settings::{
    decimal_text, DEFAULT_PORT, DEFAULT_ROOT, DEFAULT_SPA_ENTRY, FILE_ROUTE,
};
use crate::socket::{after_queued, after_sent, Outgoing};
use crate::watcher::{passed_on, report_of, Report};

verus! {

// ---------------------------------------------------------------------------------------
// The reload task
// ---------------------------------------------------------------------------------------

/// The task goes round: it receives, sleeps for a tenth of a second, looks for further changes
/// until there are none, sends the reload message and receives again. Where receiving fails it
/// stops. An event that does not belong to what the task has to do changes nothing.
pub proof fn law_the_task_goes_round(task: BroadcastTask, event: BroadcastEvent)
    ensures
        ({
            let next = after_event(task, event);
            match pending_action(task) {
                BroadcastActionView::Receive => if event is Received {
                    pending_action(next) == BroadcastActionView::Sleep(100)
                } else if event is ReceiveFailed {
                    pending_action(next) is Stop
                } else {
                    next == task
                },
                BroadcastActionView::Sleep(_) => if event is Slept {
                    pending_action(next) is TryReceive
                } else {
                    next == task
                },
                BroadcastActionView::TryReceive => if event is NonePending {
                    pending_action(next) == BroadcastActionView::Send("rld"@)
                } else {
                    next == task
                },
                BroadcastActionView::Send(_) => if event is Reloaded {
                    pending_action(next) is Receive
                } else {
                    next == task
                },
                BroadcastActionView::Stop => next == task,
            }
        }),
        pending_action(BroadcastTask::Receiving) is Receive,
{
}

/// What the task has to do tells where it stands.
pub proof fn law_actions_tell_tasks_apart(a: BroadcastTask, b: BroadcastTask)
    requires
        pending_action(a) == pending_action(b),
    ensures
        a == b,
{
}

/// What is stated of an action as a mathematical value is stated of the action.
pub proof fn law_actions_are_what_they_hold(action: BroadcastAction)
    ensures
        action is Receive <==> action@ is Receive,
        action is TryReceive <==> action@ is TryReceive,
        action is Stop <==> action@ is Stop,
        action matches BroadcastAction::Sleep(millis) ==> action@ == BroadcastActionView::Sleep(
            millis,
        ),
        action matches BroadcastAction::Send(message) ==> action@ == BroadcastActionView::Send(
            message@,
        ),
{
}

/// A look ends the search for changes if and only if there was nothing to take: the channel was
/// empty or closed.
pub proof fn law_looks_end_where_nothing_is_left(look: Drained)
    ensures
        event_of(look) == BroadcastEvent::NonePending <==> look is Empty || look is Closed,
        event_of(look) == BroadcastEvent::Pending <==> look is Taken || look is Overwritten,
{
}

/// A burst is a change, a wait, and then one event for each look.
pub proof fn law_a_burst_is_its_looks(looks: Seq<Drained>)
    ensures
        burst(looks).len() == looks.len() + 2,
        burst(looks)[0] is Received,
        burst(looks)[1] is Slept,
        forall|i: int| 0 <= i < looks.len() ==> burst(looks)[i + 2] == event_of(#[trigger] looks[i]),
{
}

/// The cursor moves past exactly as many changes as a look took or found overwritten. It moves
/// at all only where there were such changes, unless the channel is closed.
pub proof fn law_looks_move_the_cursor(before: u64, look: Drained, after: u64)
    ensures
        look is Empty ==> (cursor_moved(before, look, after) <==> after == before),
        look is Taken && before < u64::MAX ==> (cursor_moved(before, look, after) <==> after
            == before + 1),
        look is Taken && before == u64::MAX ==> (cursor_moved(before, look, after) <==> after
            == 0),
        look matches Drained::Overwritten(count) ==> (cursor_moved(before, look, after) <==> count
            > 0 && (after == before + count || after == before + count - u64::MAX - 1)),
{
    if let Drained::Overwritten(count) = look {
        let sum = before + count;
        if sum <= u64::MAX {
            assert(advanced(before, count) == sum);
        } else {
            assert(advanced(before, count) == sum - 0x1_0000_0000_0000_0000);
        }
    }
}

// ---------------------------------------------------------------------------------------
// Connections
// ---------------------------------------------------------------------------------------

/// To hand a client a text adds one entry to the client's record, that text with whether the
/// channel took it, and changes nothing else.
pub proof fn law_sending_is_recorded_once(client: ClientView, text: Seq<char>, accepted: bool)
    ensures
        after_sending(client, text, accepted).sender == client.sender,
        after_sending(client, text, accepted).handed.len() == client.handed.len() + 1,
        after_sending(client, text, accepted).handed.drop_last() == client.handed,
        after_sending(client, text, accepted).handed.last() == (text, accepted),
{
    assert(client.handed.push((text, accepted)).drop_last() == client.handed);
}

/// When the clients are told a message, none is added, none is lost and none changes places.
/// Each keeps its channel, and its record grows by that message.
pub proof fn law_telling_reaches_each_client(
    clients: Seq<ClientView>,
    message: Seq<char>,
    accepted: Seq<bool>,
)
    requires
        accepted.len() == clients.len(),
    ensures
        told(clients, message, accepted).len() == clients.len(),
        forall|i: int|
            #![trigger told(clients, message, accepted)[i]]
            0 <= i < clients.len() ==> {
                &&& told(clients, message, accepted)[i].sender == clients[i].sender
                &&& told(clients, message, accepted)[i].handed == clients[i].handed.push(
                    (message, accepted[i]),
                )
            },
{
}

/// What is stated of the clients as mathematical values is stated of each client, in its place.
pub proof fn law_views_are_the_clients(clients: Seq<Client>)
    ensures
        views(clients).len() == clients.len(),
        forall|i: int| 0 <= i < clients.len() ==> #[trigger] views(clients)[i] == clients[i]@,
{
}

/// Of the clients of two groups, one behind the other, those stay that stay of the one, then
/// those that stay of the other.
pub proof fn law_groups_of_clients_stay_apart<C>(
    a: Seq<C>,
    b: Seq<C>,
    taken_a: Seq<bool>,
    taken_b: Seq<bool>,
)
    requires
        taken_a.len() == a.len(),
        taken_b.len() == b.len(),
    ensures
        kept(a + b, taken_a + taken_b) == kept(a, taken_a) + kept(b, taken_b),
    decreases b.len(),
{
    if b.len() == 0 {
        assert(a + b == a);
        assert(taken_a + taken_b == taken_a);
        assert(kept(a, taken_a) + kept(b, taken_b) == kept(a, taken_a));
    } else {
        assert((a + b).drop_last() == a + b.drop_last());
        assert((taken_a + taken_b).drop_last() == taken_a + taken_b.drop_last());
        law_groups_of_clients_stay_apart(a, b.drop_last(), taken_a, taken_b.drop_last());
    }
}

/// A single client stays if and only if its channel took the message.
pub proof fn law_a_client_stays_if_it_took_the_message<C>(client: C, taken: bool)
    ensures
        taken ==> kept(seq![client], seq![taken]) == seq![client],
        !taken ==> kept(seq![client], seq![taken]).len() == 0,
{
    assert(seq![client].drop_last() == Seq::<C>::empty());
    reveal_with_fuel(kept, 2);
}

/// A message in the queue is what is sent next; sending stops if and only if the queue is
/// closed or a message could not be sent.
pub proof fn law_forwarding_stops_at_the_end<M>(queued: Option<M>, sent: bool)
    ensures
        queued matches Some(message) ==> after_queued(queued) == Outgoing::Send(message),
        after_queued(queued) is Stop <==> queued is None,
        after_sent::<M>(sent) is Receive <==> sent,
        after_sent::<M>(sent) is Stop <==> !sent,
{
}

// ---------------------------------------------------------------------------------------
// The file watcher
// ---------------------------------------------------------------------------------------

/// An event goes to the channel and its report is true: it names the subscribers that the event
/// went to, one at least, or gives back the very event where there were none. An error is
/// reported as it is, and the channel is left alone.
pub proof fn law_reports_are_true(
    before: EventsView,
    found: Result<notify::Event, notify::Error>,
    after: EventsView,
    report: Report,
)
    requires
        passed_on(before, found, after, report),
    ensures
        found matches Ok(event) ==> {
            &&& after.sender == before.sender
            &&& exists|heard: Option<usize>|
                #![trigger before.sent.push((event, heard))]
                {
                    &&& after.sent == before.sent.push((event, heard))
                    &&& heard matches Some(count) ==> count > 0 && report == Report::Forwarded(
                        count,
                    )
                    &&& heard is None ==> report == Report::Unheard(event)
                }
        },
        found matches Err(error) ==> after == before && report == Report::Failed(error),
        report is Failed <==> found is Err,
{
    if let Ok(event) = found {
        let heard = after.sent.last().1;
        assert(after.sent == before.sent.push((event, heard)));
    }
}

/// The report on an event and the record of it agree: both have the number of subscribers, or
/// both say that there were none.
pub proof fn law_report_and_record_agree(outcome: Result<usize, notify::Event>)
    ensures
        outcome matches Ok(count) ==> report_of(outcome) == Report::Forwarded(count)
            && subscribers(outcome) == Some(count),
        outcome matches Err(event) ==> report_of(outcome) == Report::Unheard(event)
            && subscribers(outcome) is None,
{
}

// ---------------------------------------------------------------------------------------
// The announcement and the settings
// ---------------------------------------------------------------------------------------

/// The value of a decimal digit, or -1 for any other character.
pub open spec fn digit_value(c: char) -> int {
    if '0' <= c && c <= '9' {
        c as int - '0' as int
    } else {
        -1
    }
}

/// The number that decimal digits stand for.
pub open spec fn decimal_value(digits: Seq<char>) -> int
    decreases digits.len(),
{
    if digits.len() == 0 {
        0
    } else {
        10 * decimal_value(digits.drop_last()) + digit_value(digits.last())
    }
}

/// A number that is written in decimal digits is read back as itself. It is written in digits
/// alone, at least one, and starts with 0 only where it is 0.
pub proof fn law_decimals_are_read_back(n: nat)
    ensures
        decimal_value(decimal_text(n)) == n,
        decimal_text(n).len() > 0,
        forall|i: int|
            0 <= i < decimal_text(n).len() ==> 0 <= digit_value(#[trigger] decimal_text(n)[i]) <= 9,
        decimal_text(n)[0] == '0' <==> n == 0,
        n == 0 ==> decimal_text(n).len() == 1,
    decreases n,
{
    reveal_strlit("0123456789");
    let d = (n % 10) as int;
    assert(digit_value("0123456789"@[d]) == d);
    if n < 10 {
        assert(decimal_text(n).drop_last() == Seq::<char>::empty());
        reveal_with_fuel(decimal_value, 2);
    } else {
        let before = decimal_text(n / 10);
        law_decimals_are_read_back(n / 10);
        assert(decimal_text(n).drop_last() == before);
        assert forall|i: int| 0 <= i < decimal_text(n).len() implies 0 <= digit_value(
            #[trigger] decimal_text(n)[i],
        ) <= 9 by {
            if i < before.len() {
                assert(decimal_text(n)[i] == before[i]);
            }
        }
        assert(decimal_text(n)[0] == before[0]);
    }
}

/// The script is its three pieces with the server's route and the reload message between them,
/// and nothing else.
pub proof fn law_the_script_is_whole()
    ensures
        SCRIPT_HEAD@.is_prefix_of(script_text()),
        SCRIPT_TAIL@.is_suffix_of(script_text()),
        script_text() == SCRIPT_HEAD@ + "/ws"@ + SCRIPT_MIDDLE@ + "rld"@ + SCRIPT_TAIL@,
{
}

/// The settings that hold where the user gives none, and what the parts of the server agree on.
pub proof fn law_settings()
    ensures
        DEFAULT_PORT == 8080,
        DEFAULT_ROOT@ == "./public"@,
        DEFAULT_SPA_ENTRY@ == "index.html"@,
        FILE_ROUTE@ == "/*path"@,
        WS_ROUTE@ == "/ws"@,
        RELOAD_MESSAGE@ == "rld"@,
        CHANGE_BUFFER == 16,
{
}

} // verus!
