use axum::extract::ws::Message;
use liveserve_rs::changes::{Changes, Drained};
use liveserve_rs::client::Client;
use liveserve_rs::clients::{broadcast, connect, register, retain_accepted, tell_each};
use liveserve_rs::events::Events;
use liveserve_rs::reload::{
    drain_one, setup_websocket_broadcast, BroadcastAction, BroadcastEvent, BroadcastTask,
};
use liveserve_rs::script::live_reload_script;
use liveserve_rs::settings::{
    decimal, serving_line, DEFAULT_PORT, DEFAULT_ROOT, DEFAULT_SPA_ENTRY,
};
use liveserve_rs::socket::{forward_queued, forward_sent, keep_listening, Incoming, Outgoing};
use liveserve_rs::watcher::{forward_event, report, Report};
use notify::event::{CreateKind, ModifyKind};
use notify::{Event, EventKind};

fn change() -> Event {
    Event::new(EventKind::Modify(ModifyKind::Any))
}

/// Runs the task on the changes that are in the channel until it waits again; returns which
/// clients took the message, for each time that they were handed one. The first changes are in
/// the channel when the task starts, `meanwhile` come in while it waits.
fn run_until_idle(
    changes: &mut Changes,
    clients: &mut Vec<Client>,
    meanwhile: &mut dyn FnMut(),
) -> (BroadcastTask, Vec<Vec<bool>>) {
    let mut task = setup_websocket_broadcast();
    let mut rounds: Vec<Vec<bool>> = Vec::new();
    loop {
        let event = match task.action() {
            BroadcastAction::Receive => match changes.rx.try_recv() {
                Ok(_) => BroadcastEvent::of_receive(true),
                Err(tokio::sync::broadcast::error::TryRecvError::Empty) => return (task, rounds),
                Err(_) => BroadcastEvent::of_receive(false),
            },
            BroadcastAction::Sleep(millis) => {
                assert_eq!(millis, 100);
                meanwhile();
                BroadcastEvent::Slept
            }
            BroadcastAction::TryReceive => drain_one(changes),
            BroadcastAction::Send(message) => {
                assert_eq!(message, "rld");
                rounds.push(broadcast(clients, &message).0);
                BroadcastEvent::Reloaded
            }
            BroadcastAction::Stop => return (task, rounds),
        };
        task = task.step(event);
    }
}

#[test]
fn test_setup_websocket_broadcast_keeps_clients() {
    let (tx, rx) = tokio::sync::broadcast::channel::<Event>(16);
    let mut changes = Changes::new(rx);
    let mut ws_clients: Vec<Client> = Vec::new();
    let (client_tx, mut client_rx) = tokio::sync::mpsc::unbounded_channel::<Message>();
    assert_eq!(register(&mut ws_clients, Client::new(client_tx)), 1);

    tx.send(change()).unwrap();
    let (task, rounds) = run_until_idle(&mut changes, &mut ws_clients, &mut || {});

    assert_eq!(task, BroadcastTask::Receiving);
    assert_eq!(rounds.len(), 1);
    let msg = client_rx.try_recv().unwrap();
    assert_eq!(msg, Message::Text("rld".into()));
    assert!(client_rx.try_recv().is_err());
    assert_eq!(ws_clients.len(), 1);
}

#[test]
fn test_setup_file_watcher_receives_event() {
    let (tx, mut rx) = tokio::sync::broadcast::channel(16);
    let event = change();
    match forward_event(&mut Events::new(tx), Ok(event.clone())) {
        Report::Forwarded(subscribers) => assert_eq!(subscribers, 1),
        _ => panic!("the event was not forwarded"),
    }
    let received_event = rx.try_recv().unwrap();
    assert_eq!(received_event.kind, event.kind);
}

#[test]
fn events_without_subscribers_come_back() {
    let (tx, rx) = tokio::sync::broadcast::channel(16);
    drop(rx);
    match forward_event(&mut Events::new(tx), Ok(change())) {
        Report::Unheard(event) => assert_eq!(event.kind, change().kind),
        _ => panic!("nobody could have heard"),
    }
}

#[test]
fn forwarding_goes_on_after_unheard_events_and_errors() {
    let (tx, rx0) = tokio::sync::broadcast::channel::<Event>(16);
    drop(rx0);
    let mut events = Events::new(tx.clone());
    let first = Event::new(EventKind::Create(CreateKind::Any));
    assert!(matches!(forward_event(&mut events, Ok(first)), Report::Unheard(_)));
    let mut rx = tx.subscribe();
    let error = Err(notify::Error::generic("x"));
    assert!(matches!(forward_event(&mut events, error), Report::Failed(_)));
    assert!(matches!(forward_event(&mut events, Ok(change())), Report::Forwarded(1)));
    assert_eq!(rx.try_recv().unwrap().kind, change().kind);
    assert!(rx.try_recv().is_err());
}

#[test]
fn watch_errors_are_not_forwarded() {
    let (tx, mut rx) = tokio::sync::broadcast::channel::<Event>(16);
    match forward_event(&mut Events::new(tx), Err(notify::Error::generic("gone"))) {
        Report::Failed(error) => assert!(error.to_string().contains("gone")),
        _ => panic!("an error is no event"),
    }
    assert!(rx.try_recv().is_err());
    match report(Ok(3)) {
        Report::Forwarded(subscribers) => assert_eq!(subscribers, 3),
        _ => panic!("it was sent"),
    }
}

#[test]
fn a_burst_of_changes_reloads_once() {
    let (tx, rx) = tokio::sync::broadcast::channel::<Event>(16);
    let mut clients: Vec<Client> = Vec::new();
    let (client_tx, mut client_rx) = tokio::sync::mpsc::unbounded_channel::<Message>();
    register(&mut clients, Client::new(client_tx));
    for _ in 0..9 {
        tx.send(change()).unwrap();
    }
    let (task, rounds) = run_until_idle(&mut Changes::new(rx), &mut clients, &mut || {});
    assert_eq!(task, BroadcastTask::Receiving);
    assert_eq!(rounds.len(), 1);
    assert_eq!(client_rx.try_recv().unwrap(), Message::Text("rld".into()));
    assert!(client_rx.try_recv().is_err());
}

#[test]
fn draining_takes_one_change_at_a_time() {
    let (tx, rx) = tokio::sync::broadcast::channel::<Event>(16);
    let mut changes = Changes::new(rx);
    tx.send(change()).unwrap();
    tx.send(change()).unwrap();
    assert_eq!(changes.rx.len(), 2);
    assert_eq!(drain_one(&mut changes), BroadcastEvent::Pending);
    assert_eq!(changes.rx.len(), 1);
    assert_eq!(drain_one(&mut changes), BroadcastEvent::Pending);
    assert_eq!(changes.rx.len(), 0);
    assert_eq!(drain_one(&mut changes), BroadcastEvent::NonePending);
    tx.send(change()).unwrap();
    drop(tx);
    assert_eq!(drain_one(&mut changes), BroadcastEvent::Pending);
    assert_eq!(drain_one(&mut changes), BroadcastEvent::NonePending);
}

#[test]
fn looks_for_changes_are_told_apart() {
    assert_eq!(BroadcastEvent::of_look(Drained::Taken), BroadcastEvent::Pending);
    assert_eq!(BroadcastEvent::of_look(Drained::Overwritten(3)), BroadcastEvent::Pending);
    assert_eq!(BroadcastEvent::of_look(Drained::Empty), BroadcastEvent::NonePending);
    assert_eq!(BroadcastEvent::of_look(Drained::Closed), BroadcastEvent::NonePending);
}

#[test]
fn overwritten_changes_are_drained_too() {
    let (tx, rx) = tokio::sync::broadcast::channel::<Event>(16);
    let mut clients: Vec<Client> = Vec::new();
    let (mut queue, _) = connect(&mut clients);
    tx.send(change()).unwrap();
    let (task, rounds) = run_until_idle(&mut Changes::new(rx), &mut clients, &mut || {
        for _ in 0..17 {
            tx.send(change()).unwrap();
        }
    });
    assert_eq!(task, BroadcastTask::Receiving);
    assert_eq!(rounds, vec![vec![true]]);
    assert_eq!(queue.try_recv().unwrap(), Message::Text("rld".into()));
    assert!(queue.try_recv().is_err());
}

#[test]
fn a_closed_channel_stops_the_task() {
    let (tx, rx) = tokio::sync::broadcast::channel::<Event>(16);
    drop(tx);
    let mut clients: Vec<Client> = Vec::new();
    let (task, rounds) = run_until_idle(&mut Changes::new(rx), &mut clients, &mut || {});
    assert_eq!(task, BroadcastTask::Stopped);
    assert!(rounds.is_empty());
    assert_eq!(task.step(BroadcastEvent::Received), BroadcastTask::Stopped);
    assert_eq!(task.action(), BroadcastAction::Stop);
}

#[test]
fn overwritten_changes_stop_the_task() {
    let (tx, rx) = tokio::sync::broadcast::channel::<Event>(2);
    for _ in 0..5 {
        tx.send(change()).unwrap();
    }
    let mut clients: Vec<Client> = Vec::new();
    let (task, _) = run_until_idle(&mut Changes::new(rx), &mut clients, &mut || {});
    assert_eq!(task, BroadcastTask::Stopped);
}

#[test]
fn unexpected_events_change_nothing() {
    assert_eq!(BroadcastTask::Receiving.step(BroadcastEvent::Slept), BroadcastTask::Receiving);
    assert_eq!(BroadcastTask::Debouncing.step(BroadcastEvent::Received), BroadcastTask::Debouncing);
    assert_eq!(BroadcastTask::Draining.step(BroadcastEvent::Pending), BroadcastTask::Draining);
}

#[test]
fn disconnected_clients_are_removed() {
    let (first, mut first_rx) = tokio::sync::mpsc::unbounded_channel::<Message>();
    let (second, second_rx) = tokio::sync::mpsc::unbounded_channel::<Message>();
    let (third, mut third_rx) = tokio::sync::mpsc::unbounded_channel::<Message>();
    let mut clients = vec![Client::new(first), Client::new(second), Client::new(third)];
    drop(second_rx);
    let (accepted, removed) = broadcast(&mut clients, "rld");
    assert_eq!(accepted, vec![true, false, true]);
    assert_eq!(removed.len(), 1);
    assert_eq!(clients.len(), 2);
    assert_eq!(first_rx.try_recv().unwrap(), Message::Text("rld".into()));
    assert_eq!(third_rx.try_recv().unwrap(), Message::Text("rld".into()));
    drop(first_rx);
    assert_eq!(broadcast(&mut clients, "again").0, vec![false, true]);
    assert_eq!(clients.len(), 1);
    assert_eq!(third_rx.try_recv().unwrap(), Message::Text("again".into()));
}

#[test]
fn telling_the_clients_removes_none() {
    let mut clients: Vec<Client> = Vec::new();
    let (first, _) = connect(&mut clients);
    let (mut second, _) = connect(&mut clients);
    drop(first);
    assert_eq!(tell_each(&mut clients, "hello"), vec![false, true]);
    assert_eq!(clients.len(), 2);
    assert_eq!(second.try_recv().unwrap(), Message::Text("hello".into()));
}

#[test]
fn connected_clients_get_their_own_queue() {
    let mut clients: Vec<Client> = Vec::new();
    let (mut first, total) = connect(&mut clients);
    assert_eq!(total, 1);
    broadcast(&mut clients, "one");
    let (mut second, total) = connect(&mut clients);
    assert_eq!(total, 2);
    broadcast(&mut clients, "two");
    assert_eq!(first.try_recv().unwrap(), Message::Text("one".into()));
    assert_eq!(first.try_recv().unwrap(), Message::Text("two".into()));
    assert_eq!(second.try_recv().unwrap(), Message::Text("two".into()));
    assert!(second.try_recv().is_err());
    drop(first);
    broadcast(&mut clients, "three");
    assert_eq!(clients.len(), 1);
}

#[test]
fn accepted_clients_stay_in_order() {
    let mut clients: Vec<u32> = vec![10, 20, 30, 40];
    assert_eq!(retain_accepted(&mut clients, &vec![false, true, true, false]), vec![10, 40]);
    assert_eq!(clients, vec![20, 30]);
    retain_accepted(&mut clients, &vec![true, true]);
    assert_eq!(clients, vec![20, 30]);
    retain_accepted(&mut clients, &vec![false, false]);
    assert!(clients.is_empty());
    assert_eq!(register(&mut clients, 50), 1);
    assert_eq!(register(&mut clients, 60), 2);
    assert_eq!(clients, vec![50, 60]);
}

#[test]
fn queued_messages_are_forwarded_until_one_fails() {
    let queue = ["a", "b", "c", "d"];
    let mut sent: Vec<&str> = Vec::new();
    let mut place: usize = 0;
    let mut next: Outgoing<&str> = Outgoing::Receive;
    loop {
        next = match next {
            Outgoing::Receive => {
                place += 1;
                forward_queued(queue.get(place - 1).copied())
            }
            Outgoing::Send(message) => {
                sent.push(message);
                forward_sent(message != "c")
            }
            Outgoing::Stop => break,
        };
    }
    assert_eq!(sent, vec!["a", "b", "c"]);
    assert!(matches!(forward_queued::<u8>(None), Outgoing::Stop));
}

#[test]
fn listening_ends_with_the_connection() {
    assert!(keep_listening(Incoming::Message));
    assert!(!keep_listening(Incoming::Failed));
    assert!(!keep_listening(Incoming::Closed));
}

#[test]
fn default_settings() {
    assert_eq!(DEFAULT_PORT, 8080);
    assert_eq!(DEFAULT_ROOT, "./public");
    assert_eq!(DEFAULT_SPA_ENTRY, "index.html");
    assert_eq!(
        serving_line(DEFAULT_PORT, DEFAULT_SPA_ENTRY),
        "Serving at http://0.0.0.0:8080/index.html"
    );
    for port in [0u16, 7, 10, 80, 3000, 65535] {
        assert_eq!(decimal(port), port.to_string());
    }
}

#[test]
fn the_script_is_complete() {
    let expected = r#"
<script>
    console.log("JS Script Injected");
    (function() {
        function connect() {
            console.log("Before connect() call");
            const socket = new WebSocket(`ws://${window.location.host}/ws`);
            console.log("Connecting to WebSocket...");
            socket.onopen = () => {
                console.log('WebSocket connection opened');
            };
            socket.onmessage = (event) => {
                console.log("WebSocket message received (raw data):", event.data);
                console.log("Type of event.data:", typeof event.data);
                const messageData = String(event.data);
                console.log("WebSocket message as String:", messageData);
                if (messageData === "rld") {
                    console.log("Entering reload block");
                    console.log("Reloading page NOW... (HARD RELOAD)");
                    console.log("Page reload function called (HARD RELOAD)");
                    // Only reload if not already in the process of reloading
                    window.location.reload(true);
                } else {
                    console.log("Received message is NOT 'rld':", messageData);
                }
            };
            socket.onclose = () => {
                console.log("WebSocket disconnected, attempting to reconnect...");
                setTimeout(connect, 1000);
            };
            socket.onerror = (error) => {
                console.error('WebSocket error:', error);
                console.error('WebSocket onerror event:', event);
                console.error('WebSocket onerror type:', typeof error);
            };
        }
        connect();
    })();
</script>
"#;
    assert_eq!(live_reload_script(), expected);
}
