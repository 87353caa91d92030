//! The life of the shared socket, step by step.

use std::time::Duration;

use rust_applesauce::socket::{
    actor_step, deliver_filtered, queued, ActorEvent, ActorStep, Command, ConnectStep, Delivery,
    DropGuard, Order, Received, SocketError, SocketSender, DEFAULT_KEEP_ALIVE,
};
use rust_applesauce::RelaySocket;

const URL: &str = "wss://relay.example";

/// Opens a channel whose first message is accepted.
fn open(socket: &mut RelaySocket, connection: u64) -> (DropGuard, SocketSender) {
    socket.multiplex(connection, "open".into(), "close".into(), |_| true).unwrap()
}

/// Drops a channel, and gives the number of the timer that this starts.
fn drop_channel(socket: &mut RelaySocket, channel: (DropGuard, SocketSender)) -> Option<u64> {
    channel.0.release(socket).timer.map(|(number, _)| number)
}

fn is_disconnect(order: Option<Order>, number: u64) -> bool {
    matches!(order, Some(Order { connection, command: Command::Disconnect }) if connection == number)
}

#[test]
fn fresh_socket_is_not_connected() {
    let socket = RelaySocket::new(URL);
    assert_eq!(socket.url(), URL);
    assert!(!socket.is_connected());
    assert_eq!(socket.channel_count(), 0);
}

#[test]
fn timer_runs_for_the_keep_alive_duration() {
    let mut socket = RelaySocket::new(URL);
    let (guard, _) = open(&mut socket, 1);
    assert_eq!(guard.release(&mut socket).timer, Some((0, Duration::from_secs(30))));
    assert_eq!(DEFAULT_KEEP_ALIVE, 30);
    let mut socket = RelaySocket::with_keep_alive(URL, Duration::from_millis(100));
    let (guard, _) = open(&mut socket, 1);
    assert_eq!(guard.release(&mut socket).timer, Some((0, Duration::from_millis(100))));
}

#[test]
fn connects_on_first_use() {
    let mut socket = RelaySocket::new(URL);
    assert!(matches!(socket.ensure_connected(), ConnectStep::Dial(url) if url == URL));
    assert!(!socket.is_connected());
    assert!(matches!(socket.dialed(Ok(7)), Ok(7)));
    assert!(socket.is_connected());
    assert!(matches!(socket.ensure_connected(), ConnectStep::Ready(7)));
}

#[test]
fn concurrent_uses_share_one_connection() {
    let mut socket = RelaySocket::new(URL);
    assert!(matches!(socket.ensure_connected(), ConnectStep::Dial(_)));
    assert!(matches!(socket.ensure_connected(), ConnectStep::Wait));
    assert!(matches!(socket.ensure_connected(), ConnectStep::Wait));
    assert!(!socket.is_connected());
    assert!(matches!(socket.dialed(Ok(1)), Ok(1)));
    assert!(matches!(socket.ensure_connected(), ConnectStep::Ready(1)));
    assert!(matches!(socket.ensure_connected(), ConnectStep::Ready(1)));
}

#[test]
fn next_use_dials_after_a_failure() {
    let mut socket = RelaySocket::new(URL);
    assert!(matches!(socket.ensure_connected(), ConnectStep::Dial(_)));
    assert!(matches!(socket.ensure_connected(), ConnectStep::Wait));
    assert!(socket.dialed(Err("refused".into())).is_err());
    assert!(matches!(socket.ensure_connected(), ConnectStep::Dial(_)));
    assert!(matches!(socket.ensure_connected(), ConnectStep::Wait));
}

#[test]
fn unasked_connection_gives_way_to_the_one_in_use() {
    let mut socket = RelaySocket::new(URL);
    assert!(matches!(socket.dialed(Ok(1)), Ok(1)));
    assert!(matches!(socket.dialed(Ok(2)), Ok(1)));
    assert!(matches!(socket.ensure_connected(), ConnectStep::Ready(1)));
}

#[test]
fn lost_connection_is_replaced() {
    let mut socket = RelaySocket::new(URL);
    assert!(matches!(socket.ensure_connected(), ConnectStep::Dial(_)));
    socket.dialed(Ok(1)).unwrap();
    let channel = open(&mut socket, 1);
    socket.connection_lost(1);
    assert!(!socket.is_connected());
    assert_eq!(socket.channel_count(), 1);
    assert!(matches!(socket.ensure_connected(), ConnectStep::Dial(_)));
    assert!(matches!(socket.dialed(Ok(2)), Ok(2)));
    assert!(matches!(socket.ensure_connected(), ConnectStep::Ready(2)));
    // A report on a connection that is no longer in use changes nothing.
    socket.connection_lost(1);
    assert!(matches!(socket.ensure_connected(), ConnectStep::Ready(2)));
    assert!(drop_channel(&mut socket, channel).is_some());
}

#[test]
fn failed_connection_changes_nothing() {
    let mut socket = RelaySocket::new(URL);
    match socket.dialed(Err("refused".into())) {
        Err(error) => assert_eq!(error.message(), "WebSocket connect error: refused"),
        Ok(_) => panic!("expected an error"),
    }
    assert!(!socket.is_connected());
    assert_eq!(socket.channel_count(), 0);
}

#[test]
fn connect_keeps_only_the_error() {
    assert!(RelaySocket::connect(Ok(3)).is_ok());
    assert!(matches!(
        RelaySocket::connect(Err(SocketError::Connect("no".into()))),
        Err(SocketError::Connect(message)) if message == "no"
    ));
}

#[test]
fn channel_sends_its_first_message() {
    let mut socket = RelaySocket::new(URL);
    let mut orders = vec![];
    let channel = socket.multiplex(4, "hello".into(), "bye".into(), |order| {
        orders.push(order);
        true
    });
    assert!(channel.is_ok());
    assert_eq!(orders.len(), 1);
    assert_eq!(orders[0].connection, 4);
    assert!(matches!(&orders[0].command, Command::Send(text) if text == "hello"));
    assert_eq!(socket.channel_count(), 1);
}

#[test]
fn rejected_channel_leaves_no_trace() {
    let mut socket = RelaySocket::new(URL);
    socket.dialed(Ok(1)).unwrap();
    let kept = open(&mut socket, 1);
    let rejected = socket.multiplex(1, "open".into(), "close".into(), |_| false);
    assert!(matches!(rejected, Err(SocketError::Closed)));
    assert_eq!(socket.channel_count(), 1);
    assert!(matches!(socket.multiplexed(1, "close".into(), false), Err(SocketError::Closed)));
    assert_eq!(socket.channel_count(), 1);
    // It does not keep the socket open either.
    let timer = drop_channel(&mut socket, kept).unwrap();
    assert!(socket.multiplex(1, "open".into(), "close".into(), |_| false).is_err());
    assert!(is_disconnect(socket.keep_alive_expired(timer), 1));
}

#[test]
fn last_dropped_channel_starts_the_timer() {
    let keep_alive = Duration::from_millis(100);
    let mut socket = RelaySocket::with_keep_alive(URL, keep_alive);
    socket.dialed(Ok(1)).unwrap();
    let (first, _) = open(&mut socket, 1);
    let (second, _) = open(&mut socket, 1);
    assert_eq!(socket.channel_count(), 2);

    let teardown = first.release(&mut socket);
    assert_eq!(teardown.timer, None);
    assert_eq!(teardown.order.connection, 1);
    assert!(matches!(teardown.order.command, Command::Send(text) if text == "close"));
    assert_eq!(socket.channel_count(), 1);

    let teardown = second.release(&mut socket);
    assert_eq!(teardown.timer, Some((0, keep_alive)));
    assert_eq!(socket.channel_count(), 0);
    assert!(socket.is_connected());

    assert!(is_disconnect(socket.keep_alive_expired(0), 1));
    assert!(!socket.is_connected());
    assert!(socket.keep_alive_expired(0).is_none());
}

#[test]
fn new_channel_keeps_the_socket_open() {
    let mut socket = RelaySocket::new(URL);
    socket.dialed(Ok(1)).unwrap();
    let first = open(&mut socket, 1);
    let timer = drop_channel(&mut socket, first).unwrap();
    let _second = open(&mut socket, 1);
    assert!(socket.keep_alive_expired(timer).is_none());
    assert!(socket.is_connected());
}

#[test]
fn overtaken_timer_changes_nothing() {
    let mut socket = RelaySocket::new(URL);
    socket.dialed(Ok(1)).unwrap();
    let first = open(&mut socket, 1);
    let overtaken = drop_channel(&mut socket, first).unwrap();
    let second = open(&mut socket, 1);
    let newest = drop_channel(&mut socket, second).unwrap();
    assert_ne!(overtaken, newest);
    assert!(socket.keep_alive_expired(overtaken).is_none());
    assert!(socket.is_connected());
    assert!(is_disconnect(socket.keep_alive_expired(newest), 1));
    assert!(!socket.is_connected());
}

#[test]
fn channel_ends_on_the_connection_it_was_opened_on() {
    let mut socket = RelaySocket::new(URL);
    socket.dialed(Ok(1)).unwrap();
    let (guard, sender) = open(&mut socket, 1);
    assert!(is_disconnect(socket.disconnect(), 1));
    socket.dialed(Ok(2)).unwrap();
    assert_eq!(sender.send("x".into()).connection, 1);
    assert_eq!(sender.clone().send("x".into()).connection, 1);
    assert_eq!(guard.release(&mut socket).order.connection, 1);
}

#[test]
fn disconnect_starts_afresh() {
    let mut socket = RelaySocket::new(URL);
    assert!(socket.disconnect().is_none());
    socket.dialed(Ok(1)).unwrap();
    let _open = open(&mut socket, 1);
    assert!(is_disconnect(socket.disconnect(), 1));
    assert!(!socket.is_connected());
    assert_eq!(socket.channel_count(), 0);
    assert!(matches!(socket.ensure_connected(), ConnectStep::Dial(_)));
    assert_eq!(socket.url(), URL);
}

#[test]
fn channel_dropped_after_disconnect_does_not_count() {
    let mut socket = RelaySocket::new(URL);
    socket.dialed(Ok(1)).unwrap();
    let first = open(&mut socket, 1);
    assert!(is_disconnect(socket.disconnect(), 1));
    assert_eq!(socket.channel_count(), 0);
    assert!(drop_channel(&mut socket, first).is_none());
    assert_eq!(socket.channel_count(), 0);

    socket.dialed(Ok(2)).unwrap();
    let second = open(&mut socket, 2);
    assert_eq!(socket.channel_count(), 1);
    let timer = drop_channel(&mut socket, second).unwrap();
    assert_eq!(socket.channel_count(), 0);
    assert!(is_disconnect(socket.keep_alive_expired(timer), 2));
}

#[test]
fn stale_drop_leaves_new_channels_alone() {
    let mut socket = RelaySocket::new(URL);
    socket.dialed(Ok(1)).unwrap();
    let stale = open(&mut socket, 1);
    socket.disconnect();
    socket.dialed(Ok(2)).unwrap();
    let _present = open(&mut socket, 2);
    assert!(drop_channel(&mut socket, stale).is_none());
    assert_eq!(socket.channel_count(), 1);
    assert!(socket.is_connected());
}

#[test]
fn orders_that_are_not_taken_fail() {
    assert!(queued(true).is_ok());
    match queued(false) {
        Err(error) => assert_eq!(error.message(), "WebSocket connection is closed"),
        Ok(_) => panic!("expected an error"),
    }
}

#[test]
fn frames_are_sent_as_they_are() {
    let order = RelaySocket::send(9, "[1]".into());
    assert_eq!(order.connection, 9);
    assert!(matches!(order.command, Command::Send(text) if text == "[1]"));
}

#[test]
fn connection_task_reacts() {
    assert!(matches!(
        actor_step(ActorEvent::Text("t".into())),
        ActorStep::Broadcast(text) if text == "t"
    ));
    assert!(matches!(actor_step(ActorEvent::CloseFrame), ActorStep::Stop));
    assert!(matches!(actor_step(ActorEvent::StreamEnd), ActorStep::Stop));
    assert!(matches!(actor_step(ActorEvent::ReadError), ActorStep::Stop));
    assert!(matches!(actor_step(ActorEvent::WriteError), ActorStep::Stop));
    assert!(matches!(actor_step(ActorEvent::OtherFrame), ActorStep::Continue));
    assert!(matches!(
        actor_step(ActorEvent::Command(Command::Send("t".into()))),
        ActorStep::Write(text) if text == "t"
    ));
    assert!(matches!(
        actor_step(ActorEvent::Command(Command::Disconnect)),
        ActorStep::CloseAndStop
    ));
    assert!(matches!(actor_step(ActorEvent::CommandsEnd), ActorStep::CloseAndStop));
}

#[test]
fn task_passes_texts_on_until_it_stops() {
    let events = [
        ActorEvent::Text("a".into()),
        ActorEvent::Command(Command::Send("x".into())),
        ActorEvent::OtherFrame,
        ActorEvent::Text("b".into()),
        ActorEvent::CloseFrame,
        ActorEvent::Text("c".into()),
    ];
    let (mut broadcast, mut written) = (vec![], vec![]);
    for event in events {
        match actor_step(event) {
            ActorStep::Broadcast(text) => broadcast.push(text),
            ActorStep::Write(text) => written.push(text),
            ActorStep::Continue => {}
            ActorStep::Stop | ActorStep::CloseAndStop => break,
        }
    }
    assert_eq!(broadcast, ["a", "b"]);
    assert_eq!(written, ["x"]);
}

#[test]
fn frames_are_yielded_in_order() {
    let reports = [
        Received::Text("a".into()),
        Received::Lagged(1),
        Received::Text("b".into()),
        Received::Closed,
        Received::Text("c".into()),
    ];
    let mut frames = vec![];
    for report in reports {
        match RelaySocket::messages(report) {
            Delivery::Yield(text) => frames.push(text),
            Delivery::End => break,
            _ => {}
        }
    }
    assert_eq!(frames, ["a", "b"]);
}

#[test]
fn selected_frames_are_yielded_in_order() {
    let reports = [
        Received::Text("sub1 a".into()),
        Received::Text("sub2 b".into()),
        Received::Lagged(1),
        Received::Text("c sub1".into()),
        Received::Closed,
        Received::Text("sub1 d".into()),
    ];
    let mut frames = vec![];
    for report in reports {
        match deliver_filtered(report, |text| text.contains("sub1")) {
            Delivery::Yield(text) => frames.push(text),
            Delivery::End => break,
            _ => {}
        }
    }
    assert_eq!(frames, ["sub1 a", "c sub1"]);
}

#[test]
fn all_frames_are_delivered() {
    assert!(matches!(
        RelaySocket::messages(Received::Text("t".into())),
        Delivery::Yield(text) if text == "t"
    ));
    assert!(matches!(RelaySocket::messages(Received::Lagged(3)), Delivery::Lagged(3)));
    assert!(matches!(RelaySocket::messages(Received::Closed), Delivery::End));
}

#[test]
fn channel_gets_the_frames_that_its_filter_selects() {
    let filter = |text: &str| text.contains("sub1");
    assert!(matches!(
        deliver_filtered(Received::Text(r#"["EOSE","sub1"]"#.into()), filter),
        Delivery::Yield(text) if text == r#"["EOSE","sub1"]"#
    ));
    assert!(matches!(
        deliver_filtered(Received::Text(r#"["EOSE","sub2"]"#.into()), filter),
        Delivery::Skip
    ));
    assert!(matches!(deliver_filtered(Received::Lagged(2), filter), Delivery::Lagged(2)));
    assert!(matches!(deliver_filtered(Received::Closed, filter), Delivery::End));
}
