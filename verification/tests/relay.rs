//! Subscriptions and requests, step by step.

use std::time::Duration;

use rust_applesauce::relay::{
    events, settle, until_eose, Adapted, ListenEvent, Listen, LiveSubscription, StreamItem, Waited,
    REPLY_TIMEOUT_SECS, SUBSCRIPTION_ID_LEN,
};
use rust_applesauce::socket::{
    Command, ConnectStep, Delivery, Order, Received, SocketError,
};
use rust_applesauce::text::{contains, same_text, to_chars};
use rust_applesauce::types::ParseError;
use rust_applesauce::{Filter, NostrEvent, Relay, RelayError, RelayMessage, ReqMessage};

const URL: &str = "wss://relay.damus.io";

fn note(id: &str) -> NostrEvent {
    NostrEvent {
        id: id.into(),
        pubkey: "p".into(),
        created_at: 1,
        kind: 1,
        tags: vec![],
        content: "hi".into(),
        sig: "s".into(),
    }
}

fn event_frame(sub: &str, id: &str) -> String {
    format!(
        r#"["EVENT","{sub}",{{"id":"{id}","pubkey":"p","created_at":1,"kind":1,"tags":[],"content":"hi","sig":"s"}}]"#
    )
}

/// A subscription under the given identifier, with its channel open.
fn live(id: &str) -> LiveSubscription {
    let subscription = Relay::new(URL).req(vec![Filter::default()]);
    let (opening, _) = subscription.start_with_id(id.into());
    opening.opened(Ok(())).1.unwrap()
}

/// The items of a stream: after `Open`, those for the frames, then the end.
fn stream(id: &str, frames: &[String]) -> Vec<StreamItem> {
    let subscription = Relay::new(URL).req(vec![Filter::default()]);
    let (opening, _) = subscription.start_with_id(id.into());
    let (first, rest) = opening.opened(Ok(()));
    let mut rest = rest.unwrap();
    let mut items = vec![first];
    for frame in frames {
        items.extend(rest.on_frame(frame));
    }
    items.extend(rest.on_end());
    items
}

fn is_id(text: &str) -> bool {
    text.len() == 12 && text.chars().all(|c| c.is_ascii_alphanumeric() || c == '_' || c == '-')
}

// ---------------------------------------------------------------------------
// Relay
// ---------------------------------------------------------------------------

/// Relay starts disconnected with zero subscriptions.
#[test]
fn relay_construction() {
    let relay = Relay::new("wss://relay.damus.io");
    assert_eq!(relay.url(), "wss://relay.damus.io");
    assert!(!relay.is_connected());
    assert_eq!(relay.subscription_count(), 0);
}

/// Relay with a custom keep-alive duration.
#[test]
fn relay_with_keep_alive() {
    let relay = Relay::with_keep_alive("wss://relay.damus.io", Duration::from_secs(5));
    assert_eq!(relay.url(), "wss://relay.damus.io");
    assert!(!relay.is_connected());
}

/// Calling `req` does not connect the socket.
#[test]
fn req_is_sync_and_does_not_connect() {
    let relay = Relay::new("wss://relay.damus.io");
    let _stream = relay.req(vec![Filter::default()]);
    assert!(!relay.is_connected());
    assert_eq!(relay.subscription_count(), 0);
}

/// A connection that is refused comes out as the first item of the stream.
#[test]
fn req_deferred_connect_fails_on_bad_url() {
    let mut relay = Relay::new("ws://127.0.0.1:1");
    let (opening, _) = relay.req(vec![Filter::default()]).start();
    assert!(matches!(
        relay.socket_mut().ensure_connected(),
        ConnectStep::Dial(url) if url == "ws://127.0.0.1:1"
    ));
    let outcome = relay.socket_mut().dialed(Err("Connection refused".into()));
    let (first, rest) = opening.opened(outcome.map(|_| ()));
    assert!(matches!(first, Err(RelayError::WebSocket(message)) if message == "Connection refused"));
    assert!(rest.is_none());
    assert_eq!(relay.subscription_count(), 0);
}

/// The end of a stream sends CLOSE and lowers the count at once. After the
/// keep-alive the socket closes.
#[test]
fn keep_alive_disconnects_after_last_sub() {
    let mut relay = Relay::with_keep_alive("ws://127.0.0.1:2", Duration::from_millis(100));
    let (opening, handshake) = relay.req(vec![Filter::default()]).start();
    let id = opening.id().to_string();

    let connection = relay.socket_mut().dialed(Ok(1)).unwrap();
    let mut orders = vec![];
    let (guard, _sender) = relay
        .socket_mut()
        .multiplex(connection, handshake.subscribe_msg, handshake.unsubscribe_msg, |order| {
            orders.push(order);
            true
        })
        .unwrap();
    assert!(matches!(
        &orders[..],
        [Order { connection: 1, command: Command::Send(text) }]
            if *text == format!(r#"["REQ","{id}",{{}}]"#)
    ));
    let (first, _live) = opening.opened(Ok(()));
    assert!(matches!(first, Ok(ReqMessage::Open { .. })));
    assert!(relay.is_connected());
    assert_eq!(relay.subscription_count(), 1);

    let teardown = guard.release(relay.socket_mut());
    assert!(matches!(
        teardown.order,
        Order { connection: 1, command: Command::Send(text) } if text == format!(r#"["CLOSE","{id}"]"#)
    ));
    assert_eq!(relay.subscription_count(), 0);
    assert_eq!(teardown.timer, Some((0, Duration::from_millis(100))));

    assert!(matches!(
        relay.socket_mut().keep_alive_expired(0),
        Some(Order { connection: 1, command: Command::Disconnect })
    ));
    assert!(!relay.is_connected());
}

#[test]
fn relay_disconnects_on_request() {
    let mut relay = Relay::new(URL);
    assert!(relay.disconnect().is_none());
    relay.socket_mut().dialed(Ok(5)).unwrap();
    assert!(matches!(
        relay.disconnect(),
        Some(Order { connection: 5, command: Command::Disconnect })
    ));
    assert!(!relay.is_connected());
}

#[test]
fn socket_errors_become_relay_errors() {
    assert!(Relay::connect(Ok(1)).is_ok());
    assert!(matches!(
        Relay::connect(Err(SocketError::Connect("no route".into()))),
        Err(RelayError::WebSocket(message)) if message == "no route"
    ));
    assert!(matches!(RelayError::from(SocketError::Closed), RelayError::ConnectionClosed));
}

// ---------------------------------------------------------------------------
// Subscriptions
// ---------------------------------------------------------------------------

#[test]
fn subscription_gets_a_random_identifier() {
    let relay = Relay::new(URL);
    let (first, handshake) = relay.req(vec![]).start();
    let (second, _) = relay.req(vec![]).start();
    assert!(is_id(first.id()));
    assert!(is_id(second.id()));
    assert_ne!(first.id(), second.id());
    assert_eq!(SUBSCRIPTION_ID_LEN, 12);
    assert_eq!(handshake.subscribe_msg, format!(r#"["REQ","{}"]"#, first.id()));
    assert_eq!(handshake.unsubscribe_msg, format!(r#"["CLOSE","{}"]"#, first.id()));
}

#[test]
fn stream_begins_with_open() {
    let filter = Filter { kinds: Some(vec![1]), limit: Some(5), ..Default::default() };
    let (opening, handshake) = Relay::new(URL).req(vec![filter]).start_with_id("sub1".into());
    assert_eq!(handshake.subscribe_msg, r#"["REQ","sub1",{"kinds":[1],"limit":5}]"#);
    assert_eq!(handshake.unsubscribe_msg, r#"["CLOSE","sub1"]"#);
    match opening.opened(Ok(())) {
        (Ok(ReqMessage::Open { from, id, filters }), Some(live)) => {
            assert_eq!((from.as_str(), id.as_str()), (URL, "sub1"));
            assert_eq!(filters.len(), 1);
            assert_eq!(filters[0].kinds, Some(vec![1]));
            assert_eq!(filters[0].limit, Some(5));
            assert_eq!(live.id(), "sub1");
            assert!(!live.has_ended());
        }
        other => panic!("expected Open, got {other:?}"),
    }
}

#[test]
fn stream_that_cannot_be_opened_is_one_error() {
    let (opening, _) = Relay::new(URL).req(vec![]).start_with_id("sub1".into());
    let (first, rest) = opening.opened(Err(SocketError::Closed));
    assert!(matches!(first, Err(RelayError::ConnectionClosed)));
    assert!(rest.is_none());
}

#[test]
fn own_messages_are_delivered_in_order() {
    let items = stream(
        "sub1",
        &[
            event_frame("sub1", "e1"),
            event_frame("sub1", "e2"),
            r#"["EOSE","sub1"]"#.into(),
            event_frame("sub1", "e3"),
        ],
    );
    assert_eq!(items.len(), 6);
    assert!(matches!(&items[0], Ok(ReqMessage::Open { .. })));
    for (at, expected) in [(1, "e1"), (2, "e2"), (4, "e3")] {
        match &items[at] {
            Ok(ReqMessage::Event { from, id, event }) => {
                assert_eq!((from.as_str(), id.as_str()), (URL, "sub1"));
                assert_eq!(event, &note(expected));
            }
            other => panic!("expected an event, got {other:?}"),
        }
    }
    assert!(matches!(&items[3], Ok(ReqMessage::Eose { from, id }) if from == URL && id == "sub1"));
    assert!(matches!(&items[5], Err(RelayError::ConnectionClosed)));
}

#[test]
fn other_frames_go_by() {
    let mut subscription = live("sub1");
    for frame in [
        event_frame("sub2", "e1"),
        event_frame("sub2", "sub1"),
        r#"["EOSE","sub11"]"#.into(),
        r#"["NOTICE","sub1"]"#.into(),
        r#"["AUTH","sub1"]"#.into(),
        r#"["OK","sub1",true,""]"#.into(),
        r#"["COUNT","sub1",{"count":1}]"#.into(),
        r#"["EVENT","sub1",{}]"#.into(),
        "sub1".into(),
        "".into(),
    ] {
        assert!(subscription.on_frame(&frame).is_none(), "{frame}");
        assert!(!subscription.has_ended());
    }
    assert!(subscription.on_frame(r#"["EOSE","sub1"]"#).is_some());
}

#[test]
fn frame_with_an_escaped_identifier_is_not_let_through() {
    let mut subscription = live("abc");
    let frame = r#"["EOSE","\u0061bc"]"#;
    assert!(matches!(
        RelayMessage::from_json(frame),
        Ok(RelayMessage::Eose { sub_id }) if sub_id == "abc"
    ));
    assert!(!subscription.lets_through(frame));
    assert!(subscription.on_frame(frame).is_none());
}

#[test]
fn subscriptions_are_isolated() {
    let (mut first, mut second) = (live("sub1"), live("sub2"));
    let frame = event_frame("sub2", "e1");
    assert!(first.on_frame(&frame).is_none());
    assert!(second.on_frame(&frame).is_some());
}

#[test]
fn closed_ends_the_stream() {
    let mut subscription = live("sub1");
    assert!(matches!(
        subscription.on_frame(r#"["CLOSED","sub1","bye"]"#),
        Some(Ok(ReqMessage::Closed { from, id, reason }))
            if from == URL && id == "sub1" && reason == "bye"
    ));
    assert!(subscription.has_ended());
    assert!(subscription.on_frame(&event_frame("sub1", "e1")).is_none());
    assert!(subscription.on_message(Ok(RelayMessage::Eose { sub_id: "sub1".into() })).is_none());
    assert!(subscription.on_end().is_none());
}

#[test]
fn lost_connection_ends_the_stream() {
    let mut subscription = live("sub1");
    assert!(matches!(subscription.on_end(), Some(Err(RelayError::ConnectionClosed))));
    assert!(subscription.has_ended());
    assert!(subscription.on_end().is_none());
    assert!(subscription.on_frame(&event_frame("sub1", "e1")).is_none());
}

// ---------------------------------------------------------------------------
// Stream adapters
// ---------------------------------------------------------------------------

fn adapted_until_eose(items: Vec<StreamItem>) -> Vec<String> {
    let mut yielded = vec![];
    for item in items {
        match until_eose(item) {
            Adapted::Yield(Ok(event)) => yielded.push(event.id),
            Adapted::Yield(Err(error)) => yielded.push(error.message()),
            Adapted::Skip => {}
            Adapted::YieldLast(Ok(event)) => {
                yielded.push(event.id);
                break;
            }
            Adapted::YieldLast(Err(error)) => {
                yielded.push(error.message());
                break;
            }
            Adapted::End => break,
        }
    }
    yielded
}

fn adapted_events(items: Vec<StreamItem>) -> Vec<String> {
    items
        .into_iter()
        .filter_map(events)
        .map(|item| match item {
            Ok(event) => event.id,
            Err(error) => error.message(),
        })
        .collect()
}

fn mixed_frames() -> Vec<String> {
    vec![
        event_frame("sub1", "e1"),
        event_frame("sub1", "e2"),
        r#"["EOSE","sub1"]"#.into(),
        event_frame("sub1", "e3"),
    ]
}

#[test]
fn until_eose_stops_at_eose() {
    assert_eq!(adapted_until_eose(stream("sub1", &mixed_frames())), ["e1", "e2"]);
}

#[test]
fn events_go_on_after_eose() {
    assert_eq!(
        adapted_events(stream("sub1", &mixed_frames())),
        ["e1", "e2", "e3", "Connection closed"]
    );
}

#[test]
fn until_eose_shows_all_events_where_there_is_no_eose() {
    let frames = vec![event_frame("sub1", "e1"), event_frame("sub1", "e2")];
    let stored = adapted_until_eose(stream("sub1", &frames));
    assert_eq!(stored, ["e1", "e2", "Connection closed"]);
    assert_eq!(stored, adapted_events(stream("sub1", &frames)));
}

#[test]
fn until_eose_stops_after_an_error() {
    let items = || -> Vec<StreamItem> {
        let event = |id: &str| {
            Ok(ReqMessage::Event { from: URL.into(), id: "sub1".into(), event: note(id) })
        };
        vec![event("e1"), Err(RelayError::Timeout), event("e2"), Err(RelayError::AuthRequired)]
    };
    assert_eq!(adapted_until_eose(items()), ["e1", "Operation timed out"]);
    assert_eq!(
        adapted_events(items()),
        ["e1", "Operation timed out", "e2", "Auth required"]
    );
}

#[test]
fn adapters_discard_closed() {
    let frames = vec![event_frame("sub1", "e1"), r#"["CLOSED","sub1",""]"#.to_string()];
    assert_eq!(adapted_until_eose(stream("sub1", &frames)), ["e1"]);
    assert_eq!(adapted_events(stream("sub1", &frames)), ["e1"]);
}

// ---------------------------------------------------------------------------
// Requests with one answer
// ---------------------------------------------------------------------------

fn text(frame: &str) -> ListenEvent {
    ListenEvent::Received(Received::Text(frame.into()))
}

#[test]
fn publish_waits_for_its_own_ok() {
    let (request, outbound) = Relay::new(URL).publish(note("e1"));
    assert!(outbound.starts_with(r#"["EVENT",{"content":"hi","#));
    assert!(matches!(request.listen(text(r#"["OK","e2",true,""]"#)), Listen::Wait));
    assert!(matches!(request.listen(text(r#"["NOTICE","e1"]"#)), Listen::Wait));
    assert!(matches!(request.listen(text("garbage")), Listen::Wait));
    assert!(matches!(
        request.listen(ListenEvent::Received(Received::Lagged(4))),
        Listen::Wait
    ));
    match request.listen(text(r#"["OK","e1",true,"saved"]"#)) {
        Listen::Reply(response) => {
            assert_eq!(response.from, URL);
            assert_eq!(response.event_id, "e1");
            assert!(response.ok);
            assert_eq!(response.message, "saved");
        }
        other => panic!("expected a reply, got {other:?}"),
    }
}

#[test]
fn refusal_is_an_answer() {
    let (request, _) = Relay::new(URL).publish(note("e1"));
    assert!(matches!(
        request.answer(RelayMessage::from_json(r#"["OK","e1",false,"blocked: no"]"#)),
        Some(response) if !response.ok && response.message == "blocked: no"
    ));
}

#[test]
fn auth_sends_an_auth_message() {
    let (request, outbound) = Relay::new(URL).auth(note("e1"));
    assert!(outbound.starts_with(r#"["AUTH",{"content":"hi","#));
    assert!(matches!(request.listen(text(r#"["OK","e1",true]"#)), Listen::Reply(_)));
}

#[test]
fn listener_stops_with_the_connection_or_the_caller() {
    let (request, _) = Relay::new(URL).publish(note("e1"));
    assert!(matches!(request.listen(ListenEvent::Received(Received::Closed)), Listen::Stop));
    assert!(matches!(request.listen(ListenEvent::CallerGone), Listen::Stop));
    let (request, _) = Relay::new(URL).count(vec![]);
    assert!(matches!(request.listen(ListenEvent::Received(Received::Closed)), Listen::Stop));
    assert!(matches!(request.listen(ListenEvent::CallerGone), Listen::Stop));
    assert!(matches!(
        request.listen(ListenEvent::Received(Received::Lagged(1))),
        Listen::Wait
    ));
}

#[test]
fn count_waits_for_its_own_answer() {
    let (request, outbound) =
        Relay::new(URL).count_with_id("c1".into(), vec![Filter::default(), Filter::default()]);
    assert_eq!(outbound, r#"["COUNT","c1",{},{}]"#);
    assert!(matches!(request.listen(text(r#"["COUNT","c2",{"count":1}]"#)), Listen::Wait));
    assert!(request.answer(Err(ParseError::NotArray)).is_none());
    match request.listen(text(r#"["COUNT","c1",{"count":42}]"#)) {
        Listen::Reply(response) => {
            assert_eq!(response.from, URL);
            assert_eq!(response.sub_id, "c1");
            assert_eq!(response.count, 42);
        }
        other => panic!("expected a reply, got {other:?}"),
    }
}

#[test]
fn count_gets_a_random_identifier() {
    let (_, outbound) = Relay::new(URL).count(vec![]);
    let id = outbound.strip_prefix(r#"["COUNT",""#).and_then(|rest| rest.strip_suffix(r#""]"#));
    assert!(is_id(id.unwrap()));
}

#[test]
fn requests_settle() {
    assert!(matches!(settle(Waited::Answered(7)), Ok(7)));
    assert!(matches!(settle::<u64>(Waited::Abandoned), Err(RelayError::ConnectionClosed)));
    assert!(matches!(settle::<u64>(Waited::TimedOut), Err(RelayError::Timeout)));
    assert!(matches!(
        settle::<u64>(Waited::NotSent(SocketError::Connect("no".into()))),
        Err(RelayError::WebSocket(message)) if message == "no"
    ));
    assert!(matches!(
        settle::<u64>(Waited::NotSent(SocketError::Closed)),
        Err(RelayError::ConnectionClosed)
    ));
    assert_eq!(REPLY_TIMEOUT_SECS, 10);
}

// ---------------------------------------------------------------------------
// Parsed messages and texts
// ---------------------------------------------------------------------------

#[test]
fn parsed_messages_are_delivered() {
    assert!(matches!(
        Relay::messages(Received::Text(r#"["EOSE","s"]"#.into())),
        Delivery::Yield(RelayMessage::Eose { sub_id }) if sub_id == "s"
    ));
    assert!(matches!(
        Relay::messages(Received::Text("[]".into())),
        Delivery::Malformed(ParseError::MissingKind)
    ));
    assert!(matches!(Relay::messages(Received::Lagged(9)), Delivery::Lagged(9)));
    assert!(matches!(Relay::messages(Received::Closed), Delivery::End));
}

#[test]
fn parsed_messages_are_yielded_in_order() {
    let reports = [
        Received::Text(r#"["EOSE","a"]"#.into()),
        Received::Text("garbage".into()),
        Received::Lagged(2),
        Received::Text(r#"["EOSE","b"]"#.into()),
        Received::Closed,
        Received::Text(r#"["EOSE","c"]"#.into()),
    ];
    let mut ids = vec![];
    for report in reports {
        match Relay::messages(report) {
            Delivery::Yield(RelayMessage::Eose { sub_id }) => ids.push(sub_id),
            Delivery::End => break,
            _ => {}
        }
    }
    assert_eq!(ids, ["a", "b"]);
}

#[test]
fn texts_are_compared_by_character() {
    assert!(contains("a\u{e9}b", "\u{e9}"));
    assert!(contains("abc", ""));
    assert!(contains("", ""));
    assert!(contains("aab", "ab"));
    assert!(!contains("ab", "abc"));
    assert!(!contains("abc", "ac"));
    assert!(same_text("caf\u{e9}", "caf\u{e9}"));
    assert!(!same_text("cafe", "caf\u{e9}"));
    assert_eq!(to_chars("a\u{1f980}"), ['a', '\u{1f980}']);
}
