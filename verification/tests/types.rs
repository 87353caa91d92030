//! Protocol messages, their JSON text, and the wording of the errors.

use rust_applesauce::json::{Json, JsonNumber};
use rust_applesauce::types::{ParseError, TagFilters};
use rust_applesauce::{ClientMessage, Filter, NostrEvent, RelayError, RelayMessage};

fn event() -> NostrEvent {
    NostrEvent {
        id: "abc".into(),
        pubkey: "def".into(),
        created_at: 1000,
        kind: 1,
        tags: vec![vec!["e".into(), "x".into()], vec![]],
        content: "hello".into(),
        sig: "xyz".into(),
    }
}

fn parse_error(text: &str) -> String {
    RelayMessage::from_json(text).unwrap_err().message()
}

/// The error of an `EVENT` frame that holds the given event.
fn event_error(event: &str) -> String {
    match RelayMessage::from_json(&format!(r#"["EVENT","sub1",{event}]"#)) {
        Err(ParseError::Json(message)) => message,
        other => panic!("expected a JSON error, got {other:?}"),
    }
}

#[test]
fn filter_default() {
    let f = Filter::default();
    assert!(f.ids.is_none());
    assert!(f.authors.is_none());
    assert!(f.kinds.is_none());
    assert!(f.since.is_none());
    assert!(f.until.is_none());
    assert!(f.limit.is_none());
}

#[test]
fn client_message_req_serialization() {
    let msg = ClientMessage::Req {
        id: "test123".into(),
        filters: vec![Filter {
            kinds: Some(vec![1]),
            limit: Some(5),
            ..Default::default()
        }],
    };
    let json = msg.to_json();
    assert!(json.starts_with(r#"["REQ","test123","#));
}

#[test]
fn relay_message_parse_event() {
    let json = r#"["EVENT","sub1",{"id":"abc","pubkey":"def","created_at":1000,"kind":1,"tags":[],"content":"hello","sig":"xyz"}]"#;
    let msg = RelayMessage::from_json(json).unwrap();
    match msg {
        RelayMessage::Event { sub_id, event } => {
            assert_eq!(sub_id, "sub1");
            assert_eq!(event.content, "hello");
        }
        _ => panic!("expected Event"),
    }
}

#[test]
fn relay_message_parse_eose() {
    let json = r#"["EOSE","sub1"]"#;
    let msg = RelayMessage::from_json(json).unwrap();
    match msg {
        RelayMessage::Eose { sub_id } => assert_eq!(sub_id, "sub1"),
        _ => panic!("expected Eose"),
    }
}

#[test]
fn relay_message_parse_ok() {
    let json = r#"["OK","eventid123",true,""]"#;
    let msg = RelayMessage::from_json(json).unwrap();
    match msg {
        RelayMessage::OkReply {
            event_id,
            ok,
            message,
        } => {
            assert_eq!(event_id, "eventid123");
            assert!(ok);
            assert_eq!(message, "");
        }
        _ => panic!("expected Ok"),
    }
}

#[test]
fn relay_message_parse_notice() {
    let json = r#"["NOTICE","hello world"]"#;
    let msg = RelayMessage::from_json(json).unwrap();
    match msg {
        RelayMessage::Notice { message } => assert_eq!(message, "hello world"),
        _ => panic!("expected Notice"),
    }
}

// ---------------------------------------------------------------------------
// Outbound messages
// ---------------------------------------------------------------------------

#[test]
fn req_text_is_exact() {
    let mut tags = TagFilters::new();
    tags.insert("#p".into(), vec!["q".into()]);
    tags.insert("#e".into(), vec!["r".into(), "s".into()]);
    let message = ClientMessage::Req {
        id: "sub1".into(),
        filters: vec![
            Filter {
                ids: Some(vec!["a".into()]),
                authors: Some(vec!["b".into(), "c".into()]),
                kinds: Some(vec![1, 7]),
                since: Some(10),
                until: Some(20),
                limit: Some(5),
                tags,
            },
            Filter::default(),
        ],
    };
    assert_eq!(
        message.to_json(),
        concat_lines(&[
            r##"["REQ","sub1",{"#e":["r","s"],"#p":["q"],"authors":["b","c"],"ids":["a"],"##,
            r##""kinds":[1,7],"limit":5,"since":10,"until":20},{}]"##,
        ])
    );
}

fn concat_lines(lines: &[&str]) -> String {
    lines.concat()
}

#[test]
fn other_client_messages_are_exact() {
    assert_eq!(ClientMessage::Close { id: "s\"1".into() }.to_json(), r#"["CLOSE","s\"1"]"#);
    assert_eq!(
        ClientMessage::Count { id: "c1".into(), filters: vec![Filter::default()] }.to_json(),
        r#"["COUNT","c1",{}]"#
    );
    let object = concat_lines(&[
        r#"{"content":"hello","created_at":1000,"id":"abc","kind":1,"pubkey":"def","#,
        r#""sig":"xyz","tags":[["e","x"],[]]}"#,
    ]);
    assert_eq!(ClientMessage::Event(event()).to_json(), format!(r#"["EVENT",{object}]"#));
    assert_eq!(ClientMessage::Auth(event()).to_json(), format!(r#"["AUTH",{object}]"#));
}

#[test]
fn tag_filter_takes_the_place_of_a_condition() {
    let mut filter = Filter { kinds: Some(vec![1]), limit: Some(2), ..Default::default() };
    filter.tags.insert("kinds".into(), vec!["x".into()]);
    let message = ClientMessage::Req { id: "i".into(), filters: vec![filter] };
    assert_eq!(message.to_json(), r#"["REQ","i",{"kinds":["x"],"limit":2}]"#);
}

#[test]
fn tag_filters_keep_one_list_for_each_name() {
    let mut tags = TagFilters::default();
    assert!(tags.get("#e").is_none());
    tags.insert("#e".into(), vec!["a".into()]);
    tags.insert("#e".into(), vec!["b".into()]);
    assert_eq!(tags.get("#e"), Some(&vec!["b".to_string()]));
    assert_eq!(tags.clone().get("#e"), Some(&vec!["b".to_string()]));
    assert!(tags.get("#E").is_none());
    tags.insert("#p".into(), vec![]);
    assert_eq!(
        tags.into_entries(),
        [("#e".to_string(), vec!["b".to_string()]), ("#p".to_string(), vec![])]
    );
}

#[test]
fn sent_event_is_read_back() {
    let text = ClientMessage::Event(event()).to_json();
    let document = Json::from_text(&text).unwrap();
    let items = document.as_array().unwrap();
    assert_eq!(items.len(), 2);
    assert_eq!(items[0].as_str(), Some("EVENT"));
    assert_eq!(NostrEvent::from_document(&items[1]).unwrap(), event());
    assert_eq!(event().clone(), event());
}

// ---------------------------------------------------------------------------
// Inbound messages
// ---------------------------------------------------------------------------

#[test]
fn documented_messages_are_read() {
    let text = concat_lines(&[
        r#"["EVENT","s",{"kind":1,"tags":[["e","x"],[]],"content":"hello","more":{"a":[null]},"#,
        r#""sig":"xyz","id":"abc","pubkey":"def","created_at":1000}]"#,
    ]);
    match RelayMessage::from_json(&text).unwrap() {
        RelayMessage::Event { sub_id, event: read } => {
            assert_eq!(sub_id, "s");
            assert_eq!(read, event());
        }
        other => panic!("expected Event, got {other:?}"),
    }
    match RelayMessage::from_json(r#"["CLOSED","s","auth-required: no"]"#).unwrap() {
        RelayMessage::Closed { sub_id, reason } => {
            assert_eq!((sub_id.as_str(), reason.as_str()), ("s", "auth-required: no"))
        }
        other => panic!("expected Closed, got {other:?}"),
    }
    match RelayMessage::from_json(r#"["AUTH","challenge"]"#).unwrap() {
        RelayMessage::Auth { challenge } => assert_eq!(challenge, "challenge"),
        other => panic!("expected Auth, got {other:?}"),
    }
    match RelayMessage::from_json(r#"["COUNT","s",{"count":18446744073709551615}]"#).unwrap() {
        RelayMessage::Count { sub_id, count } => assert_eq!((sub_id.as_str(), count), ("s", u64::MAX)),
        other => panic!("expected Count, got {other:?}"),
    }
    match RelayMessage::from_json(r#"["OK","e",false,"blocked: no"]"#).unwrap() {
        RelayMessage::OkReply { event_id, ok, message } => {
            assert_eq!((event_id.as_str(), ok, message.as_str()), ("e", false, "blocked: no"))
        }
        other => panic!("expected OK, got {other:?}"),
    }
}

#[test]
fn optional_texts_may_be_left_out() {
    assert!(matches!(
        RelayMessage::from_json(r#"["CLOSED","s"]"#),
        Ok(RelayMessage::Closed { reason, .. }) if reason.is_empty()
    ));
    assert!(matches!(
        RelayMessage::from_json(r#"["CLOSED","s",7]"#),
        Ok(RelayMessage::Closed { reason, .. }) if reason.is_empty()
    ));
    assert!(matches!(
        RelayMessage::from_json(r#"["OK","e",true]"#),
        Ok(RelayMessage::OkReply { message, .. }) if message.is_empty()
    ));
    assert!(matches!(
        RelayMessage::from_json(r#"["NOTICE"]"#),
        Ok(RelayMessage::Notice { message }) if message.is_empty()
    ));
}

#[test]
fn further_items_are_ignored() {
    assert!(matches!(
        RelayMessage::from_json(r#"["EOSE","s",null,[],{"a":1}]"#),
        Ok(RelayMessage::Eose { sub_id }) if sub_id == "s"
    ));
    assert!(matches!(
        RelayMessage::from_json(r#"["CLOSED","s","r",1]"#),
        Ok(RelayMessage::Closed { reason, .. }) if reason == "r"
    ));
    assert!(matches!(
        RelayMessage::from_json(r#"["OK","e",true,"m",{}]"#),
        Ok(RelayMessage::OkReply { message, .. }) if message == "m"
    ));
}

#[test]
fn float_without_a_number_is_repeated() {
    let document = Json::Number(JsonNumber::Float("much".into()));
    assert_eq!(
        NostrEvent::from_document(&document).unwrap_err(),
        "invalid type: much, expected struct NostrEvent"
    );
}

#[test]
fn escapes_in_a_frame_are_resolved() {
    assert!(matches!(
        RelayMessage::from_json(r#"["NOTICE","a\u00e9\n\"\ud83e\udd80"]"#),
        Ok(RelayMessage::Notice { message }) if message == "a\u{e9}\n\"\u{1f980}"
    ));
}

#[test]
fn event_may_be_an_array_of_its_fields() {
    let text = r#"["EVENT","s",["abc","def",1000,1,[["e","x"],[]],"hello","xyz"]]"#;
    match RelayMessage::from_json(text).unwrap() {
        RelayMessage::Event { event: read, .. } => assert_eq!(read, event()),
        other => panic!("expected Event, got {other:?}"),
    }
}

#[test]
fn last_of_two_members_counts() {
    let text = r#"["COUNT","s",{"count":1,"count":2}]"#;
    assert!(matches!(RelayMessage::from_json(text), Ok(RelayMessage::Count { count: 2, .. })));
}

// ---------------------------------------------------------------------------
// Parse errors
// ---------------------------------------------------------------------------

#[test]
fn frame_that_is_no_json() {
    assert!(matches!(RelayMessage::from_json("hello"), Err(ParseError::Json(_))));
    assert_eq!(parse_error("hello"), "JSON parse error: expected value at line 1 column 1");
    assert_eq!(
        parse_error(r#"["EOSE","a""#),
        "JSON parse error: EOF while parsing a list at line 1 column 11"
    );
}

#[test]
fn frame_that_is_no_array() {
    for text in [r#"{"a":1}"#, "null", "true", "12", "-3", "1.5", r#""EOSE""#] {
        assert!(matches!(RelayMessage::from_json(text), Err(ParseError::NotArray)));
    }
    assert_eq!(parse_error("{}"), "message is not a JSON array");
}

#[test]
fn frame_without_kind() {
    for text in ["[]", "[1]", "[null]", r#"[["EOSE"]]"#] {
        assert!(matches!(RelayMessage::from_json(text), Err(ParseError::MissingKind)));
    }
    assert_eq!(parse_error("[]"), "message array is missing the kind string");
}

#[test]
fn frame_of_unknown_kind() {
    assert!(matches!(
        RelayMessage::from_json(r#"["eose","s"]"#),
        Err(ParseError::UnknownKind(kind)) if kind == "eose"
    ));
    assert_eq!(parse_error(r#"["HELLO"]"#), "unknown relay message kind: HELLO");
}

#[test]
fn frame_with_missing_field() {
    for (text, field) in [
        (r#"["EVENT"]"#, "sub_id"),
        (r#"["EVENT",1,{}]"#, "sub_id"),
        (r#"["EVENT","s"]"#, "event"),
        (r#"["EOSE"]"#, "sub_id"),
        (r#"["EOSE",null]"#, "sub_id"),
        (r#"["CLOSED"]"#, "sub_id"),
        (r#"["OK"]"#, "event_id"),
        (r#"["OK","e"]"#, "ok"),
        (r#"["OK","e","true"]"#, "ok"),
        (r#"["AUTH"]"#, "challenge"),
        (r#"["COUNT"]"#, "sub_id"),
        (r#"["COUNT","s"]"#, "count_obj"),
        (r#"["COUNT","s",{}]"#, "count"),
        (r#"["COUNT","s",5]"#, "count"),
        (r#"["COUNT","s",{"count":-1}]"#, "count"),
        (r#"["COUNT","s",{"count":1.0}]"#, "count"),
        (r#"["COUNT","s",{"count":18446744073709551616}]"#, "count"),
    ] {
        match RelayMessage::from_json(text) {
            Err(ParseError::MissingField(name)) => assert_eq!(name, field, "{text}"),
            other => panic!("expected a missing field in {text}, got {other:?}"),
        }
        assert_eq!(parse_error(text), format!("missing field: {field}"));
    }
}

#[test]
fn event_of_the_wrong_type() {
    assert_eq!(event_error("null"), "invalid type: null, expected struct NostrEvent");
    assert_eq!(event_error("true"), "invalid type: boolean `true`, expected struct NostrEvent");
    assert_eq!(event_error("12"), "invalid type: integer `12`, expected struct NostrEvent");
    assert_eq!(event_error("-12"), "invalid type: integer `-12`, expected struct NostrEvent");
    assert_eq!(
        event_error("1.5"),
        "invalid type: floating point `1.5`, expected struct NostrEvent"
    );
    assert_eq!(event_error(r#""x""#), r#"invalid type: string "x", expected struct NostrEvent"#);
}

#[test]
fn event_with_missing_members() {
    assert_eq!(event_error("{}"), "missing field `id`");
    assert_eq!(event_error(r#"{"id":"a"}"#), "missing field `pubkey`");
    assert_eq!(event_error(r#"{"id":"a","pubkey":"b"}"#), "missing field `created_at`");
    assert_eq!(
        event_error(r#"{"id":"a","pubkey":"b","created_at":1}"#),
        "missing field `kind`"
    );
    assert_eq!(
        event_error(r#"{"id":"a","pubkey":"b","created_at":1,"kind":1}"#),
        "missing field `tags`"
    );
    assert_eq!(
        event_error(r#"{"id":"a","pubkey":"b","created_at":1,"kind":1,"tags":[]}"#),
        "missing field `content`"
    );
    assert_eq!(
        event_error(r#"{"id":"a","pubkey":"b","created_at":1,"kind":1,"tags":[],"content":""}"#),
        "missing field `sig`"
    );
}

#[test]
fn event_with_mistyped_members() {
    assert_eq!(event_error(r#"{"id":1}"#), "invalid type: integer `1`, expected a string");
    assert_eq!(
        event_error(r#"{"tags":3,"content":null}"#),
        "invalid type: null, expected a string"
    );
    assert_eq!(event_error(r#"{"kind":"1"}"#), r#"invalid type: string "1", expected u64"#);
    assert_eq!(
        event_error(r#"{"kind":-1,"created_at":-9223372036854775808}"#),
        "invalid value: integer `-9223372036854775808`, expected u64"
    );
    assert_eq!(
        event_error(r#"{"created_at":1.5}"#),
        "invalid type: floating point `1.5`, expected u64"
    );
    assert_eq!(event_error(r#"{"tags":{}}"#), "invalid type: map, expected a sequence");
    assert_eq!(
        event_error(r#"{"tags":[[],"x"]}"#),
        r#"invalid type: string "x", expected a sequence"#
    );
    assert_eq!(
        event_error(r#"{"tags":[["a"],["b",[]]]}"#),
        "invalid type: sequence, expected a string"
    );
}

#[test]
fn event_array_of_the_wrong_length() {
    assert_eq!(
        event_error("[]"),
        "invalid length 0, expected struct NostrEvent with 7 elements"
    );
    assert_eq!(
        event_error(r#"["a","b",1,2,[],"c"]"#),
        "invalid length 6, expected struct NostrEvent with 7 elements"
    );
    assert_eq!(
        event_error(r#"["a","b",1,2,[],"c","d",0,0,0]"#),
        "invalid length 10, expected fewer elements in array"
    );
    assert_eq!(event_error(r#"["a",2]"#), "invalid type: integer `2`, expected a string");
}

// ---------------------------------------------------------------------------
// Documents
// ---------------------------------------------------------------------------

#[test]
fn document_accessors() {
    let document = Json::from_text(r#"{"a":"x","b":true,"c":3,"d":-3,"e":0.5,"f":[null]}"#).unwrap();
    assert_eq!(document.get("a").unwrap().as_str(), Some("x"));
    assert_eq!(document.get("b").unwrap().as_bool(), Some(true));
    assert_eq!(document.get("c").unwrap().as_u64(), Some(3));
    assert!(matches!(document.get("d"), Some(Json::Number(JsonNumber::Negative(-3)))));
    assert!(matches!(document.get("e"), Some(Json::Number(JsonNumber::Float(text))) if text == "0.5"));
    assert_eq!(document.get("f").unwrap().as_array().unwrap().len(), 1);
    assert!(document.get("g").is_none());
    assert!(document.as_array().is_none());
    assert!(document.get("d").unwrap().as_u64().is_none());
}

#[test]
fn nesting_is_limited() {
    let deep = |levels: usize| format!("{}{}", "[".repeat(levels), "]".repeat(levels));
    assert!(Json::from_text(&deep(127)).is_ok());
    assert!(Json::from_text(&deep(128)).unwrap_err().starts_with("recursion limit exceeded"));
}

// ---------------------------------------------------------------------------
// Errors of the relay
// ---------------------------------------------------------------------------

#[test]
fn relay_errors_in_words() {
    assert_eq!(RelayError::WebSocket("refused".into()).message(), "WebSocket error: refused");
    assert_eq!(RelayError::ConnectionClosed.message(), "Connection closed");
    assert_eq!(
        RelayError::from(ParseError::NotArray).message(),
        "Parse error: message is not a JSON array"
    );
    assert_eq!(
        RelayError::RelayClosed { id: "s".into(), reason: "why".into() }.message(),
        "Relay closed subscription s with reason: why"
    );
    assert_eq!(RelayError::AuthRequired.message(), "Auth required");
    assert_eq!(RelayError::Url("bad".into()).message(), "URL parse error: bad");
    assert_eq!(RelayError::Timeout.message(), "Operation timed out");
}
