use i_seek_you::lobby_signaling::{self, GreetingKind};
use i_seek_you::peer::Hub;
use i_seek_you::signaling::{self, classify, connection_closed, MessageKind};
use i_seek_you::standalone::{self, HelloKind};
use i_seek_you::message::TextError;
use i_seek_you::types::{ClientMessage, Delivery, Payload, Response};
use std::collections::VecDeque;

fn message(kind: &str) -> ClientMessage {
    ClientMessage {
        kind: kind.to_string(),
        id: None,
        name: None,
        emoji: None,
        password_flag: None,
        password_text: None,
        pk: None,
        json: String::new(),
    }
}

fn describing(kind: &str, name: &str) -> ClientMessage {
    let mut m = message(kind);
    m.name = Some(name.to_string());
    m.emoji = Some("🙂".to_string());
    m.password_flag = Some(false);
    m
}

fn with_id(kind: &str, id: &str) -> ClientMessage {
    let mut m = message(kind);
    m.id = Some(id.to_string());
    m
}

fn hub(ids: &[u32]) -> Hub {
    Hub::new(ids.iter().copied().collect::<VecDeque<u32>>())
}

fn pong_to(id: u32) -> Delivery {
    Delivery { to: id, payload: Payload::Reply(Response::Ack { kind: "pong".to_string() }) }
}

#[test]
fn classify_message_types() {
    assert_eq!(classify("sign"), MessageKind::Sign);
    assert_eq!(classify("find"), MessageKind::Find);
    assert_eq!(classify("call"), MessageKind::Call);
    for t in [
        "connect",
        "disconnect",
        "answer",
        "error",
        "sdp-offer",
        "sdp-answer",
        "ice-candidate",
        "media",
        "exchange-a",
        "exchange-b",
    ] {
        assert_eq!(classify(t), MessageKind::Relay);
    }
    assert_eq!(classify("ping"), MessageKind::Ping);
    assert_eq!(classify("pong"), MessageKind::Unknown);
    assert_eq!(classify("Sign"), MessageKind::Unknown);
    assert_eq!(classify(""), MessageKind::Unknown);
}

#[test]
fn signaling_sign_then_lobby() {
    let mut h = hub(&[]);
    let (k, out) = signaling::handle_message(&mut h, "1.2.3.4", 11, &describing("sign", "Ann"));
    assert_eq!(k, MessageKind::Sign);
    assert_eq!(out.len(), 1);
    assert_eq!(out[0].to, 11);
    match &out[0].payload {
        Payload::Reply(Response::Lobby { peers, .. }) => {
            assert_eq!(peers.len(), 1);
            assert_eq!(peers[0].id, "0011");
            assert_eq!(peers[0].name, "Ann");
        }
        other => panic!("unexpected payload {:?}", other),
    }
    let (_, out) = signaling::handle_message(&mut h, "1.2.3.4", 12, &describing("sign", "Bob"));
    assert_eq!(out.len(), 2);
}

#[test]
fn signaling_ping_unknown_relay() {
    let mut h = hub(&[]);
    let (k, out) = signaling::handle_message(&mut h, "1.2.3.4", 3, &message("ping"));
    assert_eq!(k, MessageKind::Ping);
    assert_eq!(out, vec![pong_to(3)]);
    let (k, out) = signaling::handle_message(&mut h, "1.2.3.4", 3, &message("whatever"));
    assert_eq!(k, MessageKind::Unknown);
    assert!(out.is_empty());
    assert!(!h.is_signed(3));
    signaling::handle_message(&mut h, "1.2.3.4", 4, &describing("sign", "D"));
    let (k, out) = signaling::handle_message(&mut h, "5.5.5.5", 3, &with_id("ice-candidate", "0004"));
    assert_eq!(k, MessageKind::Relay);
    assert_eq!(out, vec![Delivery { to: 4, payload: Payload::Forward(String::new()) }]);
    let (_, out) = signaling::handle_message(&mut h, "5.5.5.5", 3, &with_id("media", "0009"));
    assert!(out.is_empty());
}

#[test]
fn signaling_call_needs_signed_caller() {
    let mut h = hub(&[]);
    signaling::handle_message(&mut h, "1.1.1.1", 1, &describing("sign", "A"));
    let m = with_id("call", "0001");
    assert!(!signaling::accepts(&h, 2, &m));
    assert!(signaling::accepts(&h, 1, &m));
    assert!(!signaling::accepts(&h, 1, &message("sign")));
    assert!(!signaling::accepts(&h, 1, &message("find")));
    assert!(signaling::accepts(&h, 1, &message("ping")));
}

#[test]
fn signaling_close_tells_lobby() {
    let mut h = hub(&[]);
    signaling::handle_message(&mut h, "1.1.1.1", 1, &describing("sign", "A"));
    signaling::handle_message(&mut h, "1.1.1.1", 2, &describing("sign", "B"));
    let out = connection_closed(&mut h, "1.1.1.1", 1);
    assert_eq!(out.len(), 1);
    assert_eq!(out[0].to, 2);
    match &out[0].payload {
        Payload::Reply(Response::Lobby { peers, .. }) => {
            assert_eq!(peers.len(), 1);
            assert_eq!(peers[0].id, "0002");
        }
        other => panic!("unexpected payload {:?}", other),
    }
    assert_eq!(h.free_count(), 1);
}

#[test]
fn greeting_protocol() {
    let mut h = hub(&[]);
    let (k, out) = lobby_signaling::handle_message(&mut h, "1.1.1.1", 1, &describing("hi", "A"));
    assert_eq!(k, GreetingKind::Hi);
    assert_eq!(out.len(), 1);
    let (k, out) = lobby_signaling::handle_message(&mut h, "1.1.1.1", 1, &message("ping"));
    assert_eq!(k, GreetingKind::Ping);
    assert_eq!(out, vec![pong_to(1)]);
    let (k, out) = lobby_signaling::handle_message(&mut h, "1.1.1.1", 1, &describing("sign", "A"));
    assert_eq!(k, GreetingKind::Unknown);
    assert!(out.is_empty());
    assert!(!lobby_signaling::accepts(&message("hi")));
}

#[test]
fn standalone_hello_tells_its_address_only() {
    let mut h = hub(&[]);
    standalone::handle_message(&mut h, "1.1.1.1", 1, &describing("hello", "A"));
    let (k, out) = standalone::handle_message(&mut h, "2.2.2.2", 2, &describing("hello", "B"));
    assert_eq!(k, HelloKind::Hello);
    assert_eq!(out.len(), 1);
    assert_eq!(out[0].to, 2);
    match &out[0].payload {
        Payload::Reply(Response::Lobby { peers, .. }) => {
            assert_eq!(peers.len(), 1);
            assert_eq!(peers[0].name, "B");
        }
        other => panic!("unexpected payload {:?}", other),
    }
    standalone::handle_message(&mut h, "2.2.2.2", 3, &describing("hello", "C"));
    let out = standalone::disconnect(&mut h, "2.2.2.2", 2);
    assert_eq!(out.len(), 1);
    assert_eq!(out[0].to, 3);
    match &out[0].payload {
        Payload::Reply(Response::Lobby { peers, .. }) => {
            assert_eq!(peers.len(), 1);
            assert_eq!(peers[0].name, "C");
        }
        other => panic!("unexpected payload {:?}", other),
    }
    let (k, out) = standalone::handle_message(&mut h, "1.1.1.1", 1, &message("ping"));
    assert_eq!(k, HelloKind::Ping);
    assert_eq!(out, vec![pong_to(1)]);
    assert!(!standalone::accepts(&message("hello")));
}

#[test]
fn signaling_text_is_read_as_json() {
    let mut h = hub(&[]);
    let (k, out) = signaling::handle_text(&mut h, "1.1.1.1", 1, r#"{"type":"ping"}"#).unwrap();
    assert_eq!(k, MessageKind::Ping);
    assert_eq!(out, vec![pong_to(1)]);
    let text = r#"{"type":"sign","name":"Ann","emoji":"x","password":true}"#;
    let (k, out) = signaling::handle_text(&mut h, "1.1.1.1", 1, text).unwrap();
    assert_eq!(k, MessageKind::Sign);
    match &out[0].payload {
        Payload::Reply(Response::Lobby { peers, .. }) => {
            assert_eq!(peers[0].name, "Ann");
            assert_eq!(peers[0].emoji, "x");
            assert!(peers[0].password);
        }
        other => panic!("unexpected payload {:?}", other),
    }
    let text = r#"{ "type": "sdp-offer", "id": "0001", "sdp": "v=0" }"#;
    let (k, out) = signaling::handle_text(&mut h, "9.9.9.9", 2, text).unwrap();
    assert_eq!(k, MessageKind::Relay);
    assert_eq!(
        out,
        vec![Delivery {
            to: 1,
            payload: Payload::Forward(r#"{"id":"0001","sdp":"v=0","type":"sdp-offer"}"#.to_string())
        }]
    );
}

#[test]
fn unreadable_or_incomplete_text_is_refused() {
    let mut h = hub(&[]);
    assert_eq!(signaling::handle_text(&mut h, "1.1.1.1", 1, "not json"), Err(TextError::Unreadable));
    assert_eq!(signaling::handle_text(&mut h, "1.1.1.1", 1, r#"{"kind":"ping"}"#), Err(TextError::Unreadable));
    assert_eq!(signaling::handle_text(&mut h, "1.1.1.1", 1, r#"{"type":7}"#), Err(TextError::Unreadable));
    assert_eq!(
        signaling::handle_text(&mut h, "1.1.1.1", 1, r#"{"type":"sign","name":"A","emoji":"x","password":"yes"}"#),
        Err(TextError::Incomplete)
    );
    assert_eq!(
        signaling::handle_text(&mut h, "1.1.1.1", 1, r#"{"type":"call","id":"0002"}"#),
        Err(TextError::Incomplete)
    );
    assert!(!h.is_signed(1));
    assert_eq!(lobby_signaling::handle_text(&mut h, "1.1.1.1", 1, "[1,2"), Err(TextError::Unreadable));
    assert_eq!(
        lobby_signaling::handle_text(&mut h, "1.1.1.1", 1, r#"{"type":"hi"}"#),
        Err(TextError::Incomplete)
    );
}

#[test]
fn standalone_text_skips_empty_frames() {
    let mut h = hub(&[]);
    assert_eq!(standalone::handle_text(&mut h, "1.1.1.1", 1, ""), Ok(None));
    assert_eq!(standalone::handle_text(&mut h, "1.1.1.1", 1, "x"), Err(TextError::Unreadable));
    let (k, out) = standalone::handle_text(&mut h, "1.1.1.1", 1, r#"{"type":"hello","name":"A","emoji":"e","password":false}"#)
        .unwrap()
        .unwrap();
    assert_eq!(k, HelloKind::Hello);
    assert_eq!(out.len(), 1);
    assert!(h.is_signed(1));
}
