use i_seek_you::lobby::lobby_broadcast;
use i_seek_you::peer::{gen_peer_id, get_peer, peer_call, peer_find, peer_leave, peer_sign, Hub};
use i_seek_you::signaling::relay;
use i_seek_you::types::{ClientMessage, Delivery, Payload, Peer, Response};
use std::collections::VecDeque;

fn message(kind: &str) -> ClientMessage {
    ClientMessage {
        kind: kind.to_string(),
        id: None,
        name: None,
        emoji: None,
        password_flag: None,
        password_text: None,
        pk: None,
        json: String::new(),
    }
}

fn sign_message(name: &str, emoji: &str, password: bool) -> ClientMessage {
    let mut m = message("sign");
    m.name = Some(name.to_string());
    m.emoji = Some(emoji.to_string());
    m.password_flag = Some(password);
    m
}

fn with_id(kind: &str, id: &str) -> ClientMessage {
    let mut m = message(kind);
    m.id = Some(id.to_string());
    m
}

fn hub(ids: &[u32]) -> Hub {
    Hub::new(ids.iter().copied().collect::<VecDeque<u32>>())
}

fn peer(id: &str, name: &str, emoji: &str, password: bool) -> Peer {
    Peer { id: id.to_string(), name: name.to_string(), emoji: emoji.to_string(), password }
}

#[test]
fn gen_peer_id_takes_front_of_pool() {
    let mut h = hub(&[17, 4, 9000]);
    let (id, d) = gen_peer_id(&mut h);
    assert_eq!(id, 17);
    assert_eq!(
        d,
        Delivery {
            to: 17,
            payload: Payload::Reply(Response::Id { kind: "id".to_string(), id: "0017".to_string() })
        }
    );
    assert_eq!(h.free_count(), 2);
    assert_eq!(gen_peer_id(&mut h).0, 4);
    assert_eq!(gen_peer_id(&mut h).0, 9000);
    assert_eq!(h.free_count(), 0);
}

#[test]
fn leave_returns_id_to_back_of_pool() {
    let mut h = hub(&[1, 2]);
    let (a, _) = gen_peer_id(&mut h);
    peer_leave(&mut h, a);
    assert_eq!(gen_peer_id(&mut h).0, 2);
    assert_eq!(gen_peer_id(&mut h).0, 1);
}

#[test]
fn signed_peer_is_found_under_its_id() {
    let mut h = hub(&[5]);
    let (id, _) = gen_peer_id(&mut h);
    assert!(!h.is_signed(id));
    peer_sign(&mut h, id, "10.0.0.1", &sign_message("Ann", "🐱", true));
    assert!(h.is_signed(id));
    assert_eq!(h.find("0005"), Some(5));
    assert_eq!(h.find("5"), None);
    match get_peer(&h, "0005", 99) {
        Ok((k, p)) => {
            assert_eq!(k, 5);
            assert_eq!(p, peer("0005", "Ann", "🐱", true));
        }
        Err(_) => panic!("peer not found"),
    }
}

#[test]
fn missing_peer_answers_error_to_caller() {
    let h = hub(&[]);
    match get_peer(&h, "0001", 7) {
        Err(d) => assert_eq!(
            d,
            Delivery {
                to: 7,
                payload: Payload::Reply(Response::Error {
                    kind: "error".to_string(),
                    message: "No peer found".to_string()
                })
            }
        ),
        Ok(_) => panic!("found a peer in an empty registry"),
    }
}

#[test]
fn sign_again_replaces_description() {
    let mut h = hub(&[]);
    peer_sign(&mut h, 3, "1.1.1.1", &sign_message("Old", "a", false));
    peer_sign(&mut h, 3, "2.2.2.2", &sign_message("New", "b", true));
    let (ids, peers) = h.lobby_members("2.2.2.2");
    assert_eq!(ids, vec![3]);
    assert_eq!(peers, vec![peer("0003", "New", "b", true)]);
    assert!(h.lobby_members("1.1.1.1").0.is_empty());
}

#[test]
fn left_peer_is_not_found() {
    let mut h = hub(&[]);
    peer_sign(&mut h, 8, "1.1.1.1", &sign_message("A", "x", false));
    peer_leave(&mut h, 8);
    assert_eq!(h.find("0008"), None);
    assert!(!h.is_signed(8));
    assert_eq!(h.free_count(), 1);
}

#[test]
fn lobby_broadcast_reaches_same_address_only() {
    let mut h = hub(&[]);
    peer_sign(&mut h, 1, "1.1.1.1", &sign_message("A", "a", false));
    peer_sign(&mut h, 2, "1.1.1.1", &sign_message("B", "b", true));
    peer_sign(&mut h, 3, "9.9.9.9", &sign_message("C", "c", false));
    let out = lobby_broadcast(&h, "1.1.1.1");
    assert_eq!(out.len(), 2);
    let mut to: Vec<u32> = out.iter().map(|d| d.to).collect();
    to.sort();
    assert_eq!(to, vec![1, 2]);
    for d in &out {
        match &d.payload {
            Payload::Reply(Response::Lobby { kind, peers }) => {
                assert_eq!(kind, "lobby");
                let mut names: Vec<&str> = peers.iter().map(|p| p.name.as_str()).collect();
                names.sort();
                assert_eq!(names, vec!["A", "B"]);
            }
            other => panic!("unexpected payload {:?}", other),
        }
    }
    assert!(lobby_broadcast(&h, "5.5.5.5").is_empty());
}

#[test]
fn find_answers_caller() {
    let mut h = hub(&[]);
    peer_sign(&mut h, 1, "1.1.1.1", &sign_message("A", "a", false));
    let d = peer_find(&h, 4, &with_id("find", "0001"));
    assert_eq!(
        d,
        Delivery {
            to: 4,
            payload: Payload::Reply(Response::Peer {
                kind: "peer".to_string(),
                peer: peer("0001", "A", "a", false)
            })
        }
    );
    let d = peer_find(&h, 4, &with_id("find", "0002"));
    assert_eq!(d.to, 4);
    assert!(matches!(d.payload, Payload::Reply(Response::Error { .. })));
}

#[test]
fn call_goes_to_callee_with_caller_description() {
    let mut h = hub(&[]);
    peer_sign(&mut h, 1, "1.1.1.1", &sign_message("A", "a", false));
    peer_sign(&mut h, 2, "2.2.2.2", &sign_message("B", "b", true));
    let mut m = with_id("call", "0002");
    m.password_text = Some("secret".to_string());
    m.pk = Some("key".to_string());
    let d = peer_call(&h, 1, &m);
    assert_eq!(
        d,
        Delivery {
            to: 2,
            payload: Payload::Reply(Response::Call {
                kind: "call".to_string(),
                peer: peer("0001", "A", "a", false),
                password: "secret".to_string(),
                pk: "key".to_string()
            })
        }
    );
    let d = peer_call(&h, 1, &with_id("call", "0002"));
    match d.payload {
        Payload::Reply(Response::Call { password, pk, .. }) => {
            assert_eq!(password, "");
            assert_eq!(pk, "");
        }
        other => panic!("unexpected payload {:?}", other),
    }
    let d = peer_call(&h, 1, &with_id("call", "0003"));
    assert_eq!(d.to, 1);
    assert!(matches!(d.payload, Payload::Reply(Response::Error { .. })));
}

#[test]
fn relay_forwards_to_signed_peer_only() {
    let mut h = hub(&[]);
    peer_sign(&mut h, 6, "1.1.1.1", &sign_message("A", "a", false));
    let mut m = with_id("sdp-offer", "0006");
    m.json = "{\"id\":\"0006\",\"type\":\"sdp-offer\"}".to_string();
    assert_eq!(
        relay(&h, &m),
        Some(Delivery { to: 6, payload: Payload::Forward(m.json.clone()) })
    );
    assert_eq!(relay(&h, &with_id("sdp-offer", "0007")), None);
    assert_eq!(relay(&h, &with_id("sdp-offer", "6")), None);
}

#[test]
fn fresh_hub_has_every_id_free() {
    let h = Hub::with_fresh_ids();
    assert_eq!(h.free_count(), 10000);
    assert!(h.lobby_members("1.1.1.1").0.is_empty());
}

#[test]
fn ids_in_use_stay_distinct() {
    let mut h = hub(&[1, 2, 3]);
    let (a, _) = gen_peer_id(&mut h);
    let (b, _) = gen_peer_id(&mut h);
    peer_sign(&mut h, a, "1.1.1.1", &sign_message("A", "a", false));
    peer_leave(&mut h, b);
    let (c, _) = gen_peer_id(&mut h);
    let (d, _) = gen_peer_id(&mut h);
    assert_eq!((a, c, d), (1, 3, 2));
    assert_eq!(h.free_count(), 0);
    assert_eq!(h.lobby_members("1.1.1.1").0, vec![1]);
}
