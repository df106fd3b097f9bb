//! The signaling protocol: what the server does with each message of a
//! connected client, and when a client goes away.

use crate::lobby::{is_lobby_broadcast, lemma_signed_peer_sees_itself, lobby_broadcast};
use crate::peer::{
    lemma_call_reaches_callee, lemma_find_answers_caller, lemma_relay_forwards_json,
    lemma_sign_records_message, peer_call, peer_find, peer_leave, peer_sign, pong_reply,
    pong_response, text_or_empty, EntryView, Hub, HubView,
};
use crate::peer_id::{spec_peer_id, ID_COUNT};
use crate::types::{
    deliveries_view, str_equals, ClientMessage, MessageView, Delivery, DeliveryView, Payload,
    PayloadView, PeerView, ResponseView,
};
use crate::message::{read_message, spec_read_message, TextError};
use vstd::prelude::*;

verus! {

/// The kinds of message a client sends, by their `type` field.
#[derive(Clone, Copy, Debug, PartialEq, Eq)]
pub enum MessageKind {
    /// `sign`: the client tells who it is and joins its lobby.
    Sign,
    /// `find`: the client asks for another peer's description.
    Find,
    /// `call`: the client calls another peer.
    Call,
    /// A message for another peer, passed on unchanged.
    Relay,
    /// `ping`: the client checks the connection.
    Ping,
    /// Any other type; ignored.
    Unknown,
}

/// The message types that are passed on to the peer they name.
pub open spec fn is_relay_kind(kind: Seq<char>) -> bool {
    ||| kind == "connect"@
    ||| kind == "disconnect"@
    ||| kind == "answer"@
    ||| kind == "error"@
    ||| kind == "sdp-offer"@
    ||| kind == "sdp-answer"@
    ||| kind == "ice-candidate"@
    ||| kind == "media"@
    ||| kind == "exchange-a"@
    ||| kind == "exchange-b"@
}

/// The kind of a message whose `type` field is `kind`.
pub open spec fn spec_classify(kind: Seq<char>) -> MessageKind {
    if kind == "sign"@ {
        MessageKind::Sign
    } else if kind == "find"@ {
        MessageKind::Find
    } else if kind == "call"@ {
        MessageKind::Call
    } else if is_relay_kind(kind) {
        MessageKind::Relay
    } else if kind == "ping"@ {
        MessageKind::Ping
    } else {
        MessageKind::Unknown
    }
}

/// Reads the kind of a message from its `type` field.
pub fn classify(kind: &str) -> (m: MessageKind)
    ensures
        m == spec_classify(kind@),
{
    if str_equals(kind, "sign") {
        MessageKind::Sign
    } else if str_equals(kind, "find") {
        MessageKind::Find
    } else if str_equals(kind, "call") {
        MessageKind::Call
    } else if str_equals(kind, "connect") || str_equals(kind, "disconnect") || str_equals(
        kind,
        "answer",
    ) || str_equals(kind, "error") || str_equals(kind, "sdp-offer") || str_equals(
        kind,
        "sdp-answer",
    ) || str_equals(kind, "ice-candidate") || str_equals(kind, "media") || str_equals(
        kind,
        "exchange-a",
    ) || str_equals(kind, "exchange-b") {
        MessageKind::Relay
    } else if str_equals(kind, "ping") {
        MessageKind::Ping
    } else {
        MessageKind::Unknown
    }
}

/// The delivery that answers a ping from peer `caller`.
pub fn pong(caller: u32) -> (d: Delivery)
    ensures
        d@ == (DeliveryView {
            to: caller,
            payload: PayloadView::Reply(pong_reply()),
        }),
{
    Delivery { to: caller, payload: Payload::Reply(pong_response()) }
}

/// Where to pass on a message that names a peer by its `id` field, and
/// the message's JSON to pass on.
pub fn relay(hub: &Hub, message: &ClientMessage) -> (res: Option<Delivery>)
    requires
        message.id is Some,
    ensures
        match (res, hub@.relay_outcome(message.id->0@, message.json@)) {
            (Some(d), Some(v)) => d@ == v,
            (None, None) => true,
            _ => false,
        },
{
    let id = match &message.id {
        Some(s) => s.as_str(),
        None => "",
    };
    match hub.find(id) {
        Some(k) => Some(Delivery { to: k, payload: Payload::Forward(message.json.clone()) }),
        None => None,
    }
}

/// The message carries every field that its kind needs, and a caller
/// has signed in before it calls.
pub open spec fn message_accepted(hub: HubView, peer_id: u32, message: MessageView) -> bool {
    match spec_classify(message.kind) {
        MessageKind::Sign => {
            &&& message.name is Some
            &&& message.password_flag is Some
            &&& message.emoji is Some
        },
        MessageKind::Find => message.id is Some,
        MessageKind::Call => message.id is Some && hub.peers.contains_key(peer_id),
        MessageKind::Relay => message.id is Some,
        _ => true,
    }
}

/// What serving `message` from peer `peer_id`, connected from
/// `peer_ip`, does to the registry (`old` to `new`) and sends (`out`).
pub open spec fn signaling_step(
    old: HubView,
    new: HubView,
    peer_ip: Seq<char>,
    peer_id: u32,
    message: MessageView,
    out: Seq<DeliveryView>,
) -> bool {
    match spec_classify(message.kind) {
        MessageKind::Sign => {
            &&& new == old.sign(
                peer_id,
                peer_ip,
                message.name->0,
                message.password_flag->0,
                message.emoji->0,
            )
            &&& is_lobby_broadcast(new, peer_ip, out)
        },
        MessageKind::Find => new == old && out == seq![old.find_outcome(peer_id, message.id->0)],
        MessageKind::Call => new == old && out == seq![
            old.call_outcome(
                peer_id,
                message.id->0,
                text_or_empty(message.password_text),
                text_or_empty(message.pk),
            ),
        ],
        MessageKind::Relay => new == old && out == match old.relay_outcome(message.id->0, message.json) {
            Some(d) => seq![d],
            None => Seq::empty(),
        },
        MessageKind::Ping => new == old && out == seq![
            DeliveryView { to: peer_id, payload: PayloadView::Reply(pong_reply()) },
        ],
        MessageKind::Unknown => new == old && out == Seq::<DeliveryView>::empty(),
    }
}

/// Whether `message` from peer `peer_id` can be served: see
/// `message_accepted`.
pub fn accepts(hub: &Hub, peer_id: u32, message: &ClientMessage) -> (b: bool)
    ensures
        b == message_accepted(hub@, peer_id, message@),
{
    match classify(message.kind.as_str()) {
        MessageKind::Sign => message.name.is_some() && message.password_flag.is_some()
            && message.emoji.is_some(),
        MessageKind::Find => message.id.is_some(),
        MessageKind::Call => message.id.is_some() && hub.is_signed(peer_id),
        MessageKind::Relay => message.id.is_some(),
        _ => true,
    }
}

/// Serves one message of peer `peer_id`, connected from `peer_ip`:
/// signs it in and tells its lobby, looks up or calls another peer,
/// passes a message on, or answers a ping. Returns the kind of the
/// message and what to send.
pub fn handle_message(hub: &mut Hub, peer_ip: &str, peer_id: u32, message: &ClientMessage) -> (res: (
    MessageKind,
    Vec<Delivery>,
))
    requires
        peer_id < ID_COUNT,
        message_accepted(old(hub)@, peer_id, message@),
    ensures
        res.0 == spec_classify(message@.kind),
        signaling_step(old(hub)@, final(hub)@, peer_ip@, peer_id, message@, deliveries_view(res.1@)),
{
    let kind = classify(message.kind.as_str());
    let mut out: Vec<Delivery> = Vec::new();
    match kind {
        MessageKind::Sign => {
            peer_sign(hub, peer_id, peer_ip, message);
            out = lobby_broadcast(hub, peer_ip);
        },
        MessageKind::Find => {
            out.push(peer_find(hub, peer_id, message));
            assert(deliveries_view(out@) =~= seq![out@[0]@]);
        },
        MessageKind::Call => {
            out.push(peer_call(hub, peer_id, message));
            assert(deliveries_view(out@) =~= seq![out@[0]@]);
        },
        MessageKind::Relay => {
            if let Some(d) = relay(hub, message) {
                out.push(d);
                assert(deliveries_view(out@) =~= seq![out@[0]@]);
            } else {
                assert(deliveries_view(out@) =~= Seq::<DeliveryView>::empty());
            }
        },
        MessageKind::Ping => {
            out.push(pong(peer_id));
            assert(deliveries_view(out@) =~= seq![out@[0]@]);
        },
        MessageKind::Unknown => {
            assert(deliveries_view(out@) =~= Seq::<DeliveryView>::empty());
        },
    }
    (kind, out)
}

/// A connection has ended: peer `peer_id` leaves, and the peers that
/// connect from its address are told who is left in their lobby.
pub fn connection_closed(hub: &mut Hub, peer_ip: &str, peer_id: u32) -> (out: Vec<Delivery>)
    requires
        peer_id < ID_COUNT,
    ensures
        final(hub)@ == old(hub)@.leave(peer_id),
        is_lobby_broadcast(final(hub)@, peer_ip@, deliveries_view(out@)),
{
    peer_leave(hub, peer_id);
    lobby_broadcast(hub, peer_ip)
}


/// Serves the frame text `text` of peer `peer_id`, connected from
/// `peer_ip`: reads the message and serves it as `handle_message` does.
/// Text that is not a message, or a message that cannot be served, is
/// refused and changes nothing.
pub fn handle_text(hub: &mut Hub, peer_ip: &str, peer_id: u32, text: &str) -> (res: Result<
    (MessageKind, Vec<Delivery>),
    TextError,
>)
    requires
        peer_id < ID_COUNT,
    ensures
        match spec_read_message(text@) {
            None => res matches Err(TextError::Unreadable) && final(hub)@ == old(hub)@,
            Some(m) => if message_accepted(old(hub)@, peer_id, m) {
                res matches Ok((k, out)) && k == spec_classify(m.kind) && signaling_step(
                    old(hub)@,
                    final(hub)@,
                    peer_ip@,
                    peer_id,
                    m,
                    deliveries_view(out@),
                )
            } else {
                res matches Err(TextError::Incomplete) && final(hub)@ == old(hub)@
            },
        },
{
    match read_message(text) {
        None => Err(TextError::Unreadable),
        Some(m) => if accepts(hub, peer_id, &m) {
            Ok(handle_message(hub, peer_ip, peer_id, &m))
        } else {
            Err(TextError::Incomplete)
        },
    }
}

/// Serving a message of a live connection keeps the registry accounting
/// for the same connections: no id in use becomes free.
pub proof fn lemma_signaling_step_keeps_account(
    old: HubView,
    new: HubView,
    connected: Set<u32>,
    ids: Set<u32>,
    peer_ip: Seq<char>,
    peer_id: u32,
    message: MessageView,
    out: Seq<DeliveryView>,
)
    requires
        old.accounts_for(connected, ids),
        connected.contains(peer_id),
        signaling_step(old, new, peer_ip, peer_id, message, out),
    ensures
        new.accounts_for(connected, ids),
{
}

/// A sign message that carries a name, a password flag and an emoji is
/// served whatever the registry holds, also from a peer that has signed
/// in before. Serving it records the peer exactly as the message
/// describes it, replacing any earlier entry, leaves every other entry
/// and the free ids as they were, and sends the peer its lobby, which
/// lists it with that description.
pub proof fn lemma_sign_message_served(
    old: HubView,
    new: HubView,
    peer_ip: Seq<char>,
    peer_id: u32,
    message: MessageView,
    out: Seq<DeliveryView>,
)
    requires
        message.kind == "sign"@,
        message.name is Some,
        message.password_flag is Some,
        message.emoji is Some,
    ensures
        message_accepted(old, peer_id, message),
        signaling_step(old, new, peer_ip, peer_id, message, out) ==> {
            &&& new.peers[peer_id] == (EntryView {
                ip: peer_ip,
                peer: PeerView {
                    id: spec_peer_id(peer_id as int),
                    emoji: message.emoji->0,
                    name: message.name->0,
                    password: message.password_flag->0,
                },
            })
            &&& new.peers.remove(peer_id) == old.peers.remove(peer_id)
            &&& new.free == old.free
            &&& exists|i: int|
                0 <= i < out.len() && out[i].to == peer_id && (
                #[trigger] out[i].payload matches PayloadView::Reply(
                    ResponseView::Lobby { peers, .. },
                ) && peers.contains(
                    PeerView {
                        id: spec_peer_id(peer_id as int),
                        emoji: message.emoji->0,
                        name: message.name->0,
                        password: message.password_flag->0,
                    },
                ))
        },
{
    let (name, password, emoji) = (message.name->0, message.password_flag->0, message.emoji->0);
    lemma_sign_records_message(old, peer_id, peer_ip, name, password, emoji);
    if signaling_step(old, new, peer_ip, peer_id, message, out) {
        lemma_signed_peer_sees_itself(old, peer_id, peer_ip, name, password, emoji, out);
    }
}

/// A find message that carries an id is served whatever the registry
/// holds: the registry stays as it is and the sender alone is answered.
/// When the id is the four-digit id of a signed-in peer, the answer is
/// that peer's recorded description, whatever it holds; when no peer
/// with that id has signed in, the answer is "No peer found".
pub proof fn lemma_find_message_served(
    old: HubView,
    new: HubView,
    peer_ip: Seq<char>,
    peer_id: u32,
    message: MessageView,
    out: Seq<DeliveryView>,
    k: u32,
)
    requires
        message.kind == "find"@,
        message.id is Some,
    ensures
        message_accepted(old, peer_id, message),
        signaling_step(old, new, peer_ip, peer_id, message, out) ==> new == old && out.len() == 1
            && out[0].to == peer_id,
        signaling_step(old, new, peer_ip, peer_id, message, out) && k < ID_COUNT && message.id
            == Some(spec_peer_id(k as int)) && old.peers.contains_key(k) ==> out == seq![
            DeliveryView {
                to: peer_id,
                payload: PayloadView::Reply(
                    ResponseView::Peer { kind: "peer"@, peer: old.peers[k].peer },
                ),
            },
        ],
        signaling_step(old, new, peer_ip, peer_id, message, out) && k < ID_COUNT && message.id
            == Some(spec_peer_id(k as int)) && !old.peers.contains_key(k) ==> out == seq![
            DeliveryView {
                to: peer_id,
                payload: PayloadView::Reply(
                    ResponseView::Error { kind: "error"@, message: "No peer found"@ },
                ),
            },
        ],
{
    reveal_strlit("sign");
    reveal_strlit("find");
    assert(message.kind[0] != "sign"@[0]);
    assert(spec_classify(message.kind) == MessageKind::Find);
    if k < ID_COUNT {
        lemma_find_answers_caller(old, peer_id, k);
    }
}

/// A call message that carries an id is served exactly when its sender
/// has signed in, whatever else the registry holds; serving it leaves
/// the registry as it is and sends one delivery. When the id is the
/// four-digit id of a signed-in peer, that peer, wherever either
/// connects from, is sent the caller's recorded description with the
/// message's password and key (empty where missing); when no peer with
/// that id has signed in, the caller is told "No peer found".
pub proof fn lemma_call_message_served(
    old: HubView,
    new: HubView,
    peer_ip: Seq<char>,
    peer_id: u32,
    message: MessageView,
    out: Seq<DeliveryView>,
    k: u32,
)
    requires
        message.kind == "call"@,
        message.id is Some,
    ensures
        message_accepted(old, peer_id, message) <==> old.peers.contains_key(peer_id),
        signaling_step(old, new, peer_ip, peer_id, message, out) ==> new == old && out.len() == 1,
        signaling_step(old, new, peer_ip, peer_id, message, out) && k < ID_COUNT && message.id
            == Some(spec_peer_id(k as int)) && old.peers.contains_key(k) ==> out == seq![
            DeliveryView {
                to: k,
                payload: PayloadView::Reply(
                    ResponseView::Call {
                        kind: "call"@,
                        peer: old.peers[peer_id].peer,
                        password: match message.password_text {
                            Some(p) => p,
                            None => Seq::empty(),
                        },
                        pk: match message.pk {
                            Some(p) => p,
                            None => Seq::empty(),
                        },
                    },
                ),
            },
        ],
        signaling_step(old, new, peer_ip, peer_id, message, out) && k < ID_COUNT && message.id
            == Some(spec_peer_id(k as int)) && !old.peers.contains_key(k) ==> out == seq![
            DeliveryView {
                to: peer_id,
                payload: PayloadView::Reply(
                    ResponseView::Error { kind: "error"@, message: "No peer found"@ },
                ),
            },
        ],
{
    reveal_strlit("sign");
    reveal_strlit("find");
    reveal_strlit("call");
    assert(message.kind[0] != "sign"@[0]);
    assert(message.kind[0] != "find"@[0]);
    assert(spec_classify(message.kind) == MessageKind::Call);
    if k < ID_COUNT {
        lemma_call_reaches_callee(
            old,
            peer_id,
            k,
            text_or_empty(message.password_text),
            text_or_empty(message.pk),
        );
    }
}

/// A message of a relayed type that carries an id is served whatever the
/// registry holds, and leaves it as it is. When the id is the four-digit
/// id of a signed-in peer, that peer is sent exactly the message's JSON,
/// whatever its length; when no peer with that id has signed in, nothing
/// is sent.
pub proof fn lemma_relay_message_served(
    old: HubView,
    new: HubView,
    peer_ip: Seq<char>,
    peer_id: u32,
    message: MessageView,
    out: Seq<DeliveryView>,
    k: u32,
)
    requires
        is_relay_kind(message.kind),
        message.id is Some,
    ensures
        message_accepted(old, peer_id, message),
        signaling_step(old, new, peer_ip, peer_id, message, out) ==> new == old && out.len() <= 1,
        signaling_step(old, new, peer_ip, peer_id, message, out) && k < ID_COUNT && message.id
            == Some(spec_peer_id(k as int)) ==> {
            &&& old.peers.contains_key(k) ==> out == seq![
                DeliveryView { to: k, payload: PayloadView::Forward(message.json) },
            ]
            &&& !old.peers.contains_key(k) ==> out == Seq::<DeliveryView>::empty()
        },
{
    reveal_strlit("sign");
    reveal_strlit("find");
    reveal_strlit("call");
    reveal_strlit("connect");
    reveal_strlit("disconnect");
    reveal_strlit("answer");
    reveal_strlit("error");
    reveal_strlit("sdp-offer");
    reveal_strlit("sdp-answer");
    reveal_strlit("ice-candidate");
    reveal_strlit("media");
    reveal_strlit("exchange-a");
    reveal_strlit("exchange-b");
    assert(message.kind.len() != "sign"@.len());
    assert(message.kind.len() != "find"@.len());
    assert(message.kind.len() != "call"@.len());
    assert(spec_classify(message.kind) == MessageKind::Relay);
    if k < ID_COUNT {
        lemma_relay_forwards_json(old, k, message.json);
    }
}

/// The kind of each message type the protocol knows: `sign`, `find`,
/// `call` and `ping` are served as such; `connect`, `disconnect`,
/// `answer`, `error`, `sdp-offer`, `sdp-answer`, `ice-candidate`,
/// `media`, `exchange-a` and `exchange-b` are passed on.
pub proof fn lemma_classify_kinds()
    ensures
        spec_classify("sign"@) == MessageKind::Sign,
        spec_classify("find"@) == MessageKind::Find,
        spec_classify("call"@) == MessageKind::Call,
        spec_classify("ping"@) == MessageKind::Ping,
        spec_classify("connect"@) == MessageKind::Relay,
        spec_classify("disconnect"@) == MessageKind::Relay,
        spec_classify("answer"@) == MessageKind::Relay,
        spec_classify("error"@) == MessageKind::Relay,
        spec_classify("sdp-offer"@) == MessageKind::Relay,
        spec_classify("sdp-answer"@) == MessageKind::Relay,
        spec_classify("ice-candidate"@) == MessageKind::Relay,
        spec_classify("media"@) == MessageKind::Relay,
        spec_classify("exchange-a"@) == MessageKind::Relay,
        spec_classify("exchange-b"@) == MessageKind::Relay,
{
    reveal_strlit("sign");
    reveal_strlit("find");
    reveal_strlit("call");
    reveal_strlit("ping");
    reveal_strlit("connect");
    reveal_strlit("disconnect");
    reveal_strlit("answer");
    reveal_strlit("error");
    reveal_strlit("sdp-offer");
    reveal_strlit("sdp-answer");
    reveal_strlit("ice-candidate");
    reveal_strlit("media");
    reveal_strlit("exchange-a");
    reveal_strlit("exchange-b");
    assert("find"@[0] != "sign"@[0]);
    assert("call"@[0] != "sign"@[0]);
    assert("call"@[0] != "find"@[0]);
    assert("ping"@[0] != "sign"@[0]);
    assert("ping"@[0] != "find"@[0]);
    assert("ping"@[0] != "call"@[0]);
    assert("connect"@.len() != "call"@.len());
    assert("sdp-offer"@.len() != "sign"@.len());
}

/// A ping is served whatever the registry holds: the registry stays as
/// it is and the sender alone is answered `pong`.
pub proof fn lemma_ping_message_served(
    old: HubView,
    new: HubView,
    peer_ip: Seq<char>,
    peer_id: u32,
    message: MessageView,
    out: Seq<DeliveryView>,
)
    requires
        message.kind == "ping"@,
    ensures
        message_accepted(old, peer_id, message),
        signaling_step(old, new, peer_ip, peer_id, message, out) ==> new == old && out == seq![
            DeliveryView { to: peer_id, payload: PayloadView::Reply(ResponseView::Ack { kind: "pong"@ }) },
        ],
{
    lemma_classify_kinds();
}

/// A message of a type the protocol does not know is accepted and
/// ignored: the registry stays as it is and nothing is sent.
pub proof fn lemma_unknown_message_ignored(
    old: HubView,
    new: HubView,
    peer_ip: Seq<char>,
    peer_id: u32,
    message: MessageView,
    out: Seq<DeliveryView>,
)
    requires
        message.kind != "sign"@,
        message.kind != "find"@,
        message.kind != "call"@,
        message.kind != "ping"@,
        !is_relay_kind(message.kind),
    ensures
        message_accepted(old, peer_id, message),
        signaling_step(old, new, peer_ip, peer_id, message, out) ==> new == old && out
            == Seq::<DeliveryView>::empty(),
{
}

} // verus!
