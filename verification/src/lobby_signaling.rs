//! The lobby-only signaling protocol: a client greets the server with
//! `hi` and its description, and sees who else connects from its address.

use crate::lobby::{is_lobby_broadcast, lemma_signed_peer_sees_itself, lobby_broadcast};
use crate::peer::{lemma_sign_records_message, peer_sign, pong_reply, EntryView, Hub, HubView};
use crate::signaling::pong;
use crate::peer_id::{spec_peer_id, ID_COUNT};
use crate::types::{
    deliveries_view, str_equals, ClientMessage, MessageView, Delivery, DeliveryView, PayloadView,
    PeerView, ResponseView,
};
use crate::message::{read_message, spec_read_message, TextError};
use vstd::prelude::*;

verus! {

/// The kinds of message of the lobby-only protocol.
#[derive(Clone, Copy, Debug, PartialEq, Eq)]
pub enum GreetingKind {
    /// `hi`: the client tells who it is and joins its lobby.
    Hi,
    /// `ping`: the client checks the connection.
    Ping,
    /// Any other type; ignored.
    Unknown,
}

/// The kind of a message whose `type` field is `kind`.
pub open spec fn spec_greeting_kind(kind: Seq<char>) -> GreetingKind {
    if kind == "hi"@ {
        GreetingKind::Hi
    } else if kind == "ping"@ {
        GreetingKind::Ping
    } else {
        GreetingKind::Unknown
    }
}

/// Reads the kind of a message from its `type` field.
pub fn greeting_kind(kind: &str) -> (k: GreetingKind)
    ensures
        k == spec_greeting_kind(kind@),
{
    if str_equals(kind, "hi") {
        GreetingKind::Hi
    } else if str_equals(kind, "ping") {
        GreetingKind::Ping
    } else {
        GreetingKind::Unknown
    }
}

/// A greeting carries the fields of a description.
pub open spec fn greeting_accepted(message: MessageView) -> bool {
    spec_greeting_kind(message.kind) is Hi ==> {
        &&& message.name is Some
        &&& message.password_flag is Some
        &&& message.emoji is Some
    }
}

/// What serving `message` from peer `peer_id`, connected from `peer_ip`,
/// does to the registry (`old` to `new`) and sends (`out`).
pub open spec fn greeting_step(
    old: HubView,
    new: HubView,
    peer_ip: Seq<char>,
    peer_id: u32,
    message: MessageView,
    out: Seq<DeliveryView>,
) -> bool {
    match spec_greeting_kind(message.kind) {
        GreetingKind::Hi => {
            &&& new == old.sign(
                peer_id,
                peer_ip,
                message.name->0,
                message.password_flag->0,
                message.emoji->0,
            )
            &&& is_lobby_broadcast(new, peer_ip, out)
        },
        GreetingKind::Ping => new == old && out == seq![
            DeliveryView { to: peer_id, payload: PayloadView::Reply(pong_reply()) },
        ],
        GreetingKind::Unknown => new == old && out == Seq::<DeliveryView>::empty(),
    }
}

/// Whether `message` can be served: see `greeting_accepted`.
pub fn accepts(message: &ClientMessage) -> (b: bool)
    ensures
        b == greeting_accepted(message@),
{
    match greeting_kind(message.kind.as_str()) {
        GreetingKind::Hi => message.name.is_some() && message.password_flag.is_some()
            && message.emoji.is_some(),
        _ => true,
    }
}

/// Serves one message of peer `peer_id`, connected from `peer_ip`: a
/// greeting signs it in and tells its lobby; a ping is answered.
pub fn handle_message(hub: &mut Hub, peer_ip: &str, peer_id: u32, message: &ClientMessage) -> (res: (
    GreetingKind,
    Vec<Delivery>,
))
    requires
        peer_id < ID_COUNT,
        greeting_accepted(message@),
    ensures
        res.0 == spec_greeting_kind(message@.kind),
        greeting_step(old(hub)@, final(hub)@, peer_ip@, peer_id, message@, deliveries_view(res.1@)),
{
    let kind = greeting_kind(message.kind.as_str());
    let mut out: Vec<Delivery> = Vec::new();
    match kind {
        GreetingKind::Hi => {
            peer_sign(hub, peer_id, peer_ip, message);
            out = lobby_broadcast(hub, peer_ip);
        },
        GreetingKind::Ping => {
            out.push(pong(peer_id));
            assert(deliveries_view(out@) =~= seq![out@[0]@]);
        },
        GreetingKind::Unknown => {
            assert(deliveries_view(out@) =~= Seq::<DeliveryView>::empty());
        },
    }
    (kind, out)
}


/// Serves the frame text `text` of peer `peer_id`, connected from
/// `peer_ip`: reads the message and serves it as `handle_message` does.
/// Text that is not a message, or a message that cannot be served, is
/// refused and changes nothing.
pub fn handle_text(hub: &mut Hub, peer_ip: &str, peer_id: u32, text: &str) -> (res: Result<
    (GreetingKind, Vec<Delivery>),
    TextError,
>)
    requires
        peer_id < ID_COUNT,
    ensures
        match spec_read_message(text@) {
            None => res matches Err(TextError::Unreadable) && final(hub)@ == old(hub)@,
            Some(m) => if greeting_accepted(m) {
                res matches Ok((k, out)) && k == spec_greeting_kind(m.kind) && greeting_step(
                    old(hub)@,
                    final(hub)@,
                    peer_ip@,
                    peer_id,
                    m,
                    deliveries_view(out@),
                )
            } else {
                res matches Err(TextError::Incomplete) && final(hub)@ == old(hub)@
            },
        },
{
    match read_message(text) {
        None => Err(TextError::Unreadable),
        Some(m) => if accepts(&m) {
            Ok(handle_message(hub, peer_ip, peer_id, &m))
        } else {
            Err(TextError::Incomplete)
        },
    }
}

/// Serving a message of a live connection keeps the registry accounting
/// for the same connections: no id in use becomes free.
pub proof fn lemma_greeting_step_keeps_account(
    old: HubView,
    new: HubView,
    connected: Set<u32>,
    ids: Set<u32>,
    peer_ip: Seq<char>,
    peer_id: u32,
    message: MessageView,
    out: Seq<DeliveryView>,
)
    requires
        old.accounts_for(connected, ids),
        connected.contains(peer_id),
        greeting_step(old, new, peer_ip, peer_id, message, out),
    ensures
        new.accounts_for(connected, ids),
{
}

/// A `hi` message that carries a name, a password flag and an emoji is
/// served whatever the registry holds, also from a peer that has greeted
/// before. Serving it records the peer exactly as the message describes
/// it, replacing any earlier entry, leaves every other entry and the free
/// ids as they were, and sends the peer its lobby, which lists it with
/// that description.
pub proof fn lemma_hi_message_served(
    old: HubView,
    new: HubView,
    peer_ip: Seq<char>,
    peer_id: u32,
    message: MessageView,
    out: Seq<DeliveryView>,
)
    requires
        message.kind == "hi"@,
        message.name is Some,
        message.password_flag is Some,
        message.emoji is Some,
    ensures
        greeting_accepted(message),
        greeting_step(old, new, peer_ip, peer_id, message, out) ==> {
            &&& new.peers[peer_id] == (EntryView {
                ip: peer_ip,
                peer: PeerView {
                    id: spec_peer_id(peer_id as int),
                    emoji: message.emoji->0,
                    name: message.name->0,
                    password: message.password_flag->0,
                },
            })
            &&& new.peers.remove(peer_id) == old.peers.remove(peer_id)
            &&& new.free == old.free
            &&& exists|i: int|
                0 <= i < out.len() && out[i].to == peer_id && (
                #[trigger] out[i].payload matches PayloadView::Reply(
                    ResponseView::Lobby { peers, .. },
                ) && peers.contains(
                    PeerView {
                        id: spec_peer_id(peer_id as int),
                        emoji: message.emoji->0,
                        name: message.name->0,
                        password: message.password_flag->0,
                    },
                ))
        },
{
    let (name, password, emoji) = (message.name->0, message.password_flag->0, message.emoji->0);
    lemma_sign_records_message(old, peer_id, peer_ip, name, password, emoji);
    if greeting_step(old, new, peer_ip, peer_id, message, out) {
        lemma_signed_peer_sees_itself(old, peer_id, peer_ip, name, password, emoji, out);
    }
}

/// Any message other than `hi` is accepted and leaves the registry as
/// it is: a ping is answered `pong`, to its sender alone, and a message
/// of any other type is ignored.
pub proof fn lemma_other_greetings(
    old: HubView,
    new: HubView,
    peer_ip: Seq<char>,
    peer_id: u32,
    message: MessageView,
    out: Seq<DeliveryView>,
)
    requires
        message.kind != "hi"@,
    ensures
        greeting_accepted(message),
        greeting_step(old, new, peer_ip, peer_id, message, out) ==> new == old,
        greeting_step(old, new, peer_ip, peer_id, message, out) && message.kind == "ping"@ ==> out
            == seq![
            DeliveryView { to: peer_id, payload: PayloadView::Reply(ResponseView::Ack { kind: "pong"@ }) },
        ],
        greeting_step(old, new, peer_ip, peer_id, message, out) && message.kind != "ping"@ ==> out
            == Seq::<DeliveryView>::empty(),
{
}

} // verus!
