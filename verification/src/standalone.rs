//! The single-process signaling server: a client says `hello` with its
//! description, and the peers at the address that changed are told its
//! lobby.

use crate::lobby::{is_lobby_broadcast, lemma_signed_peer_sees_itself, lobby_broadcast};
use crate::peer::{
    lemma_sign_records_message, peer_leave, peer_sign, pong_reply, EntryView, Hub, HubView,
};
use crate::signaling::pong;
use crate::peer_id::{spec_peer_id, ID_COUNT};
use crate::types::{
    deliveries_view, str_equals, ClientMessage, MessageView, Delivery, DeliveryView, PayloadView,
    PeerView, ResponseView,
};
use crate::message::{read_message, spec_read_message, TextError};
use vstd::prelude::*;

verus! {

/// The kinds of message of the single-process server.
#[derive(Clone, Copy, Debug, PartialEq, Eq)]
pub enum HelloKind {
    /// `hello`: the client tells who it is.
    Hello,
    /// `ping`: the client checks the connection.
    Ping,
    /// Any other type; ignored.
    Unknown,
}

/// The kind of a message whose `type` field is `kind`.
pub open spec fn spec_hello_kind(kind: Seq<char>) -> HelloKind {
    if kind == "hello"@ {
        HelloKind::Hello
    } else if kind == "ping"@ {
        HelloKind::Ping
    } else {
        HelloKind::Unknown
    }
}

/// Reads the kind of a message from its `type` field.
pub fn hello_kind(kind: &str) -> (k: HelloKind)
    ensures
        k == spec_hello_kind(kind@),
{
    if str_equals(kind, "hello") {
        HelloKind::Hello
    } else if str_equals(kind, "ping") {
        HelloKind::Ping
    } else {
        HelloKind::Unknown
    }
}

/// A hello carries the fields of a description.
pub open spec fn hello_accepted(message: MessageView) -> bool {
    spec_hello_kind(message.kind) is Hello ==> {
        &&& message.name is Some
        &&& message.password_flag is Some
        &&& message.emoji is Some
    }
}

/// What serving `message` from peer `peer_id`, connected from `peer_ip`,
/// does to the registry (`old` to `new`) and sends (`out`).
pub open spec fn hello_step(
    old: HubView,
    new: HubView,
    peer_ip: Seq<char>,
    peer_id: u32,
    message: MessageView,
    out: Seq<DeliveryView>,
) -> bool {
    match spec_hello_kind(message.kind) {
        HelloKind::Hello => {
            &&& new == old.sign(
                peer_id,
                peer_ip,
                message.name->0,
                message.password_flag->0,
                message.emoji->0,
            )
            &&& is_lobby_broadcast(new, peer_ip, out)
        },
        HelloKind::Ping => new == old && out == seq![
            DeliveryView { to: peer_id, payload: PayloadView::Reply(pong_reply()) },
        ],
        HelloKind::Unknown => new == old && out == Seq::<DeliveryView>::empty(),
    }
}

/// Whether `message` can be served: see `hello_accepted`.
pub fn accepts(message: &ClientMessage) -> (b: bool)
    ensures
        b == hello_accepted(message@),
{
    match hello_kind(message.kind.as_str()) {
        HelloKind::Hello => message.name.is_some() && message.password_flag.is_some()
            && message.emoji.is_some(),
        _ => true,
    }
}

/// Serves one non-empty message of peer `peer_id`, connected from
/// `peer_ip`: a hello records the peer and tells the peers at its address
/// their lobby; a ping is answered.
pub fn handle_message(hub: &mut Hub, peer_ip: &str, peer_id: u32, message: &ClientMessage) -> (res: (
    HelloKind,
    Vec<Delivery>,
))
    requires
        peer_id < ID_COUNT,
        hello_accepted(message@),
    ensures
        res.0 == spec_hello_kind(message@.kind),
        hello_step(old(hub)@, final(hub)@, peer_ip@, peer_id, message@, deliveries_view(res.1@)),
{
    let kind = hello_kind(message.kind.as_str());
    let mut out: Vec<Delivery> = Vec::new();
    match kind {
        HelloKind::Hello => {
            peer_sign(hub, peer_id, peer_ip, message);
            out = lobby_broadcast(hub, peer_ip);
        },
        HelloKind::Ping => {
            out.push(pong(peer_id));
            assert(deliveries_view(out@) =~= seq![out@[0]@]);
        },
        HelloKind::Unknown => {
            assert(deliveries_view(out@) =~= Seq::<DeliveryView>::empty());
        },
    }
    (kind, out)
}

/// A connection has ended: peer `peer_id` leaves, its id goes back to
/// the pool, and the peers at its address are told their lobby.
pub fn disconnect(hub: &mut Hub, peer_ip: &str, peer_id: u32) -> (out: Vec<Delivery>)
    requires
        peer_id < ID_COUNT,
    ensures
        final(hub)@ == old(hub)@.leave(peer_id),
        is_lobby_broadcast(final(hub)@, peer_ip@, deliveries_view(out@)),
{
    peer_leave(hub, peer_id);
    lobby_broadcast(hub, peer_ip)
}


/// Serves the frame text `text` of peer `peer_id`, connected from
/// `peer_ip`: empty text is skipped (`Ok(None)`); otherwise the message is
/// read and served as `handle_message` does. Text that is not a message,
/// or a hello without a description, is refused and changes nothing.
pub fn handle_text(hub: &mut Hub, peer_ip: &str, peer_id: u32, text: &str) -> (res: Result<
    Option<(HelloKind, Vec<Delivery>)>,
    TextError,
>)
    requires
        peer_id < ID_COUNT,
    ensures
        text@.len() == 0 ==> (res matches Ok(None) && final(hub)@ == old(hub)@),
        text@.len() != 0 ==> match spec_read_message(text@) {
            None => res matches Err(TextError::Unreadable) && final(hub)@ == old(hub)@,
            Some(m) => if hello_accepted(m) {
                res matches Ok(Some((k, out))) && k == spec_hello_kind(m.kind) && hello_step(
                    old(hub)@,
                    final(hub)@,
                    peer_ip@,
                    peer_id,
                    m,
                    deliveries_view(out@),
                )
            } else {
                res matches Err(TextError::Incomplete) && final(hub)@ == old(hub)@
            },
        },
{
    if text.is_empty() {
        return Ok(None);
    }
    match read_message(text) {
        None => Err(TextError::Unreadable),
        Some(m) => if accepts(&m) {
            Ok(Some(handle_message(hub, peer_ip, peer_id, &m)))
        } else {
            Err(TextError::Incomplete)
        },
    }
}

/// Serving a message of a live connection keeps the registry accounting
/// for the same connections: no id in use becomes free.
pub proof fn lemma_hello_step_keeps_account(
    old: HubView,
    new: HubView,
    connected: Set<u32>,
    ids: Set<u32>,
    peer_ip: Seq<char>,
    peer_id: u32,
    message: MessageView,
    out: Seq<DeliveryView>,
)
    requires
        old.accounts_for(connected, ids),
        connected.contains(peer_id),
        hello_step(old, new, peer_ip, peer_id, message, out),
    ensures
        new.accounts_for(connected, ids),
{
}

/// A `hello` message that carries a name, a password flag and an emoji is
/// served whatever the registry holds, also from a peer that has greeted
/// before. Serving it records the peer exactly as the message describes
/// it, replacing any earlier entry, leaves every other entry and the free
/// ids as they were, and sends the peer its lobby, which lists it with
/// that description.
pub proof fn lemma_hello_message_served(
    old: HubView,
    new: HubView,
    peer_ip: Seq<char>,
    peer_id: u32,
    message: MessageView,
    out: Seq<DeliveryView>,
)
    requires
        message.kind == "hello"@,
        message.name is Some,
        message.password_flag is Some,
        message.emoji is Some,
    ensures
        hello_accepted(message),
        hello_step(old, new, peer_ip, peer_id, message, out) ==> {
            &&& new.peers[peer_id] == (EntryView {
                ip: peer_ip,
                peer: PeerView {
                    id: spec_peer_id(peer_id as int),
                    emoji: message.emoji->0,
                    name: message.name->0,
                    password: message.password_flag->0,
                },
            })
            &&& new.peers.remove(peer_id) == old.peers.remove(peer_id)
            &&& new.free == old.free
            &&& exists|i: int|
                0 <= i < out.len() && out[i].to == peer_id && (
                #[trigger] out[i].payload matches PayloadView::Reply(
                    ResponseView::Lobby { peers, .. },
                ) && peers.contains(
                    PeerView {
                        id: spec_peer_id(peer_id as int),
                        emoji: message.emoji->0,
                        name: message.name->0,
                        password: message.password_flag->0,
                    },
                ))
        },
{
    let (name, password, emoji) = (message.name->0, message.password_flag->0, message.emoji->0);
    lemma_sign_records_message(old, peer_id, peer_ip, name, password, emoji);
    if hello_step(old, new, peer_ip, peer_id, message, out) {
        lemma_signed_peer_sees_itself(old, peer_id, peer_ip, name, password, emoji, out);
    }
}

/// Any message other than `hello` is accepted and leaves the registry as
/// it is: a ping is answered `pong`, to its sender alone, and a message
/// of any other type is ignored.
pub proof fn lemma_other_hellos(
    old: HubView,
    new: HubView,
    peer_ip: Seq<char>,
    peer_id: u32,
    message: MessageView,
    out: Seq<DeliveryView>,
)
    requires
        message.kind != "hello"@,
    ensures
        hello_accepted(message),
        hello_step(old, new, peer_ip, peer_id, message, out) ==> new == old,
        hello_step(old, new, peer_ip, peer_id, message, out) && message.kind == "ping"@ ==> out
            == seq![
            DeliveryView { to: peer_id, payload: PayloadView::Reply(ResponseView::Ack { kind: "pong"@ }) },
        ],
        hello_step(old, new, peer_ip, peer_id, message, out) && message.kind != "ping"@ ==> out
            == Seq::<DeliveryView>::empty(),
{
}

} // verus!
