//! The lobby: the peers that connect from one address see each other.

use crate::peer::{lobby_reply, signed_entry, Hub, HubView};
use crate::peer_id::{spec_peer_id, ID_COUNT};
use crate::types::{
    deliveries_view, duplicate_peers, peers_view, Delivery, DeliveryView, Payload, PayloadView,
    Peer, PeerView, Response, ResponseView,
};
use vstd::prelude::*;

verus! {

/// The deliveries that send the lobby list `peers` to each of
/// `recipients`, in that order.
pub open spec fn lobby_deliveries(recipients: Seq<u32>, peers: Seq<PeerView>) -> Seq<DeliveryView> {
    recipients.map_values(
        |k: u32| DeliveryView { to: k, payload: PayloadView::Reply(lobby_reply(peers)) },
    )
}

/// `out` sends every peer connected from `ip` the list of those peers, in
/// some order that the registry's map decides.
pub open spec fn is_lobby_broadcast(hub: HubView, ip: Seq<char>, out: Seq<DeliveryView>) -> bool {
    exists|order: Seq<u32>|
        hub.is_lobby_order(ip, order) && out == lobby_deliveries(order, hub.peers_in(order))
}

/// Builds the response that lists the members of a lobby.
pub fn lobby_response(peers: &Vec<Peer>) -> (r: Response)
    ensures
        r@ == lobby_reply(peers_view(peers@)),
{
    Response::Lobby { kind: String::from_str("lobby"), peers: duplicate_peers(peers) }
}

/// The deliveries that send `peers` as the lobby list to each of
/// `recipients`.
pub fn send_lobby(recipients: &Vec<u32>, peers: &Vec<Peer>) -> (out: Vec<Delivery>)
    ensures
        deliveries_view(out@) == lobby_deliveries(recipients@, peers_view(peers@)),
{
    let mut out: Vec<Delivery> = Vec::new();
    let mut i: usize = 0;
    while i < recipients.len()
        invariant
            i <= recipients@.len(),
            deliveries_view(out@) == lobby_deliveries(recipients@.take(i as int), peers_view(peers@)),
        decreases recipients@.len() - i,
    {
        let ghost before = out@;
        out.push(Delivery { to: recipients[i], payload: Payload::Reply(lobby_response(peers)) });
        assert(deliveries_view(out@) =~= deliveries_view(before).push(deliveries_view(out@).last()));
        i = i + 1;
        assert(deliveries_view(out@) =~= lobby_deliveries(
            recipients@.take(i as int),
            peers_view(peers@),
        ));
    }
    assert(recipients@.take(recipients@.len() as int) =~= recipients@);
    out
}

/// Tells every peer connected from `peer_ip` who is in its lobby: the
/// list of those peers, sent to each of them.
pub fn lobby_broadcast(hub: &Hub, peer_ip: &str) -> (out: Vec<Delivery>)
    ensures
        is_lobby_broadcast(hub@, peer_ip@, deliveries_view(out@)),
{
    let (members, peers) = hub.lobby_members(peer_ip);
    let out = send_lobby(&members, &peers);
    assert(hub@.is_lobby_order(peer_ip@, members@) && deliveries_view(out@) == lobby_deliveries(
        members@,
        hub@.peers_in(members@),
    ));
    out
}

/// A lobby broadcast for `ip` reaches exactly the peers connected from
/// `ip`, each once, and sends all of them the same list, which describes
/// each of those peers once.
pub proof fn lemma_lobby_broadcast(hub: HubView, ip: Seq<char>, out: Seq<DeliveryView>)
    requires
        is_lobby_broadcast(hub, ip, out),
    ensures
        forall|i: int|
            0 <= i < out.len() ==> hub.peers.contains_key(#[trigger] out[i].to) && hub.peers[out[i].to].ip
                == ip,
        forall|i: int, j: int| 0 <= i < j < out.len() ==> #[trigger] out[i].to != #[trigger] out[j].to,
        forall|k: u32|
            hub.peers.contains_key(k) && hub.peers[k].ip == ip ==> exists|i: int|
                0 <= i < out.len() && #[trigger] out[i].to == k,
        exists|list: Seq<PeerView>|
            {
                &&& list.len() == out.len()
                &&& forall|i: int|
                    0 <= i < out.len() ==> #[trigger] out[i].payload == PayloadView::Reply(
                        ResponseView::Lobby { kind: "lobby"@, peers: list },
                    )
                &&& forall|i: int|
                    0 <= i < list.len() ==> #[trigger] list[i] == hub.peers[out[i].to].peer
            },
{
    let order = choose|order: Seq<u32>|
        hub.is_lobby_order(ip, order) && out == lobby_deliveries(order, hub.peers_in(order));
    assert forall|i: int| 0 <= i < out.len() implies hub.peers.contains_key(#[trigger] out[i].to)
        && hub.peers[out[i].to].ip == ip by {
        assert(order.to_set().contains(order[i]));
    }
    assert forall|k: u32| hub.peers.contains_key(k) && hub.peers[k].ip == ip implies exists|i: int|
        0 <= i < out.len() && #[trigger] out[i].to == k by {
        assert(hub.lobby_members(ip).contains(k));
        assert(order.to_set().contains(k));
        let i = choose|i: int| 0 <= i < order.len() && order[i] == k;
        assert(out[i].to == k);
    }
    let list = hub.peers_in(order);
    assert(forall|i: int| 0 <= i < list.len() ==> #[trigger] list[i] == hub.peers[out[i].to].peer);
}

/// A peer that has just signed in from `ip` is sent the lobby of `ip`,
/// and finds itself listed in it.
pub proof fn lemma_signed_peer_sees_itself(
    hub: HubView,
    id: u32,
    ip: Seq<char>,
    name: Seq<char>,
    password: bool,
    emoji: Seq<char>,
    out: Seq<DeliveryView>,
)
    requires
        is_lobby_broadcast(hub.sign(id, ip, name, password, emoji), ip, out),
    ensures
        exists|i: int|
            0 <= i < out.len() && out[i].to == id && (#[trigger] out[i].payload matches PayloadView::Reply(
                ResponseView::Lobby { peers, .. },
            ) && peers.contains(signed_entry(id, ip, name, password, emoji).peer)),
{
    let h = hub.sign(id, ip, name, password, emoji);
    let order = choose|order: Seq<u32>|
        h.is_lobby_order(ip, order) && out == lobby_deliveries(order, h.peers_in(order));
    assert(h.lobby_members(ip).contains(id));
    assert(order.to_set().contains(id));
    let i = choose|i: int| 0 <= i < order.len() && order[i] == id;
    assert(h.peers_in(order)[i] == signed_entry(id, ip, name, password, emoji).peer);
    assert(h.peers_in(order).contains(signed_entry(id, ip, name, password, emoji).peer));
    assert(out[i].to == id);
    assert(out[i].payload == PayloadView::Reply(lobby_reply(h.peers_in(order))));
}

/// After a peer leaves, the lobby broadcast of its address neither
/// reaches it nor lists anyone under its id.
pub proof fn lemma_left_peer_not_in_lobby(hub: HubView, id: u32, ip: Seq<char>, out: Seq<DeliveryView>)
    requires
        hub.wf(),
        id < ID_COUNT,
        is_lobby_broadcast(hub.leave(id), ip, out),
    ensures
        forall|i: int| 0 <= i < out.len() ==> #[trigger] out[i].to != id,
        forall|i: int|
            0 <= i < out.len() ==> (#[trigger] out[i].payload matches PayloadView::Reply(
                ResponseView::Lobby { peers, .. },
            ) ==> forall|j: int| 0 <= j < peers.len() ==> #[trigger] peers[j].id != spec_peer_id(
                id as int,
            )),
{
    let h = hub.leave(id);
    lemma_lobby_broadcast(h, ip, out);
    let order = choose|order: Seq<u32>|
        h.is_lobby_order(ip, order) && out == lobby_deliveries(order, h.peers_in(order));
    let list = h.peers_in(order);
    assert forall|j: int| 0 <= j < list.len() implies #[trigger] list[j].id != spec_peer_id(
        id as int,
    ) by {
        let k = order[j];
        assert(order.to_set().contains(k));
        assert(h.peers.contains_key(k));
        if h.peers[k].peer.id == spec_peer_id(id as int) {
            crate::peer_id::lemma_peer_id_injective(k, id);
        }
    }
    assert forall|i: int| 0 <= i < out.len() implies out[i].payload == PayloadView::Reply(
        lobby_reply(list),
    ) by {}
}

} // verus!
