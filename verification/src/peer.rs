//! The registry of the signaling server: the pool of free peer ids and the
//! peers that have signed in, with what each operation does to them and
//! which deliveries it asks the transport to make.

use crate::peer_id::{
    ID_COUNT, all_peer_ids, create_peer_ids, format_peer_id, lemma_fresh_pool, parse_peer_id,
    spec_parse_peer_id, spec_peer_id,
};
use crate::types::{
    peers_view, str_equals, ClientMessage, Delivery, DeliveryView, Payload, PayloadView, Peer,
    PeerView, Response, ResponseView,
};
use std::collections::HashMap;
use std::collections::VecDeque;
use vstd::prelude::*;
use vstd::std_specs::hash::spec_keys_iter;
use vstd::std_specs::iter::IteratorSpec;

verus! {

broadcast use vstd::std_specs::hash::group_hash_axioms;

/// What the server keeps of a signed-in peer: the address it connects
/// from and what it said about itself.
pub struct PeerRecord {
    pub ip: String,
    pub peer: Peer,
}

pub struct EntryView {
    pub ip: Seq<char>,
    pub peer: PeerView,
}

impl View for PeerRecord {
    type V = EntryView;

    open spec fn view(&self) -> EntryView {
        EntryView { ip: self.ip@, peer: self.peer@ }
    }
}

/// The registry as a mathematical value: the queue of free ids, and the
/// signed-in peers by id.
pub struct HubView {
    pub free: Seq<u32>,
    pub peers: Map<u32, EntryView>,
}

/// The entry that signing in with these fields records.
pub open spec fn signed_entry(
    id: u32,
    ip: Seq<char>,
    name: Seq<char>,
    password: bool,
    emoji: Seq<char>,
) -> EntryView {
    EntryView {
        ip,
        peer: PeerView { id: spec_peer_id(id as int), emoji, name, password },
    }
}

impl HubView {
    /// Every id in play is a valid peer id, and each peer is recorded
    /// under the id it carries.
    pub open spec fn wf(self) -> bool {
        &&& forall|i: int| 0 <= i < self.free.len() ==> #[trigger] self.free[i] < ID_COUNT
        &&& forall|k: u32| #[trigger]
            self.peers.contains_key(k) ==> k < ID_COUNT && self.peers[k].peer.id == spec_peer_id(
                k as int,
            )
    }

    /// The registry after the front id of the pool is handed out.
    pub open spec fn take_id(self) -> HubView {
        HubView { free: self.free.drop_first(), peers: self.peers }
    }

    /// The registry after peer `id` signs in (again) with these fields.
    pub open spec fn sign(
        self,
        id: u32,
        ip: Seq<char>,
        name: Seq<char>,
        password: bool,
        emoji: Seq<char>,
    ) -> HubView {
        HubView {
            free: self.free,
            peers: self.peers.insert(id, signed_entry(id, ip, name, password, emoji)),
        }
    }

    /// The registry after the connection of peer `id` ends: its id goes
    /// back to the end of the pool and its entry is dropped.
    pub open spec fn leave(self, id: u32) -> HubView {
        HubView { free: self.free.push(id), peers: self.peers.remove(id) }
    }

    /// The signed-in peer whose id is written `text`, if any.
    pub open spec fn find(self, text: Seq<char>) -> Option<u32> {
        match spec_parse_peer_id(text) {
            Some(k) => if self.peers.contains_key(k) {
                Some(k)
            } else {
                None
            },
            None => None,
        }
    }

    /// What looking up the peer written `id_text` on behalf of `caller`
    /// sends: the peer's description, or that there is no such peer; to
    /// the caller either way.
    pub open spec fn find_outcome(self, caller: u32, id_text: Seq<char>) -> DeliveryView {
        match self.find(id_text) {
            Some(k) => DeliveryView {
                to: caller,
                payload: PayloadView::Reply(peer_reply(self.peers[k].peer)),
            },
            None => DeliveryView { to: caller, payload: PayloadView::Reply(not_found_reply()) },
        }
    }

    /// What peer `caller` calling the peer written `id_text` sends: the
    /// caller's description with the password and key to the callee, or,
    /// when there is no such peer, that there is none to the caller.
    pub open spec fn call_outcome(
        self,
        caller: u32,
        id_text: Seq<char>,
        password: Seq<char>,
        pk: Seq<char>,
    ) -> DeliveryView {
        match self.find(id_text) {
            Some(k) => DeliveryView {
                to: k,
                payload: PayloadView::Reply(call_reply(self.peers[caller].peer, password, pk)),
            },
            None => DeliveryView { to: caller, payload: PayloadView::Reply(not_found_reply()) },
        }
    }

    /// Where a relayed message, written `json`, goes: to the peer written
    /// `id_text`, or nowhere when there is no such peer.
    pub open spec fn relay_outcome(self, id_text: Seq<char>, json: Seq<char>) -> Option<DeliveryView> {
        match self.find(id_text) {
            Some(k) => Some(DeliveryView { to: k, payload: PayloadView::Forward(json) }),
            None => None,
        }
    }

    /// The signed-in peers that connect from `ip`.
    pub open spec fn lobby_members(self, ip: Seq<char>) -> Set<u32> {
        self.peers.dom().filter(|k: u32| self.peers[k].ip == ip)
    }

    /// `order` lists the peers that connect from `ip`, each once.
    pub open spec fn is_lobby_order(self, ip: Seq<char>, order: Seq<u32>) -> bool {
        order.no_duplicates() && order.to_set() == self.lobby_members(ip)
    }

    /// What the peers listed in `order` said about themselves, in that order.
    pub open spec fn peers_in(self, order: Seq<u32>) -> Seq<PeerView> {
        order.map_values(|k: u32| self.peers[k].peer)
    }
}

/// The peers among the first `n` of `keys` that connect from `ip`, in
/// the order of `keys`.
pub open spec fn lobby_prefix(hv: HubView, keys: Seq<u32>, n: int, ip: Seq<char>) -> Seq<u32>
    decreases n,
{
    if n <= 0 {
        Seq::empty()
    } else {
        let prev = lobby_prefix(hv, keys, n - 1, ip);
        if hv.peers[keys[n - 1]].ip == ip {
            prev.push(keys[n - 1])
        } else {
            prev
        }
    }
}

proof fn lemma_lobby_prefix(hv: HubView, keys: Seq<u32>, n: int, ip: Seq<char>)
    requires
        keys.no_duplicates(),
        0 <= n <= keys.len(),
    ensures
        lobby_prefix(hv, keys, n, ip).no_duplicates(),
        forall|j: u32| #[trigger]
            lobby_prefix(hv, keys, n, ip).contains(j) <==> (keys.take(n).contains(j)
                && hv.peers[j].ip == ip),
    decreases n,
{
    broadcast use vstd::seq_lib::group_seq_properties;

    if n > 0 {
        lemma_lobby_prefix(hv, keys, n - 1, ip);
        let prev = lobby_prefix(hv, keys, n - 1, ip);
        let x = keys[n - 1];
        assert(keys.take(n) =~= keys.take(n - 1).push(x));
        assert(!keys.take(n - 1).contains(x)) by {
            if keys.take(n - 1).contains(x) {
                let i = choose|i: int| 0 <= i < n - 1 && #[trigger] keys.take(n - 1)[i] == x;
                assert(keys[i] == keys[n - 1]);
            }
        }
        assert(!prev.contains(x));
        if hv.peers[x].ip == ip {
            assert forall|a: int, b: int|
                0 <= a < prev.push(x).len() && 0 <= b < prev.push(x).len() && a != b implies
                prev.push(x)[a] != prev.push(x)[b] by {
                if a < prev.len() && b < prev.len() {
                } else if a < prev.len() {
                    assert(prev.contains(prev[a]));
                } else if b < prev.len() {
                    assert(prev.contains(prev[b]));
                }
            }
        }
    } else {
        assert(keys.take(n) =~= Seq::<u32>::empty());
    }
}

/// The response that tells a client its id.
pub open spec fn id_reply(id: u32) -> ResponseView {
    ResponseView::Id { kind: "id"@, id: spec_peer_id(id as int) }
}

/// The response to a request that names no signed-in peer.
pub open spec fn not_found_reply() -> ResponseView {
    ResponseView::Error { kind: "error"@, message: "No peer found"@ }
}

/// The response to a ping.
pub open spec fn pong_reply() -> ResponseView {
    ResponseView::Ack { kind: "pong"@ }
}

/// The response that describes a peer that was looked up.
pub open spec fn peer_reply(peer: PeerView) -> ResponseView {
    ResponseView::Peer { kind: "peer"@, peer }
}

/// The response that tells a peer who calls it.
pub open spec fn call_reply(caller: PeerView, password: Seq<char>, pk: Seq<char>) -> ResponseView {
    ResponseView::Call { kind: "call"@, peer: caller, password, pk }
}

/// The response that lists the members of a lobby.
pub open spec fn lobby_reply(peers: Seq<PeerView>) -> ResponseView {
    ResponseView::Lobby { kind: "lobby"@, peers }
}

/// A text field of a message, or the empty text where it is missing.
pub open spec fn text_or_empty(field: Option<Seq<char>>) -> Seq<char> {
    match field {
        Some(s) => s,
        None => Seq::empty(),
    }
}

/// Builds the response that tells a client its id.
pub fn id_response(id: u32) -> (r: Response)
    requires
        id < ID_COUNT,
    ensures
        r@ == id_reply(id),
{
    Response::Id { kind: String::from_str("id"), id: format_peer_id(id) }
}

/// Builds the response to a request that names no signed-in peer.
pub fn not_found_response() -> (r: Response)
    ensures
        r@ == not_found_reply(),
{
    Response::Error {
        kind: String::from_str("error"),
        message: String::from_str("No peer found"),
    }
}

/// Builds the response to a ping.
pub fn pong_response() -> (r: Response)
    ensures
        r@ == pong_reply(),
{
    Response::Ack { kind: String::from_str("pong") }
}

/// The registry made of this pool and this map.
pub open spec fn parts_view(free: Seq<u32>, peers: Map<u32, PeerRecord>) -> HubView {
    HubView { free, peers: peers.map_values(|r: PeerRecord| r@) }
}

/// Handing out an id, signing in and leaving keep every id in play
/// valid.
proof fn lemma_steps_keep_wf(h: HubView, id: u32)
    requires
        h.wf(),
    ensures
        h.free.len() > 0 ==> h.take_id().wf(),
        id < ID_COUNT ==> forall|ip: Seq<char>, name: Seq<char>, password: bool, emoji: Seq<char>|
            #[trigger] h.sign(id, ip, name, password, emoji).wf(),
        id < ID_COUNT ==> h.leave(id).wf(),
{
    if h.free.len() > 0 {
        assert forall|i: int| 0 <= i < h.take_id().free.len() implies #[trigger] h.take_id().free[i]
            < ID_COUNT by {
            assert(h.take_id().free[i] == h.free[i + 1]);
        }
    }
}

/// The registry of a signaling server.
pub struct Hub {
    free_ids: VecDeque<u32>,
    peers: HashMap<u32, PeerRecord>,
}

impl Hub {
    /// Every id in play is a valid peer id, and each peer is recorded
    /// under the id it carries.
    #[verifier::type_invariant]
    pub closed spec fn inv(self) -> bool {
        self@.wf()
    }
}

impl View for Hub {
    type V = HubView;

    closed spec fn view(&self) -> HubView {
        parts_view(self.free_ids@, self.peers@)
    }
}

impl Hub {
    /// Takes the pool and the map out of the registry, leaving it empty.
    fn take_parts(&mut self) -> (res: (VecDeque<u32>, HashMap<u32, PeerRecord>))
        ensures
            parts_view(res.0@, res.1@) == old(self)@,
            old(self)@.wf(),
    {
        proof {
            use_type_invariant(&*self);
        }
        let mut parts = Hub { free_ids: VecDeque::new(), peers: HashMap::new() };
        proof {
            assert(parts@.peers =~= Map::empty());
        }
        std::mem::swap(self, &mut parts);
        let Hub { free_ids, peers } = parts;
        (free_ids, peers)
    }

    /// A registry with the given pool of free ids and no peer signed in.
    pub fn new(free_ids: VecDeque<u32>) -> (hub: Hub)
        requires
            forall|i: int| 0 <= i < free_ids@.len() ==> #[trigger] free_ids@[i] < ID_COUNT,
        ensures
            hub@ == (HubView { free: free_ids@, peers: Map::empty() }),
    {
        let hub = Hub { free_ids, peers: HashMap::new() };
        assert(hub@.peers =~= Map::empty());
        hub
    }

    /// A registry whose pool holds every peer id once, in random order.
    pub fn with_fresh_ids() -> (hub: Hub)
        ensures
            hub@.free.to_multiset() == all_peer_ids().to_multiset(),
            hub@.peers == Map::<u32, EntryView>::empty(),
            hub@.accounts_for(Set::empty(), all_peer_ids().to_set()),
    {
        let ids = create_peer_ids();
        proof {
            lemma_fresh_pool(ids@);
            lemma_new_hub_accounts(ids@);
            assert(ids@.to_set() =~= all_peer_ids().to_set()) by {
                assert forall|x: u32| ids@.to_set().contains(x) implies all_peer_ids().to_set().contains(
                    x,
                ) by {
                    let i = choose|i: int| 0 <= i < ids@.len() && ids@[i] == x;
                    assert(all_peer_ids()[x as int] == x);
                }
                assert forall|x: u32| all_peer_ids().to_set().contains(x) implies ids@.to_set().contains(
                    x,
                ) by {
                    let i = choose|i: int| 0 <= i < all_peer_ids().len() && all_peer_ids()[i] == x;
                }
            }
        }
        Hub::new(ids)
    }

    /// How many ids are free.
    pub fn free_count(&self) -> (n: usize)
        ensures
            n == self@.free.len(),
    {
        self.free_ids.len()
    }

    /// Whether peer `id` has signed in.
    pub fn is_signed(&self, id: u32) -> (b: bool)
        ensures
            b == self@.peers.contains_key(id),
    {
        self.peers.contains_key(&id)
    }

    /// The signed-in peer whose id is written `peer_id`, if any.
    pub fn find(&self, peer_id: &str) -> (res: Option<u32>)
        ensures
            res == self@.find(peer_id@),
    {
        match parse_peer_id(peer_id) {
            Some(k) => if self.peers.contains_key(&k) {
                Some(k)
            } else {
                None
            },
            None => None,
        }
    }

    /// What peer `k` said about itself.
    pub fn peer_of(&self, k: u32) -> (p: Peer)
        requires
            self@.peers.contains_key(k),
        ensures
            p@ == self@.peers[k].peer,
    {
        match self.peers.get(&k) {
            Some(r) => r.peer.duplicate(),
            None => Peer {
                id: String::new(),
                emoji: String::new(),
                name: String::new(),
                password: false,
            },
        }
    }

    /// The ids and descriptions of the peers that connect from
    /// `peer_ip`, each once, in the map's order.
    pub fn lobby_members(&self, peer_ip: &str) -> (res: (Vec<u32>, Vec<Peer>))
        ensures
            self@.is_lobby_order(peer_ip@, res.0@),
            peers_view(res.1@) == self@.peers_in(res.0@),
    {
        let ghost hv = self@;
        let mut ids: Vec<u32> = Vec::new();
        let mut peers: Vec<Peer> = Vec::new();
        let ghost keys = spec_keys_iter(&self.peers).remaining().unref();
        for k in it: self.peers.keys()
            invariant
                hv == self@,
                it.seq().unref() == keys,
                keys.no_duplicates(),
                keys.to_set() == hv.peers.dom(),
                ids@ == lobby_prefix(hv, it.seq().unref(), it.index(), peer_ip@),
                peers_view(peers@) == hv.peers_in(ids@),
        {
            let ghost i = it.index();
            assert(*k == keys[i]);
            assert(keys.contains(keys[i]));
            if let Some(r) = self.peers.get(k) {
                assert(hv.peers[*k] == r@);
                if str_equals(r.ip.as_str(), peer_ip) {
                    let ghost old_ids = ids@;
                    let ghost old_peers = peers@;
                    ids.push(*k);
                    peers.push(r.peer.duplicate());
                    assert(peers_view(peers@) =~= peers_view(old_peers).push(r.peer@));
                    assert(hv.peers_in(ids@) =~= hv.peers_in(old_ids).push(r.peer@));
                }
            }
            assert(ids@ == lobby_prefix(hv, keys, i + 1, peer_ip@));
        }
        proof {
            lemma_lobby_prefix(hv, keys, keys.len() as int, peer_ip@);
            assert(keys.take(keys.len() as int) =~= keys);
            assert(ids@.to_set() =~= hv.lobby_members(peer_ip@)) by {
                assert forall|j: u32| ids@.to_set().contains(j) <==> hv.lobby_members(
                    peer_ip@,
                ).contains(j) by {
                    if hv.peers.dom().contains(j) {
                        assert(keys.to_set().contains(j));
                    }
                }
            }
        }
        (ids, peers)
    }
}

/// Hands out the front id of the pool to a new connection, with the
/// delivery that tells the connection its id.
pub fn gen_peer_id(hub: &mut Hub) -> (res: (u32, Delivery))
    requires
        old(hub)@.free.len() > 0,
    ensures
        final(hub)@ == old(hub)@.take_id(),
        res.0 == old(hub)@.free[0],
        res.1@ == (DeliveryView {
            to: res.0,
            payload: PayloadView::Reply(
                ResponseView::Id { kind: "id"@, id: spec_peer_id(res.0 as int) },
            ),
        }),
{
    let (mut free, peers) = hub.take_parts();
    let id = free.pop_front().unwrap();
    proof {
        assert(parts_view(free@, peers@).peers =~= old(hub)@.take_id().peers);
        assert(parts_view(free@, peers@).free =~= old(hub)@.take_id().free);
        lemma_steps_keep_wf(old(hub)@, id);
    }
    *hub = Hub { free_ids: free, peers };
    (id, Delivery { to: id, payload: Payload::Reply(id_response(id)) })
}

/// Looks up the peer whose id is written `peer_id`. When there is
/// none, the error is the delivery that tells `caller` so.
pub fn get_peer(hub: &Hub, peer_id: &str, caller: u32) -> (res: Result<(u32, Peer), Delivery>)
    ensures
        match hub@.find(peer_id@) {
            Some(k) => res matches Ok((j, p)) && j == k && p@ == hub@.peers[k].peer,
            None => res matches Err(d) && d@ == (DeliveryView {
                to: caller,
                payload: PayloadView::Reply(not_found_reply()),
            }),
        },
{
    match hub.find(peer_id) {
        Some(k) => Ok((k, hub.peer_of(k))),
        None => Err(Delivery { to: caller, payload: Payload::Reply(not_found_response()) }),
    }
}

/// Records peer `peer_id`, connected from `peer_ip`, with the name,
/// password flag and emoji of its sign-in message.
pub fn peer_sign(hub: &mut Hub, peer_id: u32, peer_ip: &str, message: &ClientMessage)
    requires
        peer_id < ID_COUNT,
        message.name is Some,
        message.password_flag is Some,
        message.emoji is Some,
    ensures
        final(hub)@ == old(hub)@.sign(
            peer_id,
            peer_ip@,
            message.name->0@,
            message.password_flag->0,
            message.emoji->0@,
        ),
{
    let name = match &message.name {
        Some(s) => s.clone(),
        None => String::new(),
    };
    let emoji = match &message.emoji {
        Some(s) => s.clone(),
        None => String::new(),
    };
    let password = match message.password_flag {
        Some(b) => b,
        None => false,
    };
    let peer = Peer { id: format_peer_id(peer_id), name, password, emoji };
    let record = PeerRecord { ip: peer_ip.to_owned(), peer };
    let (free, mut peers) = hub.take_parts();
    peers.insert(peer_id, record);
    proof {
        let signed = old(hub)@.sign(
            peer_id,
            peer_ip@,
            message.name->0@,
            message.password_flag->0,
            message.emoji->0@,
        );
        assert(parts_view(free@, peers@).peers =~= signed.peers);
        lemma_steps_keep_wf(old(hub)@, peer_id);
    }
    *hub = Hub { free_ids: free, peers };
}

/// Looks up the peer that `message` names for peer `self_id`.
pub fn peer_find(hub: &Hub, self_id: u32, message: &ClientMessage) -> (d: Delivery)
    requires
        message.id is Some,
    ensures
        d@ == hub@.find_outcome(self_id, message.id->0@),
{
    let id = match &message.id {
        Some(s) => s.as_str(),
        None => "",
    };
    match get_peer(hub, id, self_id) {
        Ok((_, peer)) => Delivery {
            to: self_id,
            payload: Payload::Reply(
                Response::Peer { kind: String::from_str("peer"), peer },
            ),
        },
        Err(d) => d,
    }
}

/// Peer `self_id` calls the peer that `message` names, handing it the
/// message's password and key (empty where missing).
pub fn peer_call(hub: &Hub, self_id: u32, message: &ClientMessage) -> (d: Delivery)
    requires
        message.id is Some,
        hub@.peers.contains_key(self_id),
    ensures
        d@ == hub@.call_outcome(
            self_id,
            message.id->0@,
            text_or_empty(message@.password_text),
            text_or_empty(message@.pk),
        ),
{
    let id = match &message.id {
        Some(s) => s.as_str(),
        None => "",
    };
    let info = hub.peer_of(self_id);
    match get_peer(hub, id, self_id) {
        Ok((k, _)) => {
            let password = match &message.password_text {
                Some(s) => s.clone(),
                None => String::new(),
            };
            let pk = match &message.pk {
                Some(s) => s.clone(),
                None => String::new(),
            };
            Delivery {
                to: k,
                payload: Payload::Reply(
                    Response::Call { kind: String::from_str("call"), peer: info, password, pk },
                ),
            }
        },
        Err(d) => d,
    }
}

/// Ends peer `peer_id`: its id goes back to the end of the pool and
/// its entry, if any, is dropped.
pub fn peer_leave(hub: &mut Hub, peer_id: u32)
    requires
        peer_id < ID_COUNT,
    ensures
        final(hub)@ == old(hub)@.leave(peer_id),
{
    let (mut free, mut peers) = hub.take_parts();
    free.push_back(peer_id);
    peers.remove(&peer_id);
    proof {
        assert(parts_view(free@, peers@).peers =~= old(hub)@.leave(peer_id).peers);
        lemma_steps_keep_wf(old(hub)@, peer_id);
    }
    *hub = Hub { free_ids: free, peers };
}

impl HubView {
    /// The registry accounts for the ids `ids` given the set `connected`
    /// of ids held by live connections: every id of `ids` is either free
    /// or held, never both, and free at most once; and only connections
    /// have signed in.
    pub open spec fn accounts_for(self, connected: Set<u32>, ids: Set<u32>) -> bool {
        &&& self.free.no_duplicates()
        &&& forall|i: int| 0 <= i < self.free.len() ==> !connected.contains(#[trigger] self.free[i])
        &&& self.free.to_set().union(connected) == ids
        &&& forall|k: u32| #[trigger] self.peers.contains_key(k) ==> connected.contains(k)
    }
}

/// A registry with a pool of distinct ids and no peer accounts for those
/// ids with no connection live.
pub proof fn lemma_new_hub_accounts(free: Seq<u32>)
    requires
        free.no_duplicates(),
    ensures
        (HubView { free, peers: Map::empty() }).accounts_for(Set::empty(), free.to_set()),
{
    assert(free.to_set().union(Set::empty()) =~= free.to_set());
}

/// A new connection gets an id that no live connection holds, and the
/// registry then accounts for it as held.
pub proof fn lemma_connect_gets_unused_id(h: HubView, connected: Set<u32>, ids: Set<u32>)
    requires
        h.accounts_for(connected, ids),
        h.free.len() > 0,
    ensures
        !connected.contains(h.free[0]),
        h.take_id().accounts_for(connected.insert(h.free[0]), ids),
{
    let f = h.free;
    assert forall|i: int| 0 <= i < h.take_id().free.len() implies !connected.insert(f[0]).contains(
        #[trigger] h.take_id().free[i],
    ) by {
        assert(h.take_id().free[i] == f[i + 1]);
    }
    assert(f.drop_first().to_set().union(connected.insert(f[0])) =~= f.to_set().union(connected))
        by {
        assert forall|x: u32| f.to_set().contains(x) implies f.drop_first().to_set().contains(x)
            || x == f[0] by {
            let i = choose|i: int| 0 <= i < f.len() && f[i] == x;
            if i > 0 {
                assert(f.drop_first()[i - 1] == x);
            }
        }
        assert forall|x: u32| f.drop_first().to_set().contains(x) implies f.to_set().contains(x) by {
            let i = choose|i: int| 0 <= i < f.drop_first().len() && f.drop_first()[i] == x;
            assert(f[i + 1] == x);
        }
        assert(f.to_set().contains(f[0]));
    }
}

/// Signing in a live connection keeps the registry accounting for the
/// same connections.
pub proof fn lemma_sign_keeps_account(
    h: HubView,
    connected: Set<u32>,
    ids: Set<u32>,
    id: u32,
    ip: Seq<char>,
    name: Seq<char>,
    password: bool,
    emoji: Seq<char>,
)
    requires
        h.accounts_for(connected, ids),
        connected.contains(id),
    ensures
        h.sign(id, ip, name, password, emoji).accounts_for(connected, ids),
{
}

/// When a live connection ends, its id is free again, once, and the
/// registry accounts for the remaining connections.
pub proof fn lemma_leave_frees_id(h: HubView, connected: Set<u32>, ids: Set<u32>, id: u32)
    requires
        h.accounts_for(connected, ids),
        connected.contains(id),
    ensures
        h.leave(id).accounts_for(connected.remove(id), ids),
        h.leave(id).free.last() == id,
{
    broadcast use vstd::seq_lib::group_seq_properties;

    let f = h.free;
    assert(!f.contains(id)) by {
        if f.contains(id) {
            let i = choose|i: int| 0 <= i < f.len() && f[i] == id;
            assert(!connected.contains(f[i]));
        }
    }
    assert forall|a: int, b: int|
        0 <= a < f.push(id).len() && 0 <= b < f.push(id).len() && a != b implies f.push(id)[a]
        != f.push(id)[b] by {
        if a < f.len() && b == f.len() {
            assert(f.contains(f[a]));
        }
        if b < f.len() && a == f.len() {
            assert(f.contains(f[b]));
        }
    }
    f.lemma_push_to_set_commute(id);
    assert(f.push(id).to_set().union(connected.remove(id)) =~= f.to_set().union(connected));
}

/// Ending a connection undoes its start: the pool holds the same ids
/// again (the returned one now last), and a peer that never signed in
/// leaves no entry behind.
pub proof fn lemma_take_then_leave(h: HubView)
    requires
        h.free.len() > 0,
    ensures
        h.take_id().leave(h.free[0]).free.to_multiset() == h.free.to_multiset(),
        !h.peers.contains_key(h.free[0]) ==> h.take_id().leave(h.free[0]).peers == h.peers,
{
    broadcast use vstd::seq_lib::group_to_multiset_ensures;

    let f = h.free;
    assert(f =~= seq![f[0]] + f.drop_first());
    vstd::seq_lib::lemma_multiset_commutative(seq![f[0]], f.drop_first());
    assert(f.drop_first().push(f[0]) =~= f.drop_first() + seq![f[0]]);
    assert(h.take_id().leave(f[0]).peers =~= h.peers.remove(f[0]));
    if !h.peers.contains_key(f[0]) {
        assert(h.peers.remove(f[0]) =~= h.peers);
    }
}

/// A peer that has signed in is found under its id, with what it said;
/// others are found as before.
pub proof fn lemma_sign_then_find(
    h: HubView,
    id: u32,
    ip: Seq<char>,
    name: Seq<char>,
    password: bool,
    emoji: Seq<char>,
    text: Seq<char>,
)
    requires
        id < ID_COUNT,
    ensures
        h.sign(id, ip, name, password, emoji).find(spec_peer_id(id as int)) == Some(id),
        h.sign(id, ip, name, password, emoji).peers[id] == signed_entry(id, ip, name, password, emoji),
        spec_parse_peer_id(text) != Some(id) ==> h.sign(id, ip, name, password, emoji).find(text)
            == h.find(text),
{
    crate::peer_id::lemma_parse_format(id);
}

/// A peer that has left is not found any more; others are found as
/// before.
pub proof fn lemma_leave_then_find(h: HubView, id: u32, text: Seq<char>)
    requires
        id < ID_COUNT,
    ensures
        h.leave(id).find(spec_peer_id(id as int)) == None::<u32>,
        spec_parse_peer_id(text) != Some(id) ==> h.leave(id).find(text) == h.find(text),
{
    crate::peer_id::lemma_parse_format(id);
}

/// Signing in again replaces what was said before.
pub proof fn lemma_sign_twice(
    h: HubView,
    id: u32,
    ip1: Seq<char>,
    name1: Seq<char>,
    password1: bool,
    emoji1: Seq<char>,
    ip2: Seq<char>,
    name2: Seq<char>,
    password2: bool,
    emoji2: Seq<char>,
)
    ensures
        h.sign(id, ip1, name1, password1, emoji1).sign(id, ip2, name2, password2, emoji2) == h.sign(
            id,
            ip2,
            name2,
            password2,
            emoji2,
        ),
{
    assert(h.sign(id, ip1, name1, password1, emoji1).sign(id, ip2, name2, password2, emoji2).peers
        =~= h.sign(id, ip2, name2, password2, emoji2).peers);
}

/// Signing in records the peer under its id exactly as its message
/// describes it: the four-digit id, the name, the emoji and the password
/// flag as given, whatever their length, and the address it connects
/// from. This holds whatever the registry held, also when the peer had
/// signed in before; no other entry and no free id changes.
pub proof fn lemma_sign_records_message(
    h: HubView,
    id: u32,
    ip: Seq<char>,
    name: Seq<char>,
    password: bool,
    emoji: Seq<char>,
)
    ensures
        h.sign(id, ip, name, password, emoji).peers.contains_key(id),
        h.sign(id, ip, name, password, emoji).peers[id].ip == ip,
        h.sign(id, ip, name, password, emoji).peers[id].peer == (PeerView {
            id: spec_peer_id(id as int),
            name: name,
            emoji: emoji,
            password: password,
        }),
        h.sign(id, ip, name, password, emoji).peers.remove(id) == h.peers.remove(id),
        h.sign(id, ip, name, password, emoji).free == h.free,
{
    assert(h.sign(id, ip, name, password, emoji).peers.remove(id) =~= h.peers.remove(id));
}

/// Looking up a peer by its four-digit id answers the caller: with the
/// description that peer recorded, whatever it holds, when it has signed
/// in; with "No peer found" otherwise.
pub proof fn lemma_find_answers_caller(h: HubView, caller: u32, k: u32)
    requires
        k < ID_COUNT,
    ensures
        h.peers.contains_key(k) ==> h.find_outcome(caller, spec_peer_id(k as int)) == (DeliveryView {
            to: caller,
            payload: PayloadView::Reply(ResponseView::Peer { kind: "peer"@, peer: h.peers[k].peer }),
        }),
        !h.peers.contains_key(k) ==> h.find_outcome(caller, spec_peer_id(k as int)) == (DeliveryView {
            to: caller,
            payload: PayloadView::Reply(
                ResponseView::Error { kind: "error"@, message: "No peer found"@ },
            ),
        }),
{
    crate::peer_id::lemma_parse_format(k);
}

/// A call of a signed-in peer, named by its four-digit id, goes to that
/// peer, wherever caller and callee connect from, and tells it the
/// caller's recorded description with the password and key as given.
/// When no such peer has signed in, the caller is told so.
pub proof fn lemma_call_reaches_callee(
    h: HubView,
    caller: u32,
    k: u32,
    password: Seq<char>,
    pk: Seq<char>,
)
    requires
        k < ID_COUNT,
    ensures
        h.peers.contains_key(k) ==> h.call_outcome(caller, spec_peer_id(k as int), password, pk)
            == (DeliveryView {
            to: k,
            payload: PayloadView::Reply(
                ResponseView::Call { kind: "call"@, peer: h.peers[caller].peer, password, pk },
            ),
        }),
        !h.peers.contains_key(k) ==> h.call_outcome(caller, spec_peer_id(k as int), password, pk)
            == (DeliveryView {
            to: caller,
            payload: PayloadView::Reply(
                ResponseView::Error { kind: "error"@, message: "No peer found"@ },
            ),
        }),
{
    crate::peer_id::lemma_parse_format(k);
}

/// A message relayed to a signed-in peer, named by its four-digit id,
/// reaches that peer as exactly the JSON it was sent as, whatever its
/// length; relayed to a peer that has not signed in, it goes nowhere.
pub proof fn lemma_relay_forwards_json(h: HubView, k: u32, json: Seq<char>)
    requires
        k < ID_COUNT,
    ensures
        h.peers.contains_key(k) ==> h.relay_outcome(spec_peer_id(k as int), json) == Some(
            DeliveryView { to: k, payload: PayloadView::Forward(json) },
        ),
        !h.peers.contains_key(k) ==> h.relay_outcome(spec_peer_id(k as int), json) == None::<
            DeliveryView,
        >,
{
    crate::peer_id::lemma_parse_format(k);
}

} // verus!
