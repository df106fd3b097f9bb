//! The values that the signaling server keeps and sends: peers, the
//! responses sent to clients, the messages received from them, and the
//! deliveries that tell the transport which connection gets what.

use vstd::prelude::*;

verus! {

/// What a signed-in peer tells the others about itself.
#[derive(Clone, Debug, PartialEq, Eq)]
pub struct Peer {
    pub id: String,
    pub emoji: String,
    pub name: String,
    pub password: bool,
}

/// A `Peer` as a mathematical value.
pub struct PeerView {
    pub id: Seq<char>,
    pub emoji: Seq<char>,
    pub name: Seq<char>,
    pub password: bool,
}

impl View for Peer {
    type V = PeerView;

    open spec fn view(&self) -> PeerView {
        PeerView { id: self.id@, emoji: self.emoji@, name: self.name@, password: self.password }
    }
}

/// The views of a sequence of peers.
pub open spec fn peers_view(peers: Seq<Peer>) -> Seq<PeerView> {
    peers.map_values(|p: Peer| p@)
}

impl Peer {
    /// A copy of this peer.
    pub fn duplicate(&self) -> (p: Peer)
        ensures
            p == *self,
    {
        Peer {
            id: self.id.clone(),
            emoji: self.emoji.clone(),
            name: self.name.clone(),
            password: self.password,
        }
    }
}

/// Copies a list of peers.
pub fn duplicate_peers(peers: &Vec<Peer>) -> (res: Vec<Peer>)
    ensures
        res@ == peers@,
{
    let mut res: Vec<Peer> = Vec::new();
    let mut i: usize = 0;
    while i < peers.len()
        invariant
            i <= peers@.len(),
            res@ == peers@.take(i as int),
        decreases peers@.len() - i,
    {
        res.push(peers[i].duplicate());
        i = i + 1;
        assert(res@ =~= peers@.take(i as int));
    }
    assert(res@ =~= peers@);
    res
}

/// A message from the server to a client. `kind` is the message's `type`
/// field on the wire.
#[derive(Clone, Debug, PartialEq, Eq)]
pub enum Response {
    Ack { kind: String },
    Error { kind: String, message: String },
    Id { kind: String, id: String },
    Lobby { kind: String, peers: Vec<Peer> },
    Peer { kind: String, peer: Peer },
    Call { kind: String, peer: Peer, password: String, pk: String },
}

/// A `Response` as a mathematical value.
pub enum ResponseView {
    Ack { kind: Seq<char> },
    Error { kind: Seq<char>, message: Seq<char> },
    Id { kind: Seq<char>, id: Seq<char> },
    Lobby { kind: Seq<char>, peers: Seq<PeerView> },
    Peer { kind: Seq<char>, peer: PeerView },
    Call { kind: Seq<char>, peer: PeerView, password: Seq<char>, pk: Seq<char> },
}

impl View for Response {
    type V = ResponseView;

    open spec fn view(&self) -> ResponseView {
        match self {
            Response::Ack { kind } => ResponseView::Ack { kind: kind@ },
            Response::Error { kind, message } => ResponseView::Error {
                kind: kind@,
                message: message@,
            },
            Response::Id { kind, id } => ResponseView::Id { kind: kind@, id: id@ },
            Response::Lobby { kind, peers } => ResponseView::Lobby {
                kind: kind@,
                peers: peers_view(peers@),
            },
            Response::Peer { kind, peer } => ResponseView::Peer { kind: kind@, peer: peer@ },
            Response::Call { kind, peer, password, pk } => ResponseView::Call {
                kind: kind@,
                peer: peer@,
                password: password@,
                pk: pk@,
            },
        }
    }
}

/// What a connection is sent: a response of the server, or, as JSON
/// text, a message that another client sent it.
#[derive(Clone, Debug, PartialEq, Eq)]
pub enum Payload {
    Reply(Response),
    Forward(String),
}

pub enum PayloadView {
    Reply(ResponseView),
    Forward(Seq<char>),
}

impl View for Payload {
    type V = PayloadView;

    open spec fn view(&self) -> PayloadView {
        match self {
            Payload::Reply(r) => PayloadView::Reply(r@),
            Payload::Forward(text) => PayloadView::Forward(text@),
        }
    }
}

/// One message for one connection, named by the peer id it was given.
#[derive(Clone, Debug, PartialEq, Eq)]
pub struct Delivery {
    pub to: u32,
    pub payload: Payload,
}

pub struct DeliveryView {
    pub to: u32,
    pub payload: PayloadView,
}

impl View for Delivery {
    type V = DeliveryView;

    open spec fn view(&self) -> DeliveryView {
        DeliveryView { to: self.to, payload: self.payload@ }
    }
}

/// The views of a sequence of deliveries.
pub open spec fn deliveries_view(ds: Seq<Delivery>) -> Seq<DeliveryView> {
    ds.map_values(|d: Delivery| d@)
}

/// The fields of a client's JSON message that the server reads, each as
/// the JSON accessor gives it: a string field that is missing or not a
/// string is `None`, and so on. `password` is read both as a flag (when
/// signing in) and as a text (when calling). `json` is the whole message
/// written out again as JSON, the form in which it is passed on.
#[derive(Clone, Debug, PartialEq, Eq)]
pub struct ClientMessage {
    pub kind: String,
    pub id: Option<String>,
    pub name: Option<String>,
    pub emoji: Option<String>,
    pub password_flag: Option<bool>,
    pub password_text: Option<String>,
    pub pk: Option<String>,
    pub json: String,
}

/// A `ClientMessage` as a mathematical value.
pub struct MessageView {
    pub kind: Seq<char>,
    pub id: Option<Seq<char>>,
    pub name: Option<Seq<char>>,
    pub emoji: Option<Seq<char>>,
    pub password_flag: Option<bool>,
    pub password_text: Option<Seq<char>>,
    pub pk: Option<Seq<char>>,
    pub json: Seq<char>,
}

impl View for ClientMessage {
    type V = MessageView;

    open spec fn view(&self) -> MessageView {
        MessageView {
            kind: self.kind@,
            id: self.id.deep_view(),
            name: self.name.deep_view(),
            emoji: self.emoji.deep_view(),
            password_flag: self.password_flag,
            password_text: self.password_text.deep_view(),
            pk: self.pk.deep_view(),
            json: self.json@,
        }
    }
}

/// Whether two texts are equal, character by character.
pub fn str_equals(a: &str, b: &str) -> (res: bool)
    ensures
        res == (a@ == b@),
{
    let n = a.unicode_len();
    if n != b.unicode_len() {
        return false;
    }
    let mut i: usize = 0;
    while i < n
        invariant
            n == a@.len(),
            n == b@.len(),
            i <= n,
            a@.take(i as int) == b@.take(i as int),
        decreases n - i,
    {
        if a.get_char(i) != b.get_char(i) {
            assert(a@[i as int] != b@[i as int]);
            return false;
        }
        assert(a@.take(i + 1) =~= a@.take(i as int).push(a@[i as int]));
        assert(b@.take(i + 1) =~= b@.take(i as int).push(b@[i as int]));
        i = i + 1;
    }
    assert(a@ =~= a@.take(n as int));
    assert(b@ =~= b@.take(n as int));
    true
}

} // verus!
