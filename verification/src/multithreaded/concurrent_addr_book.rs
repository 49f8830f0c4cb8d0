//! An address book that gossips: it asks the peers it knows for other peers,
//! introduces itself to the peers it is told of, and reports once when it
//! knows ten peers. Each peer is reached through a sender of type `S`.

use crate::vec_map::{MapKey, VecMap};
use rand::Rng;
use vstd::prelude::*;

verus! {

/// The ID of a peer.
#[derive(Debug, Default, Clone, Copy, PartialEq, Eq, Structural, Hash)]
pub struct PeerId(pub u32);

impl View for PeerId {
    type V = u32;

    open spec fn view(&self) -> u32 {
        self.0
    }
}

impl MapKey for PeerId {
    fn key_eq(&self, other: &Self) -> (r: bool) {
        self.0 == other.0
    }

    fn key_copy(&self) -> (r: Self) {
        *self
    }
}

/// Messages between address books.
pub enum PeerMsg<S> {
    /// Asks for a peer; the answer goes to the enclosed sender.
    Request(S),
    /// The sender of some peer.
    Response(S),
    /// Asks the receiver to introduce itself to the enclosed sender.
    Ping(S),
    /// A peer introducing itself.
    Pong(PeerInfo<S>),
    Exit,
}

/// A peer and its sender.
pub struct PeerInfo<S> {
    pub id: PeerId,
    pub sender: S,
}

/// A message to send, and the sender to send it on.
pub struct Outgoing<S> {
    pub to: S,
    pub msg: PeerMsg<S>,
}

/// What the address book does after a tick or a message.
pub enum Reaction<S, D> {
    /// Send these messages.
    Send(Vec<Outgoing<S>>),
    /// Report, on this channel, that ten peers are known.
    Done(D),
    /// Stop running.
    Stop,
    /// Nothing.
    Nothing,
}

/// The number of known peers at which an address book reports that it is
/// done.
pub const DONE_PEERS: usize = 10;

/// An address book: its own ID and sender, the senders of the peers it
/// knows, and the channel on which it reports, once, that it is done.
pub struct AddrBook<S, D> {
    peer_id: PeerId,
    sender: S,
    known_peers: VecMap<PeerId, S>,
    done_sender: Option<D>,
}

/// The address book's ID, its sender, the peers it knows, and its report
/// channel while the report is still to be made.
pub ghost struct AddrBookModel<S, D> {
    pub peer_id: PeerId,
    pub sender: S,
    pub known_peers: Map<u32, S>,
    pub done_sender: Option<D>,
}

impl<S, D> View for AddrBook<S, D> {
    type V = AddrBookModel<S, D>;

    closed spec fn view(&self) -> AddrBookModel<S, D> {
        AddrBookModel {
            peer_id: self.peer_id,
            sender: self.sender,
            known_peers: self.known_peers@,
            done_sender: self.done_sender,
        }
    }
}

/// How an address book in state `old` reacts to `msg`, given the ID
/// `drawn` at random when a peer is asked for: the new state `new` and the
/// reaction `r`.
pub open spec fn reaction<S: Clone, D>(
    old: AddrBookModel<S, D>,
    new: AddrBookModel<S, D>,
    msg: PeerMsg<S>,
    drawn: PeerId,
    r: Reaction<S, D>,
) -> bool {
    &&& new.peer_id == old.peer_id
    &&& new.sender == old.sender
    &&& match msg {
        PeerMsg::Request(reply_to) => new == old && if old.known_peers.dom().contains(drawn@) {
            r matches Reaction::Send(v) && v@.len() == 1 && v@[0].to == reply_to && (
            v@[0].msg matches PeerMsg::Response(s) && cloned(old.known_peers[drawn@], s))
        } else {
            r is Nothing
        },
        PeerMsg::Response(peer) => new == old && (r matches Reaction::Send(v) && v@.len() == 1
            && v@[0].to == peer && (v@[0].msg matches PeerMsg::Ping(s) && cloned(old.sender, s))),
        PeerMsg::Ping(peer) => new == old && (r matches Reaction::Send(v) && v@.len() == 1
            && v@[0].to == peer && (v@[0].msg matches PeerMsg::Pong(info) && info.id
            == old.peer_id && cloned(old.sender, info.sender))),
        PeerMsg::Pong(info) => {
            &&& new.known_peers == old.known_peers.insert(info.id@, info.sender)
            &&& if new.known_peers.len() == DONE_PEERS && old.done_sender is Some {
                r == Reaction::<S, D>::Done(old.done_sender->0) && new.done_sender is None
            } else {
                r is Nothing && new.done_sender == old.done_sender
            }
        },
        PeerMsg::Exit => new == old && r is Stop,
    }
}

/// A ping is answered by the pinged book introducing itself: one pong, sent
/// to the pinger, that pairs the book's own ID with a clone of the book's
/// own sender. So the book that files that pong reaches the pinged book
/// under its ID: its known peers then map the pinged book's ID to a clone
/// of the pinged book's sender.
pub proof fn law_pong_introduces_the_pinged_book<S: Clone, D>(
    pinged: AddrBookModel<S, D>,
    pinged_after: AddrBookModel<S, D>,
    pinger_channel: S,
    drawn: PeerId,
    answer: Reaction<S, D>,
    filer: AddrBookModel<S, D>,
    filer_after: AddrBookModel<S, D>,
    drawn2: PeerId,
    filed: Reaction<S, D>,
)
    requires
        reaction(pinged, pinged_after, PeerMsg::Ping(pinger_channel), drawn, answer),
        answer matches Reaction::Send(v) && v@.len() > 0 && reaction(filer, filer_after, v@[0].msg, drawn2, filed),
    ensures
        answer matches Reaction::Send(v) && v@.len() == 1 && v@[0].to == pinger_channel,
        filer_after.known_peers.dom().contains(pinged.peer_id@),
        cloned(pinged.sender, filer_after.known_peers[pinged.peer_id@]),
{
}

/// A request for a peer is answered with the peer that was drawn, when the
/// book knows it: one response, sent to the requester, carrying a clone of
/// the sender the book holds for the drawn ID. So the requester, on that
/// response, pings the drawn peer: its one ping goes to a clone of the
/// sender held for the drawn ID, and introduces the requester.
pub proof fn law_response_leads_to_the_drawn_peer<S: Clone, D>(
    asked: AddrBookModel<S, D>,
    asked_after: AddrBookModel<S, D>,
    reply_to: S,
    drawn: PeerId,
    answer: Reaction<S, D>,
    requester: AddrBookModel<S, D>,
    requester_after: AddrBookModel<S, D>,
    drawn2: PeerId,
    ping: Reaction<S, D>,
)
    requires
        reaction(asked, asked_after, PeerMsg::Request(reply_to), drawn, answer),
        asked.known_peers.dom().contains(drawn@),
        answer matches Reaction::Send(v) && v@.len() > 0 && reaction(requester, requester_after, v@[0].msg, drawn2, ping),
    ensures
        answer matches Reaction::Send(v) && v@.len() == 1 && v@[0].to == reply_to,
        ping matches Reaction::Send(w) && w@.len() == 1 && cloned(asked.known_peers[drawn@], w@[0].to)
            && (w@[0].msg matches PeerMsg::Ping(s) && cloned(requester.sender, s)),
{
}

/// A request for a peer that the book does not know is not answered, and
/// no request changes the book.
pub proof fn law_unknown_draw_is_not_answered<S: Clone, D>(
    asked: AddrBookModel<S, D>,
    asked_after: AddrBookModel<S, D>,
    reply_to: S,
    drawn: PeerId,
    answer: Reaction<S, D>,
)
    requires
        reaction(asked, asked_after, PeerMsg::Request(reply_to), drawn, answer),
    ensures
        asked_after == asked,
        !asked.known_peers.dom().contains(drawn@) ==> answer is Nothing,
{
}

/// Filing a pong adds the introduced peer under its own ID, with the sender
/// it came with, and keeps every other known peer; the report is made
/// exactly when the book comes to know ten peers while the report is still
/// to be made.
pub proof fn law_pong_files_the_peer<S: Clone, D>(
    old: AddrBookModel<S, D>,
    new: AddrBookModel<S, D>,
    info: PeerInfo<S>,
    drawn: PeerId,
    r: Reaction<S, D>,
    other: u32,
)
    requires
        reaction(old, new, PeerMsg::Pong(info), drawn, r),
    ensures
        new.known_peers.dom().contains(info.id@),
        new.known_peers[info.id@] == info.sender,
        other != info.id@ ==> (new.known_peers.dom().contains(other) <==> old.known_peers.dom().contains(
            other,
        )) && (old.known_peers.dom().contains(other) ==> new.known_peers[other]
            == old.known_peers[other]),
        r is Done <==> (new.known_peers.len() == DONE_PEERS && old.done_sender is Some),
        r is Done ==> r == Reaction::<S, D>::Done(old.done_sender->0) && new.done_sender is None,
        new.peer_id == old.peer_id && new.sender == old.sender,
{
}

/// The report that ten peers are known is made at most once: a reaction of
/// an address book that has made it neither makes it again nor takes back
/// its report channel.
pub proof fn law_done_reported_once<S: Clone, D>(
    old: AddrBookModel<S, D>,
    new: AddrBookModel<S, D>,
    msg: PeerMsg<S>,
    drawn: PeerId,
    r: Reaction<S, D>,
)
    requires
        reaction(old, new, msg, drawn, r),
        old.done_sender is None,
    ensures
        new.done_sender is None,
        !(r is Done),
{
}

/// A uniformly drawn number in `low..high`, through `rand::thread_rng` and
/// `rand::Rng::gen_range`. Claims only that the number lies in the range.
#[verifier::external_body]
fn random_in_range(low: u32, high: u32) -> (r: u32)
    requires
        low < high,
    ensures
        low <= r < high,
{
    rand::thread_rng().gen_range(low..high)
}

impl<S: Clone, D> AddrBook<S, D> {
    /// An address book that knows only the seed node, with the request to
    /// send to the seed node for a peer.
    pub fn start(peer_id: PeerId, sender: S, seed_node: (PeerId, S), done_sender: D) -> (r: (
        AddrBook<S, D>,
        Outgoing<S>,
    ))
        ensures
            r.0@.peer_id == peer_id,
            r.0@.sender == sender,
            r.0@.known_peers == Map::<u32, S>::empty().insert(seed_node.0@, seed_node.1),
            r.0@.done_sender == Some(done_sender),
            cloned(seed_node.1, r.1.to),
            r.1.msg matches PeerMsg::Request(s) && cloned(sender, s),
    {
        let first = Outgoing { to: seed_node.1.clone(), msg: PeerMsg::Request(sender.clone()) };
        let mut known_peers = VecMap::new();
        known_peers.insert(seed_node.0, seed_node.1);
        let book = AddrBook { peer_id, sender, known_peers, done_sender: Some(done_sender) };
        (book, first)
    }

    /// On a tick, ask every known peer for a peer.
    pub fn on_tick(&self) -> (r: Vec<Outgoing<S>>)
        ensures
            r@.len() == self@.known_peers.len(),
            forall|i: int|
                0 <= i < r@.len() ==> (#[trigger] r@[i].msg matches PeerMsg::Request(s) && cloned(
                    self@.sender,
                    s,
                )),
            exists|ks: Seq<u32>|
                #![trigger ks.to_set()]
                ks.len() == r@.len() && ks.no_duplicates() && ks.to_set() == self@.known_peers.dom()
                    && forall|i: int|
                    0 <= i < r@.len() ==> cloned(self@.known_peers[ks[i]], #[trigger] r@[i].to),
    {
        let peers = self.known_peers.keys();
        let mut out: Vec<Outgoing<S>> = Vec::new();
        let mut i: usize = 0;
        while i < peers.len()
            invariant
                i <= peers@.len(),
                out@.len() == i,
                peers@.map_values(|k: PeerId| k@).to_set() == self@.known_peers.dom(),
                forall|j: int|
                    0 <= j < i ==> (#[trigger] out@[j].msg matches PeerMsg::Request(s) && cloned(
                        self@.sender,
                        s,
                    )),
                forall|j: int|
                    0 <= j < i ==> cloned(
                        self@.known_peers[peers@[j]@],
                        #[trigger] out@[j].to,
                    ),
                peers@.map_values(|k: PeerId| k@).no_duplicates(),
            decreases peers@.len() - i,
        {
            proof {
                let ks = peers@.map_values(|k: PeerId| k@);
                assert(ks[i as int] == peers@[i as int]@);
                assert(ks.to_set().contains(ks[i as int]));
            }
            match self.known_peers.get(&peers[i]) {
                Some(to) => {
                    out.push(Outgoing { to: to.clone(), msg: PeerMsg::Request(self.sender.clone()) });
                },
                None => {},
            }
            i = i + 1;
        }
        proof {
            let ks = peers@.map_values(|k: PeerId| k@);
            ks.unique_seq_to_set();
            assert forall|j: int| 0 <= j < out@.len() implies cloned(self@.known_peers[ks[j]], #[trigger] out@[j].to) by {
                assert(ks[j] == peers@[j]@);
            }
            assert(ks.to_set() == self@.known_peers.dom());
        }
        out
    }

    /// Handles a message from a peer, given the ID drawn at random when a
    /// peer is asked for: a request is answered with that peer, if it is
    /// known; a response is pinged; a ping is answered with a pong; a pong
    /// adds the peer, and when ten peers are known the report is made, once.
    pub fn handle_with(&mut self, msg: PeerMsg<S>, drawn: PeerId) -> (r: Reaction<S, D>)
        ensures
            reaction(old(self)@, final(self)@, msg, drawn, r),
    {
        match msg {
            PeerMsg::Request(reply_to) => {
                match self.known_peers.get(&drawn) {
                    Some(sender) => {
                        let mut v = Vec::new();
                        v.push(Outgoing { to: reply_to, msg: PeerMsg::Response(sender.clone()) });
                        Reaction::Send(v)
                    },
                    None => Reaction::Nothing,
                }
            },
            PeerMsg::Response(peer) => {
                let mut v = Vec::new();
                v.push(Outgoing { to: peer, msg: PeerMsg::Ping(self.sender.clone()) });
                Reaction::Send(v)
            },
            PeerMsg::Ping(peer) => {
                let info = PeerInfo { id: self.peer_id, sender: self.sender.clone() };
                let mut v = Vec::new();
                v.push(Outgoing { to: peer, msg: PeerMsg::Pong(info) });
                Reaction::Send(v)
            },
            PeerMsg::Pong(info) => {
                self.known_peers.insert(info.id, info.sender);
                if self.known_peers.len() == DONE_PEERS {
                    match self.done_sender.take() {
                        Some(d) => Reaction::Done(d),
                        None => Reaction::Nothing,
                    }
                } else {
                    Reaction::Nothing
                }
            },
            PeerMsg::Exit => Reaction::Stop,
        }
    }

    /// Handles a message from a peer, drawing at random, from IDs 1 to 9,
    /// the peer to answer a request with.
    pub fn handle(&mut self, msg: PeerMsg<S>) -> (r: Reaction<S, D>)
        ensures
            exists|k: u32| 1 <= k < 10 && #[trigger] reaction(old(self)@, final(self)@, msg, PeerId(k), r),
    {
        let drawn = PeerId(random_in_range(1, 10));
        self.handle_with(msg, drawn)
    }
}

} // verus!
