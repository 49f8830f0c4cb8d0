//! The core loop of a full node: it keeps an address book of connected
//! peers, answers their address book requests, and polls them in turn.

use crate::ip::IpAddr;
use crate::multithreaded::dispatcher::{DispatcherMsg, PeerMessage};
use crate::vec_map::{MapKey, VecMap};
use vstd::prelude::*;

verus! {

/// The ID of a node.
#[derive(Debug, Default, Clone, PartialEq, Eq, Hash)]
pub struct PeerId(pub String);

impl View for PeerId {
    type V = Seq<char>;

    open spec fn view(&self) -> Seq<char> {
        self.0@
    }
}

impl MapKey for PeerId {
    fn key_eq(&self, other: &Self) -> (r: bool) {
        self.0 == other.0
    }

    fn key_copy(&self) -> (r: Self) {
        PeerId(self.0.clone())
    }
}

impl PeerId {
    /// A copy of this ID.
    pub fn duplicate(&self) -> (r: PeerId)
        ensures
            r == *self,
    {
        PeerId(self.0.clone())
    }
}

/// The address of a peer in the network.
#[derive(Debug, Clone, PartialEq)]
pub struct Entry {
    /// The cryptographic address of this peer.
    pub id: PeerId,
    /// The IPv4/6 address of this peer.
    pub ip: IpAddr,
    /// The port on which the peer is listening for incoming connections.
    pub port: u16,
}

/// Messages from the dispatcher to the node.
#[derive(Clone, Debug, PartialEq)]
pub enum FromDispatcherMsg {
    FromPeer(PeerMessage),
    PeerConnected(PeerId),
    PeerDisconnected(PeerId),
}

/// What the node does after a message from the dispatcher.
pub enum TendermintStep<F, C> {
    /// Send this message to the dispatcher.
    Send(DispatcherMsg<F, C>),
    /// Nothing to send.
    Continue,
    /// The dispatcher is gone: tell the ABCI layer that the node exits, and
    /// stop.
    Shutdown,
}

/// The state of a node: its own ID, and the address book of the peers
/// connected to it.
pub struct Tendermint {
    seed_node: PeerId,
    addr_book: VecMap<PeerId, Entry>,
}

impl View for Tendermint {
    type V = (Seq<char>, Map<Seq<char>, Entry>);

    closed spec fn view(&self) -> (Seq<char>, Map<Seq<char>, Entry>) {
        (self.seed_node@, self.addr_book@)
    }
}

/// Whether `ids` names each key of `m` exactly once, and nothing else.
pub open spec fn lists_peers<V>(ids: Seq<PeerId>, m: Map<Seq<char>, V>) -> bool {
    &&& ids.map_values(|id: PeerId| id@).no_duplicates()
    &&& ids.map_values(|id: PeerId| id@).to_set() == m.dom()
}

/// The ID of the peer a dispatcher message is for, if it is for a peer.
pub open spec fn recipient<F, C>(m: DispatcherMsg<F, C>) -> Seq<char> {
    match m {
        DispatcherMsg::ToPeer(to, _) => to@,
        _ => Seq::empty(),
    }
}

/// A peer that connects and then disconnects leaves the address book as it
/// was, when the peer was not in it before.
pub proof fn law_disconnect_undoes_connect(book: Map<Seq<char>, Entry>, peer_id: PeerId)
    requires
        !book.dom().contains(peer_id@),
    ensures
        book.insert(peer_id@, Entry { id: peer_id, ip: IpAddr::V4(0x7f000001), port: 0 }).remove(
            peer_id@,
        ) == book,
{
    assert(book.insert(peer_id@, Entry { id: peer_id, ip: IpAddr::V4(0x7f000001), port: 0 }).remove(
        peer_id@,
    ) =~= book);
}

/// After a peer connects, the answer to an address book request lists it;
/// after it disconnects, the answer does not.
pub proof fn law_request_answer_tracks_connections(
    book: Map<Seq<char>, Entry>,
    peer_id: PeerId,
    entry: Entry,
    after_connect: Seq<PeerId>,
    after_disconnect: Seq<PeerId>,
)
    requires
        lists_peers(after_connect, book.insert(peer_id@, entry)),
        lists_peers(after_disconnect, book.insert(peer_id@, entry).remove(peer_id@)),
    ensures
        after_connect.map_values(|id: PeerId| id@).contains(peer_id@),
        !after_disconnect.map_values(|id: PeerId| id@).contains(peer_id@),
{
    assert(book.insert(peer_id@, entry).dom().contains(peer_id@));
    assert(after_connect.map_values(|id: PeerId| id@).to_set().contains(peer_id@));
    assert(!book.insert(peer_id@, entry).remove(peer_id@).dom().contains(peer_id@));
    assert(!after_disconnect.map_values(|id: PeerId| id@).to_set().contains(peer_id@));
}

impl Tendermint {
    /// A node with this ID and an empty address book.
    pub fn new(seed_node: PeerId) -> (r: Tendermint)
        ensures
            r@ == (seed_node@, Map::<Seq<char>, Entry>::empty()),
    {
        Tendermint { seed_node, addr_book: VecMap::new() }
    }

    /// The IDs of the peers in the address book, each once.
    pub fn peers(&self) -> (r: Vec<PeerId>)
        ensures
            lists_peers(r@, self@.1),
    {
        self.addr_book.keys()
    }

    /// On each tick of the heartbeat, the node asks every peer in its
    /// address book for that peer's address book.
    pub fn on_tick<F, C>(&self) -> (r: Vec<DispatcherMsg<F, C>>)
        ensures
            r@.len() == self@.1.len(),
            forall|i: int|
                0 <= i < r@.len() ==> (#[trigger] r@[i] matches DispatcherMsg::ToPeer(
                    to,
                    PeerMessage::AddressBookRequest(from),
                ) && from@ == self@.0 && self@.1.dom().contains(to@)),
            forall|i: int, j: int|
                0 <= i < j < r@.len() ==> recipient(#[trigger] r@[i]) != recipient(#[trigger] r@[j]),
    {
        let peers = self.addr_book.keys();
        let mut out: Vec<DispatcherMsg<F, C>> = Vec::new();
        let mut i: usize = 0;
        while i < peers.len()
            invariant
                i <= peers@.len(),
                out@.len() == i,
                lists_peers(peers@, self@.1),
                forall|j: int|
                    0 <= j < i ==> (#[trigger] out@[j] matches DispatcherMsg::ToPeer(
                        to,
                        PeerMessage::AddressBookRequest(from),
                    ) && from@ == self@.0 && to@ == peers@[j]@),
            decreases peers@.len() - i,
        {
            let request = PeerMessage::AddressBookRequest(self.seed_node.duplicate());
            out.push(DispatcherMsg::ToPeer(peers[i].duplicate(), request));
            i = i + 1;
        }
        proof {
            let ks = peers@.map_values(|id: PeerId| id@);
            assert forall|j: int| 0 <= j < out@.len() implies self@.1.dom().contains(peers@[j]@) by {
                assert(ks[j] == peers@[j]@);
                assert(ks.to_set().contains(ks[j]));
            }
            assert forall|a: int, b: int| 0 <= a < b < out@.len() implies recipient(#[trigger] out@[a]) != recipient(#[trigger] out@[b]) by {
                assert(ks[a] == peers@[a]@ && ks[b] == peers@[b]@);
                assert(out@[a] matches DispatcherMsg::ToPeer(to, _) && to@ == peers@[a]@);
                assert(out@[b] matches DispatcherMsg::ToPeer(to, _) && to@ == peers@[b]@);
            }
            ks.unique_seq_to_set();
            assert(self@.1.len() == self@.1.dom().len());
        }
        out
    }

    /// Handles a message from the dispatcher, or the dispatcher's absence
    /// (`None`): peers that connect are added to the address book with
    /// address 127.0.0.1 and port 0, peers that disconnect are removed from
    /// it, an address book request is answered with the IDs in the address
    /// book, and a hello is answered with a hello.
    pub fn on_dispatcher_msg<F, C>(&mut self, msg: Option<FromDispatcherMsg>) -> (r: TendermintStep<F, C>)
        ensures
            final(self)@.0 == old(self)@.0,
            match msg {
                Some(FromDispatcherMsg::FromPeer(PeerMessage::AddressBookRequest(peer_id))) => final(self)@ == old(self)@ && (r matches TendermintStep::Send(DispatcherMsg::ToPeer(
                    to,
                    PeerMessage::AddressBookResponse(ids),
                )) && to == peer_id && lists_peers(ids@, old(self)@.1)),
                Some(FromDispatcherMsg::FromPeer(PeerMessage::Hello(peer_id))) => final(self)@ == old(self)@ && (r matches TendermintStep::Send(DispatcherMsg::ToPeer(
                    to,
                    PeerMessage::Hello(from),
                )) && to == peer_id && from@ == old(self)@.0),
                Some(FromDispatcherMsg::FromPeer(_)) => final(self)@ == old(self)@ && r is Continue,
                Some(FromDispatcherMsg::PeerConnected(peer_id)) => r is Continue && final(self)@.1
                    == old(self)@.1.insert(
                    peer_id@,
                    Entry { id: peer_id, ip: IpAddr::V4(0x7f000001), port: 0 },
                ),
                Some(FromDispatcherMsg::PeerDisconnected(peer_id)) => final(self)@.1 == old(self)@.1.remove(peer_id@) && r == TendermintStep::<F, C>::Send(
                    DispatcherMsg::PeerDisconnected(peer_id),
                ),
                None => final(self)@ == old(self)@ && r is Shutdown,
            },
    {
        match msg {
            Some(FromDispatcherMsg::FromPeer(m)) => match m {
                PeerMessage::AddressBookRequest(peer_id) => {
                    let peers = self.addr_book.keys();
                    let response = PeerMessage::AddressBookResponse(peers);
                    TendermintStep::Send(DispatcherMsg::ToPeer(peer_id, response))
                },
                PeerMessage::Hello(peer_id) => {
                    let hello = PeerMessage::Hello(self.seed_node.duplicate());
                    TendermintStep::Send(DispatcherMsg::ToPeer(peer_id, hello))
                },
                _ => TendermintStep::Continue,
            },
            Some(FromDispatcherMsg::PeerConnected(peer_id)) => {
                let entry = Entry { id: peer_id.duplicate(), ip: IpAddr::v4(127, 0, 0, 1), port: 0 };
                self.addr_book.insert(peer_id, entry);
                TendermintStep::Continue
            },
            Some(FromDispatcherMsg::PeerDisconnected(peer_id)) => {
                self.addr_book.remove(&peer_id);
                TendermintStep::Send(DispatcherMsg::PeerDisconnected(peer_id))
            },
            None => TendermintStep::Shutdown,
        }
    }
}

} // verus!
