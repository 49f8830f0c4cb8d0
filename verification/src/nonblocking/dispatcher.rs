//! The dispatcher component: it keeps a channel to each connected peer, and
//! routes messages to them.

use crate::nonblocking::address_book::{Entry, PeerID, PeerMessage};
use crate::vec_map::VecMap;
use vstd::prelude::*;

verus! {

/// Events to and from the dispatcher; `F` is the framed stream of a peer.
#[derive(Debug)]
pub enum Event<F> {
    PeerConnected(Entry, F),
    AddPeer(PeerID, Entry),
    FromPeer(PeerID, PeerMessage),
    ToPeer(PeerID, PeerMessage),
    Error(Error),
}

#[derive(Debug, Clone, PartialEq)]
pub enum Error {
    PeerNotFound(PeerID),
}

/// What the dispatcher does with an event.
pub enum Step<F> {
    /// Start a task for the peer on this stream, then register its channel.
    SpawnPeer(Entry, F),
    /// Hand the message to the channel of this connected peer.
    Deliver(PeerID, PeerMessage),
    /// Send this event on to the node.
    Emit(Event<F>),
    /// Nothing to do.
    Skip,
}

/// The dispatcher of a peer: its own ID, and a channel (of type `T`) to
/// each connected peer.
pub struct Dispatcher<T> {
    id: PeerID,
    peers: VecMap<PeerID, T>,
}

impl<T> View for Dispatcher<T> {
    type V = (Seq<char>, Map<Seq<char>, T>);

    closed spec fn view(&self) -> (Seq<char>, Map<Seq<char>, T>) {
        (self.id@, self.peers@)
    }
}

impl<T> Dispatcher<T> {
    /// A dispatcher for `peer_id` with no connected peers.
    pub fn new(peer_id: PeerID) -> (r: Dispatcher<T>)
        ensures
            r@ == (peer_id@, Map::<Seq<char>, T>::empty()),
    {
        Dispatcher { id: peer_id, peers: VecMap::new() }
    }

    /// The ID of the peer this dispatcher belongs to.
    pub fn id(&self) -> (r: &PeerID)
        ensures
            r@ == self@.0,
    {
        &self.id
    }

    /// Decides what to do with an event: connections are handed back to be
    /// served, messages to connected peers are delivered, and a message to an
    /// unknown peer is answered with an error. Other events are skipped.
    pub fn handle<F>(&self, event: Event<F>) -> (r: Step<F>)
        ensures
            match event {
                Event::PeerConnected(entry, stream) => r == Step::SpawnPeer(entry, stream),
                Event::ToPeer(peer_id, msg) => if self@.1.dom().contains(peer_id@) {
                    r == Step::<F>::Deliver(peer_id, msg)
                } else {
                    r == Step::<F>::Emit(Event::Error(Error::PeerNotFound(peer_id)))
                },
                _ => r is Skip,
            },
    {
        match event {
            Event::PeerConnected(entry, stream) => Step::SpawnPeer(entry, stream),
            Event::ToPeer(peer_id, msg) => {
                if self.peers.contains_key(&peer_id) {
                    Step::Deliver(peer_id, msg)
                } else {
                    Step::Emit(Event::Error(Error::PeerNotFound(peer_id)))
                }
            },
            _ => Step::Skip,
        }
    }

    /// Registers the channel to a newly connected peer, replacing any channel
    /// held for its ID, and gives the event that announces the peer.
    pub fn add_peer<F>(&mut self, entry: Entry, channel: T) -> (r: Event<F>)
        ensures
            final(self)@ == (old(self)@.0, old(self)@.1.insert(entry.id@, channel)),
            r == Event::<F>::AddPeer(entry.id, entry),
    {
        self.peers.insert(entry.id.clone(), channel);
        let id = entry.id.clone();
        Event::AddPeer(id, entry)
    }

    /// The channel to a connected peer, if it is connected.
    pub fn channel_to(&self, peer_id: &PeerID) -> (r: Option<&T>)
        ensures
            match r {
                Some(c) => self@.1.dom().contains(peer_id@) && *c == self@.1[peer_id@],
                None => !self@.1.dom().contains(peer_id@),
            },
    {
        self.peers.get(peer_id)
    }
}

} // verus!
