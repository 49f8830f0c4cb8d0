//! The dispatcher: it completes handshakes with peers, keeps a channel to
//! each connected peer, and forwards what peers ask of the node.

use crate::multithreaded::tendermint::{FromDispatcherMsg, PeerId};
use crate::vec_map::VecMap;
use vstd::prelude::*;

verus! {

/// Messages between peers.
#[derive(Clone, Debug, PartialEq)]
pub enum PeerMessage {
    Hello(PeerId),
    AddressBookRequest(PeerId),
    /// The IDs of the peers that the sender knows; the node lists each of
    /// its peers once (see `Tendermint::on_dispatcher_msg`).
    AddressBookResponse(Vec<PeerId>),
}

/// Messages to the dispatcher; `F` is the framed stream of a peer and `C`
/// the channel on which an exit is confirmed.
#[derive(Debug)]
pub enum DispatcherMsg<F, C> {
    ToPeer(PeerId, PeerMessage),
    PeerHandshake(F, PeerId),
    HandshakeCompleted(F, PeerId),
    PeerDisconnected(PeerId),
    Exit(C),
}

/// What the dispatcher does with a message.
pub enum DispatcherStep<F, C> {
    /// Say hello as this peer on the stream, and wait for the hello back.
    Handshake(F, PeerId),
    /// Hand the message to the channel of this connected peer.
    Deliver(PeerId, PeerMessage),
    /// Serve the peer that completed its handshake on this stream, then
    /// register its channel.
    ServePeer(F, PeerId),
    /// Confirm the exit on this channel, and stop.
    Exit(C),
    /// Wait for the next message.
    Continue,
}

/// The dispatcher's table of connected peers, each with a channel of type `T`.
pub struct Dispatcher<T> {
    connected_peers: VecMap<PeerId, T>,
}

impl<T> View for Dispatcher<T> {
    type V = Map<Seq<char>, T>;

    closed spec fn view(&self) -> Map<Seq<char>, T> {
        self.connected_peers@
    }
}

impl<T> Dispatcher<T> {
    /// A dispatcher with no connected peers.
    pub fn new() -> (r: Dispatcher<T>)
        ensures
            r@ == Map::<Seq<char>, T>::empty(),
    {
        Dispatcher { connected_peers: VecMap::new() }
    }

    /// Whether the peer with this ID is connected.
    pub fn is_connected(&self, peer_id: &PeerId) -> (r: bool)
        ensures
            r == self@.dom().contains(peer_id@),
    {
        self.connected_peers.contains_key(peer_id)
    }

    /// Decides what to do with a message. A message for a peer that is not
    /// connected is not accepted.
    pub fn handle<F, C>(&mut self, msg: DispatcherMsg<F, C>) -> (r: DispatcherStep<F, C>)
        requires
            msg matches DispatcherMsg::ToPeer(peer_id, _) ==> old(self)@.dom().contains(peer_id@),
        ensures
            match msg {
                DispatcherMsg::PeerHandshake(stream, my_id) => r == DispatcherStep::<F, C>::Handshake(
                    stream,
                    my_id,
                ) && final(self)@ == old(self)@,
                DispatcherMsg::ToPeer(peer_id, m) => r == DispatcherStep::<F, C>::Deliver(peer_id, m)
                    && final(self)@ == old(self)@,
                DispatcherMsg::PeerDisconnected(peer_id) => r is Continue && final(self)@ == old(
                    self,
                )@.remove(peer_id@),
                DispatcherMsg::HandshakeCompleted(stream, peer_id) => r
                    == DispatcherStep::<F, C>::ServePeer(stream, peer_id) && final(self)@ == old(
                    self,
                )@,
                DispatcherMsg::Exit(c) => r == DispatcherStep::<F, C>::Exit(c) && final(self)@ == old(
                    self,
                )@,
            },
    {
        match msg {
            DispatcherMsg::PeerHandshake(stream, my_id) => DispatcherStep::Handshake(stream, my_id),
            DispatcherMsg::ToPeer(peer_id, m) => DispatcherStep::Deliver(peer_id, m),
            DispatcherMsg::PeerDisconnected(peer_id) => {
                self.connected_peers.remove(&peer_id);
                DispatcherStep::Continue
            },
            DispatcherMsg::HandshakeCompleted(stream, peer_id) => DispatcherStep::ServePeer(
                stream,
                peer_id,
            ),
            DispatcherMsg::Exit(c) => DispatcherStep::Exit(c),
        }
    }

    /// Registers the channel to a peer that completed its handshake, and
    /// gives the message that tells the node about it.
    pub fn add_connected_peer(&mut self, peer_id: PeerId, channel: T) -> (r: FromDispatcherMsg)
        ensures
            final(self)@ == old(self)@.insert(peer_id@, channel),
            r == FromDispatcherMsg::PeerConnected(peer_id),
    {
        let id = peer_id.duplicate();
        self.connected_peers.insert(id, channel);
        FromDispatcherMsg::PeerConnected(peer_id)
    }

    /// The channel to a connected peer, if it is connected.
    pub fn channel_to(&self, peer_id: &PeerId) -> (r: Option<&T>)
        ensures
            match r {
                Some(c) => self@.dom().contains(peer_id@) && *c == self@[peer_id@],
                None => !self@.dom().contains(peer_id@),
            },
    {
        self.connected_peers.get(peer_id)
    }
}

/// During a handshake, the ID of the peer that a message from it introduces:
/// a hello completes the handshake, and every other message is skipped.
pub fn handshake_peer(msg: PeerMessage) -> (r: Option<PeerId>)
    ensures
        match msg {
            PeerMessage::Hello(peer_id) => r == Some(peer_id),
            _ => r is None,
        },
{
    match msg {
        PeerMessage::Hello(peer_id) => Some(peer_id),
        _ => None,
    }
}

/// What the task serving a peer passes on to the node of a message from that
/// peer: only address book requests are passed on.
pub fn forward_from_peer(msg: PeerMessage) -> (r: Option<FromDispatcherMsg>)
    ensures
        match msg {
            PeerMessage::AddressBookRequest(peer_id) => r == Some(
                FromDispatcherMsg::FromPeer(PeerMessage::AddressBookRequest(peer_id)),
            ),
            _ => r is None,
        },
{
    match msg {
        PeerMessage::AddressBookRequest(peer_id) => Some(
            FromDispatcherMsg::FromPeer(PeerMessage::AddressBookRequest(peer_id)),
        ),
        _ => None,
    }
}

} // verus!
