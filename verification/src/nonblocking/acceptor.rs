//! The events of the acceptor component, which establishes connections with
//! a handshake; the component itself is network I/O.

use crate::nonblocking::address_book::{Entry, PeerID, PeerMessage};
use vstd::prelude::*;

verus! {

/// Events to and from the acceptor; `F` is the framed stream of a
/// connected peer.
#[derive(Debug)]
pub enum Event<F> {
    /// Connect to the peer at this entry's address.
    Connect(Entry),
    /// A peer completed the handshake on this stream.
    PeerConnected(Entry, F),
    Error(String),
}

/// The ID of the peer that a handshake message introduces, if it is a
/// hello; the handshake fails on any other message.
pub fn hello_peer(msg: PeerMessage) -> (r: Option<PeerID>)
    ensures
        match msg {
            PeerMessage::Hello(peer_id) => r == Some(peer_id),
            _ => r is None,
        },
{
    match msg {
        PeerMessage::Hello(peer_id) => Some(peer_id),
        _ => None,
    }
}

} // verus!
