//! Global types for a seed node. Messages are in `messages`.

use crate::ip::IpAddr;
use vstd::prelude::*;

verus! {

/// A node/peer ID is a hex-encoded cryptographic address.
pub type ID = String;

/// The identifier of an internal subscription to node events.
#[derive(Debug, Clone, Copy, PartialEq, Eq, Structural, Hash)]
pub struct SubscriptionID(pub u64);

/// The initial message a peer sends when connecting to us.
#[derive(Debug, Clone, PartialEq)]
pub struct PeerHello {
    pub id: ID,
}

/// The address of a peer in the network.
#[derive(Debug, Clone, PartialEq)]
pub struct PeerAddr {
    /// The cryptographic address of this peer.
    pub id: ID,
    /// The IPv4/6 address of this peer.
    pub ip: IpAddr,
    /// The port on which the peer is listening for incoming connections.
    pub port: u16,
}

impl PeerAddr {
    /// A copy of this address.
    pub fn duplicate(&self) -> (r: PeerAddr)
        ensures
            r == *self,
    {
        PeerAddr { id: self.id.clone(), ip: self.ip, port: self.port }
    }
}

/// An address book containing the addresses of zero or more peers.
#[derive(Debug, Clone, PartialEq)]
pub struct AddressBook {
    pub addrs: Vec<PeerAddr>,
}

impl AddressBook {
    /// An empty address book.
    pub fn new() -> (r: AddressBook)
        ensures
            r.addrs@ == Seq::<PeerAddr>::empty(),
    {
        AddressBook { addrs: Vec::new() }
    }
}

} // verus!
