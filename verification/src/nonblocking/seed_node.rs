//! The routing table of the non-blocking seed node: every event that one
//! component emits is routed to the component that handles it.

use crate::nonblocking::acceptor::Event as AcceptorEvent;
use crate::nonblocking::address_book::{AddressBook, Entry, Event as AddressBookEvent, PeerID};
use crate::nonblocking::dispatcher::Event as DispatcherEvent;
use vstd::prelude::*;

verus! {

/// Events of the node as a whole.
#[derive(Debug, PartialEq)]
pub enum NodeEvent {
    /// Connect to the peer at this entry.
    Connect(PeerID, Entry),
    /// One peer connected to another.
    Connected(PeerID, PeerID),
    GetAddressBook(),
    AddressBook(AddressBook),
}

/// Events that reach the node's event loop; `F` is the framed stream of a
/// connected peer.
#[derive(Debug)]
pub enum Event<F> {
    Node(NodeEvent),
    AddressBook(AddressBookEvent),
    Acceptor(AcceptorEvent<F>),
    Dispatcher(DispatcherEvent<F>),
}

/// A seed node, known by the entry it listens at.
pub struct SeedNode {
    entry: Entry,
}

impl SeedNode {
    pub fn new(entry: Entry) -> (r: SeedNode)
        ensures
            r.entry() == entry,
    {
        SeedNode { entry }
    }

    /// The entry this node listens at.
    pub closed spec fn entry(&self) -> Entry {
        self.entry
    }

    /// The entry this node listens at.
    pub fn get_entry(&self) -> (r: &Entry)
        ensures
            *r == self.entry(),
    {
        &self.entry
    }
}

/// Where the node sends an event that it has received.
pub enum Route<F> {
    ToAcceptor(AcceptorEvent<F>),
    ToDispatcher(DispatcherEvent<F>),
    ToAddressBook(AddressBookEvent),
    /// Out of the node, to whoever listens to it.
    Out(Event<F>),
    /// Nowhere.
    Drop,
}

/// Routes an event received by the node `my_id`:
/// connection requests go to the acceptor, connected peers to the
/// dispatcher, added peers and messages from peers to the address book,
/// messages for peers to the dispatcher, and the address book's news out of
/// the node.
pub fn route<F>(my_id: &PeerID, event: Event<F>) -> (r: Route<F>)
    ensures
        match event {
            Event::Node(NodeEvent::Connect(_, entry)) => r == Route::ToAcceptor(
                AcceptorEvent::<F>::Connect(entry),
            ),
            Event::Node(NodeEvent::GetAddressBook()) => r == Route::<F>::ToAddressBook(
                AddressBookEvent::GetAddressBook(),
            ),
            Event::Acceptor(AcceptorEvent::PeerConnected(entry, stream)) => r == Route::ToDispatcher(
                DispatcherEvent::PeerConnected(entry, stream),
            ),
            Event::Dispatcher(DispatcherEvent::AddPeer(_, entry)) => r == Route::<F>::ToAddressBook(
                AddressBookEvent::AddPeer(entry),
            ),
            Event::Dispatcher(DispatcherEvent::FromPeer(peer_id, msg)) => r
                == Route::<F>::ToAddressBook(AddressBookEvent::FromPeer(peer_id, msg)),
            Event::AddressBook(AddressBookEvent::ToPeer(peer_id, msg)) => r == Route::ToDispatcher(
                DispatcherEvent::<F>::ToPeer(peer_id, msg),
            ),
            Event::AddressBook(AddressBookEvent::PeerAdded(peer_id)) => r matches Route::Out(
                Event::Node(NodeEvent::Connected(from, to)),
            ) && from@ == my_id@ && to == peer_id,
            Event::AddressBook(AddressBookEvent::AddressBook(book)) => r == Route::<F>::Out(
                Event::Node(NodeEvent::AddressBook(book)),
            ),
            _ => r is Drop,
        },
{
    match event {
        Event::Node(node_event) => match node_event {
            NodeEvent::Connect(_, entry) => Route::ToAcceptor(AcceptorEvent::Connect(entry)),
            NodeEvent::GetAddressBook() => Route::ToAddressBook(AddressBookEvent::GetAddressBook()),
            _ => Route::Drop,
        },
        Event::Acceptor(acceptor_event) => match acceptor_event {
            AcceptorEvent::PeerConnected(entry, stream) => Route::ToDispatcher(
                DispatcherEvent::PeerConnected(entry, stream),
            ),
            _ => Route::Drop,
        },
        Event::Dispatcher(dispatcher_event) => match dispatcher_event {
            DispatcherEvent::AddPeer(_, entry) => Route::ToAddressBook(AddressBookEvent::AddPeer(entry)),
            DispatcherEvent::FromPeer(peer_id, msg) => Route::ToAddressBook(
                AddressBookEvent::FromPeer(peer_id, msg),
            ),
            _ => Route::Drop,
        },
        Event::AddressBook(address_book_event) => match address_book_event {
            AddressBookEvent::ToPeer(peer_id, msg) => Route::ToDispatcher(
                DispatcherEvent::ToPeer(peer_id, msg),
            ),
            AddressBookEvent::PeerAdded(added_peer_id) => {
                let my_id = my_id.clone();
                Route::Out(Event::Node(NodeEvent::Connected(my_id, added_peer_id)))
            },
            AddressBookEvent::AddressBook(address_book) => Route::Out(
                Event::Node(NodeEvent::AddressBook(address_book)),
            ),
            _ => Route::Drop,
        },
    }
}

} // verus!
