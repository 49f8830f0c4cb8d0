//! All events of the seed node originate from the `Event` type defined here.
//! The kind of stream a connected peer arrives on, and the kind of channel a
//! subscriber is notified on, are left to the caller.

use crate::blocking::messages::PeerMessage;
use crate::blocking::pubsub::Subscription;
use crate::blocking::types::{PeerAddr, SubscriptionID, ID};
use crate::vec_map::MapKey;
use vstd::prelude::*;

verus! {

/// The core event model for the whole node.
#[derive(Debug, Clone)]
pub enum Event<S, N> {
    /// All peer-related events.
    Peer(PeerEvent<S>),
    /// Events relating to the node's internal pub/sub mechanism.
    PubSub(PubSubRequest<N>),
    /// A termination signal has been received for the node (e.g. SIGTERM).
    Terminate,
}

/// Events related to a specific peer; `S` is the stream type.
#[derive(Debug, Clone)]
pub enum PeerEvent<S> {
    /// A peer connected to us (or we connected to them).
    Connected(S),
    /// Part of the system wants us to connect to the given `host:port`.
    Connect(String),
    /// A peer has been added to our address book.
    AddedToAddressBook(PeerAddr),
    /// We received a message from a peer.
    ReceivedMessage { id: ID, msg: PeerMessage },
    /// Some part of the system needs to send a message to a particular peer.
    SendMessage { id: ID, msg: PeerMessage },
    /// A registered peer was disconnected, or we want to disconnect them.
    Disconnect(ID),
}

/// Allows internal entities to subscribe to kinds of events.
#[derive(Debug, Clone)]
pub enum PubSubRequest<N> {
    /// An internal entity wants to subscribe to some kinds of event.
    Subscribe(Subscription<N>),
    /// An internal entity wants to end one or more subscriptions.
    Unsubscribe(Vec<SubscriptionID>),
}

/// The events to which one can subscribe.
#[derive(Debug, Clone, Copy, PartialEq, Eq, Structural, Hash)]
pub enum EventID {
    PeerConnected,
    PeerConnect,
    PeerAddedToAddressBook,
    PeerReceivedMessage,
    PeerSendMessage,
    PeerDisconnect,
    Terminate,
}

impl View for EventID {
    type V = EventID;

    open spec fn view(&self) -> EventID {
        *self
    }
}

impl MapKey for EventID {
    fn key_eq(&self, other: &Self) -> (r: bool) {
        *self == *other
    }

    fn key_copy(&self) -> (r: Self) {
        *self
    }
}

impl View for SubscriptionID {
    type V = SubscriptionID;

    open spec fn view(&self) -> SubscriptionID {
        *self
    }
}

impl MapKey for SubscriptionID {
    fn key_eq(&self, other: &Self) -> (r: bool) {
        *self == *other
    }

    fn key_copy(&self) -> (r: Self) {
        *self
    }
}

/// The kind of a peer event.
pub open spec fn peer_event_id<S>(ev: PeerEvent<S>) -> EventID {
    match ev {
        PeerEvent::Connected(_) => EventID::PeerConnected,
        PeerEvent::Connect(_) => EventID::PeerConnect,
        PeerEvent::AddedToAddressBook(_) => EventID::PeerAddedToAddressBook,
        PeerEvent::ReceivedMessage { .. } => EventID::PeerReceivedMessage,
        PeerEvent::SendMessage { .. } => EventID::PeerSendMessage,
        PeerEvent::Disconnect(_) => EventID::PeerDisconnect,
    }
}

/// The kind of an event, if it has one: pub/sub requests have none, so that
/// nobody can subscribe to subscriptions.
pub open spec fn event_id<S, N>(ev: Event<S, N>) -> Option<EventID> {
    match ev {
        Event::Peer(pe) => Some(peer_event_id(pe)),
        Event::PubSub(_) => None,
        Event::Terminate => Some(EventID::Terminate),
    }
}

/// Each peer event is published under the event ID that names its own kind,
/// one kind to one ID: subscribers to received messages hear of received
/// messages only, subscribers to additions to the address book hear of
/// additions only, and so on for every kind.
pub proof fn law_peer_event_id_names_its_kind<S>(ev: PeerEvent<S>)
    ensures
        peer_event_id(ev) == EventID::PeerConnected <==> ev is Connected,
        peer_event_id(ev) == EventID::PeerConnect <==> ev is Connect,
        peer_event_id(ev) == EventID::PeerAddedToAddressBook <==> ev is AddedToAddressBook,
        peer_event_id(ev) == EventID::PeerReceivedMessage <==> ev is ReceivedMessage,
        peer_event_id(ev) == EventID::PeerSendMessage <==> ev is SendMessage,
        peer_event_id(ev) == EventID::PeerDisconnect <==> ev is Disconnect,
        peer_event_id(ev) != EventID::Terminate,
{
}

/// Node events carry their kind's event ID: a peer event the ID of its
/// peer event kind, termination the `Terminate` ID; requests to the
/// publish/subscribe registry carry none, so nobody can subscribe to them.
pub proof fn law_event_id_names_its_kind<S, N>(ev: Event<S, N>)
    ensures
        event_id(ev) is None <==> ev is PubSub,
        event_id(ev) == Some(EventID::Terminate) <==> ev is Terminate,
        ev matches Event::Peer(pe) ==> event_id(ev) == Some(peer_event_id(pe)),
{
    match ev {
        Event::Peer(pe) => {
            law_peer_event_id_names_its_kind(pe);
        },
        _ => {},
    }
}

impl<S, N> Event<S, N> {
    /// Returns the `EventID` of this event, if any. `None` means that nobody
    /// can subscribe to it.
    pub fn id(&self) -> (r: Option<EventID>)
        ensures
            r == event_id(*self),
    {
        match self {
            Event::Peer(e) => e.id(),
            Event::PubSub(_) => None,
            Event::Terminate => Some(EventID::Terminate),
        }
    }
}

impl<S> PeerEvent<S> {
    /// Returns the `EventID` of this peer event.
    pub fn id(&self) -> (r: Option<EventID>)
        ensures
            r == Some(peer_event_id(*self)),
    {
        match self {
            PeerEvent::Connected(_) => Some(EventID::PeerConnected),
            PeerEvent::Connect(_) => Some(EventID::PeerConnect),
            PeerEvent::AddedToAddressBook(_) => Some(EventID::PeerAddedToAddressBook),
            PeerEvent::ReceivedMessage { .. } => Some(EventID::PeerReceivedMessage),
            PeerEvent::SendMessage { .. } => Some(EventID::PeerSendMessage),
            PeerEvent::Disconnect(_) => Some(EventID::PeerDisconnect),
        }
    }
}

} // verus!
