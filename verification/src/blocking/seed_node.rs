//! The decisions of a seed node: which peers it holds, what it writes in
//! its address book, and what its event loop does with each event. The node
//! loop itself, its listener thread and its peer connections are I/O, and
//! run around this state.

use crate::blocking::events::{Event, EventID, PeerEvent, PubSubRequest};
use crate::blocking::pubsub::{notify, publish_result, SubscriptionError, Subscriptions, SubscriptionsModel};
use crate::blocking::types::{AddressBook, PeerAddr, SubscriptionID, ID};
use crate::vec_map::VecMap;
use crossbeam::channel::Sender;
use vstd::prelude::*;

verus! {

/// How a seed node is identified and where it listens.
#[derive(Debug, Clone)]
pub struct SeedNodeConfig {
    pub id: ID,
    pub bind_host: String,
    pub bind_port: u16,
}

/// The state of a seed node: its configuration, the connected peers (each
/// held by a handle of type `P`), its address book and its subscriptions.
#[verifier::reject_recursive_types(E)]
pub struct SeedNodeState<P, E> {
    config: SeedNodeConfig,
    peers: VecMap<ID, P>,
    addr_book: AddressBook,
    subscriptions: Subscriptions<E>,
}

/// What the event loop does next, after an event has been handled.
#[verifier::reject_recursive_types(E)]
pub enum NodeAction<S, E> {
    /// Wait for the next event.
    Continue,
    /// A peer connected on this stream: read its hello.
    ReadHello(S),
    /// Open a connection to this `host:port` and say hello.
    ConnectTo(String),
    /// A subscription was refused; report it and wait for the next event.
    SubscriptionFailed(SubscriptionError<E>),
    /// Stop the event loop; every peer has been disconnected.
    Stop,
}

/// The connected peers by ID, the addresses in the address book, and the
/// subscriptions.
#[verifier::reject_recursive_types(E)]
pub ghost struct SeedNodeModel<P, E> {
    pub config: SeedNodeConfig,
    pub peers: Map<Seq<char>, P>,
    pub addrs: Seq<PeerAddr>,
    pub subscriptions: SubscriptionsModel<E>,
}

impl<P, E> View for SeedNodeState<P, E> {
    type V = SeedNodeModel<P, E>;

    closed spec fn view(&self) -> SeedNodeModel<P, E> {
        SeedNodeModel {
            config: self.config,
            peers: self.peers@,
            addrs: self.addr_book.addrs@,
            subscriptions: self.subscriptions@,
        }
    }
}

impl<P, E> SeedNodeState<P, E> {
    /// The state is consistent: the subscriptions are well formed.
    pub closed spec fn wf(&self) -> bool {
        self.subscriptions.wf()
    }

    /// The subscriptions to `e`, in the order in which they are notified.
    pub closed spec fn recipient_ids(&self, e: EventID) -> Seq<SubscriptionID> {
        self.subscriptions.recipient_ids(e)
    }

    /// The notification channels of the subscriptions to `e`, in the order
    /// in which they are notified.
    pub open spec fn recipients(&self, e: EventID) -> Seq<Sender<E>> {
        self.recipient_ids(e).map_values(|id: SubscriptionID| self@.subscriptions.table[e][id])
    }

    /// Of a well-formed node: the subscriptions to `e` are notified each
    /// once, and they are exactly those that the table lists under `e`.
    pub proof fn lemma_recipient_ids(&self, e: EventID)
        requires
            self.wf(),
        ensures
            self.recipient_ids(e).no_duplicates(),
            self.recipient_ids(e).to_set() == (if self@.subscriptions.table.dom().contains(e) {
                self@.subscriptions.table[e].dom()
            } else {
                Set::<SubscriptionID>::empty()
            }),
    {
        self.subscriptions.lemma_recipient_ids(e);
    }

    /// A node with no peers, an empty address book and no subscriptions.
    pub fn new(config: SeedNodeConfig) -> (r: Self)
        ensures
            r.wf(),
            r@.config == config,
            r@.peers == Map::<Seq<char>, P>::empty(),
            r@.addrs == Seq::<PeerAddr>::empty(),
            r@.subscriptions.table == Map::<EventID, Map<crate::blocking::types::SubscriptionID, Sender<E>>>::empty(),
            r@.subscriptions.ids == Set::<crate::blocking::types::SubscriptionID>::empty(),
    {
        SeedNodeState {
            config,
            peers: VecMap::new(),
            addr_book: AddressBook::new(),
            subscriptions: Subscriptions::new(),
        }
    }

    /// The configuration of this node.
    pub fn config(&self) -> (r: &SeedNodeConfig)
        ensures
            *r == self@.config,
    {
        &self.config
    }

    /// Whether a peer with this ID is connected.
    pub fn knows_peer(&self, id: &ID) -> (r: bool)
        ensures
            r == self@.peers.dom().contains(id@),
    {
        self.peers.contains_key(id)
    }

    /// The address book.
    pub fn addr_book(&self) -> (r: &AddressBook)
        ensures
            r.addrs@ == self@.addrs,
    {
        &self.addr_book
    }

    /// The IDs of the connected peers, each once.
    pub fn peer_ids(&self) -> (r: Vec<ID>)
        ensures
            r@.map_values(|id: ID| id@).no_duplicates(),
            r@.map_values(|id: ID| id@).to_set() == self@.peers.dom(),
    {
        self.peers.keys()
    }

    /// Registers a newly connected peer that has said hello: the peer is held
    /// under its ID, its address is added to the address book, and the event
    /// announcing the addition is returned, to be sent to the node itself.
    pub fn add_peer<S, N>(&mut self, addr: PeerAddr, peer: P) -> (r: Event<S, N>)
        requires
            !old(self)@.peers.dom().contains(addr.id@),
        ensures
            final(self).wf() == old(self).wf(),
            final(self)@.config == old(self)@.config,
            final(self)@.peers == old(self)@.peers.insert(addr.id@, peer),
            final(self)@.addrs == old(self)@.addrs.push(addr),
            final(self)@.subscriptions == old(self)@.subscriptions,
            r == Event::<S, N>::Peer(PeerEvent::AddedToAddressBook(addr)),
    {
        let id = addr.id.clone();
        self.peers.insert(id, peer);
        self.addr_book.addrs.push(addr.duplicate());
        Event::Peer(PeerEvent::AddedToAddressBook(addr))
    }

    /// Drops the connection to the peer with this ID, if there is one.
    pub fn disconnect_peer(&mut self, id: &ID)
        ensures
            final(self).wf() == old(self).wf(),
            final(self)@.config == old(self)@.config,
            final(self)@.peers == old(self)@.peers.remove(id@),
            final(self)@.addrs == old(self)@.addrs,
            final(self)@.subscriptions == old(self)@.subscriptions,
    {
        if !self.peers.contains_key(id) {
            assert(self@.peers =~= self@.peers.remove(id@));
            return;
        }
        self.peers.remove(id);
    }

    /// Drops the connections to all peers.
    pub fn disconnect_all_peers(&mut self)
        ensures
            final(self).wf() == old(self).wf(),
            final(self)@.config == old(self)@.config,
            final(self)@.peers == Map::<Seq<char>, P>::empty(),
            final(self)@.addrs == old(self)@.addrs,
            final(self)@.subscriptions == old(self)@.subscriptions,
    {
        let peer_ids = self.peers.keys();
        let mut i: usize = 0;
        while i < peer_ids.len()
            invariant
                i <= peer_ids@.len(),
                self.wf() == old(self).wf(),
                self@.config == old(self)@.config,
                self@.addrs == old(self)@.addrs,
                self@.subscriptions == old(self)@.subscriptions,
                peer_ids@.map_values(|id: ID| id@).to_set() == old(self)@.peers.dom(),
                forall|k: Seq<char>| #[trigger] self@.peers.dom().contains(k) <==> (
                    old(self)@.peers.dom().contains(k) && !peer_ids@.subrange(0, i as int).map_values(
                        |id: ID| id@,
                    ).contains(k)),
            decreases peer_ids@.len() - i,
        {
            let ghost ks = peer_ids@.map_values(|id: ID| id@);
            self.disconnect_peer(&peer_ids[i]);
            proof {
                let s1 = peer_ids@.subrange(0, i as int).map_values(|id: ID| id@);
                let s2 = peer_ids@.subrange(0, i + 1).map_values(|id: ID| id@);
                assert(s2 =~= s1.push(peer_ids@[i as int]@));
                assert forall|k: Seq<char>| #[trigger] s2.contains(k) <==> (s1.contains(k) || k
                    == peer_ids@[i as int]@) by {
                    if s2.contains(k) {
                        let j = choose|j: int| 0 <= j < s2.len() && s2[j] == k;
                        if j < s1.len() {
                            assert(s1[j] == k);
                        }
                    }
                    if s1.contains(k) {
                        let j = choose|j: int| 0 <= j < s1.len() && s1[j] == k;
                        assert(s2[j] == k);
                    }
                    if k == peer_ids@[i as int]@ {
                        assert(s2[i as int] == k);
                    }
                }
            }
            i = i + 1;
        }
        proof {
            assert(peer_ids@.subrange(0, i as int) =~= peer_ids@);
            assert forall|k: Seq<char>| !#[trigger] self@.peers.dom().contains(k) by {
                if old(self)@.peers.dom().contains(k) {
                    assert(peer_ids@.map_values(|id: ID| id@).to_set().contains(k));
                }
            }
            assert(self@.peers =~= Map::<Seq<char>, P>::empty());
        }
    }

    /// Publishes an event to its subscribers. Events without an event ID are
    /// not published, and that is no error.
    pub fn publish_event(&self, ev: E, event_id: Option<EventID>) -> (r: Result<(), SubscriptionError<E>>)
        where
            E: Clone,
        ensures
            match event_id {
                None => r is Ok,
                Some(e) => publish_result(notify::<E>, self.recipients(e), ev, r),
            },
    {
        match self.subscriptions.publish(ev, event_id) {
            Ok(()) => Ok(()),
            Err(SubscriptionError::NoEventIDForEvent) => Ok(()),
            Err(e) => Err(e),
        }
    }

    /// Handles one event of the event loop, after it has been published:
    /// subscription requests and disconnections change the state here,
    /// connections are handed back to be served, and termination drops every
    /// peer and stops the loop.
    pub fn handle_event<S>(&mut self, ev: Event<S, Sender<E>>) -> (r: NodeAction<S, E>)
        requires
            old(self).wf(),
        ensures
            final(self).wf(),
            final(self)@.config == old(self)@.config,
            final(self)@.addrs == old(self)@.addrs,
            match ev {
                Event::Peer(PeerEvent::Connected(stream)) => r == NodeAction::<S, E>::ReadHello(stream)
                    && final(self)@ == old(self)@,
                Event::Peer(PeerEvent::Connect(addr)) => r == NodeAction::<S, E>::ConnectTo(addr)
                    && final(self)@ == old(self)@,
                Event::Peer(PeerEvent::Disconnect(id)) => r is Continue && final(self)@.peers
                    == old(self)@.peers.remove(id@) && final(self)@.subscriptions == old(
                    self,
                )@.subscriptions,
                Event::Peer(_) => r is Continue && final(self)@ == old(self)@,
                Event::PubSub(PubSubRequest::Subscribe(subs)) => final(self)@.peers == old(
                    self,
                )@.peers && if old(self)@.subscriptions.ids.contains(subs.id) {
                    r matches NodeAction::SubscriptionFailed(SubscriptionError::IDAlreadyExists)
                        && final(self)@.subscriptions == old(self)@.subscriptions
                } else {
                    r is Continue && final(self)@.subscriptions.ids == old(
                        self,
                    )@.subscriptions.ids.insert(subs.id)
                        && final(self)@.subscriptions.table == crate::blocking::pubsub::table_with_subscription(
                        old(self)@.subscriptions.table,
                        subs.event_ids@.to_set(),
                        subs.id,
                        subs.notify,
                    )
                },
                Event::PubSub(PubSubRequest::Unsubscribe(ids)) => r is Continue && final(self)@.peers
                    == old(self)@.peers && final(self)@.subscriptions.ids == old(
                    self,
                )@.subscriptions.ids.difference(ids@.to_set())
                    && final(self)@.subscriptions.table == crate::blocking::pubsub::table_without_subscriptions(
                    old(self)@.subscriptions.table,
                    ids@,
                ),
                Event::Terminate => r is Stop && final(self)@.peers == Map::<Seq<char>, P>::empty()
                    && final(self)@.subscriptions == old(self)@.subscriptions,
            },
    {
        match ev {
            Event::Peer(pe) => match pe {
                PeerEvent::Connected(stream) => NodeAction::ReadHello(stream),
                PeerEvent::Connect(addr) => NodeAction::ConnectTo(addr),
                PeerEvent::Disconnect(id) => {
                    self.disconnect_peer(&id);
                    NodeAction::Continue
                },
                _ => NodeAction::Continue,
            },
            Event::PubSub(req) => match req {
                PubSubRequest::Subscribe(subs) => match self.subscriptions.add(subs) {
                    Ok(()) => NodeAction::Continue,
                    Err(e) => NodeAction::SubscriptionFailed(e),
                },
                PubSubRequest::Unsubscribe(ids) => {
                    self.subscriptions.remove_all(ids);
                    NodeAction::Continue
                },
            },
            Event::Terminate => {
                self.disconnect_all_peers();
                NodeAction::Stop
            },
        }
    }
}

} // verus!
