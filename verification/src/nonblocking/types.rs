//! An earlier, simpler address book state machine, whose peers answer an
//! address book request with the whole address book.

use crate::ip::IpAddr;
use crate::nonblocking::address_book::{lists_keys, Entry, Mapping, PeerID, PeerList};
use vstd::prelude::*;

verus! {

#[derive(Debug, PartialEq)]
pub enum Event {
    AddPeer(Entry),
    PeerAdded(PeerID),
    PeersAdded(PeerList),
    PollTrigger(),
    PollPeers(PeerList),
    PeerEvent(PeerID, PeerMessage),
    Terminate(),
    Terminated(),
    Error(),
    NoOp(),
}

#[derive(Debug, PartialEq)]
pub enum PeerMessage {
    AddressBookRequest(),
    AddressBookResponse(AddressBook),
}

/// The peers known, by ID.
#[derive(Debug, PartialEq)]
pub struct AddressBook {
    mapping: Mapping,
}

impl View for AddressBook {
    type V = Map<Seq<char>, (Seq<char>, IpAddr, u16)>;

    closed spec fn view(&self) -> Map<Seq<char>, (Seq<char>, IpAddr, u16)> {
        self.mapping@
    }
}

/// How the address book with table `old` handles `event`: its new table
/// `new` and its output `r`.
pub open spec fn handles(
    old: Map<Seq<char>, (Seq<char>, IpAddr, u16)>,
    new: Map<Seq<char>, (Seq<char>, IpAddr, u16)>,
    event: Event,
    r: Event,
) -> bool {
    match event {
        Event::AddPeer(entry) => if old.dom().contains(entry.id@) {
            r is NoOp && new == old
        } else {
            r == Event::PeerAdded(entry.id) && new == old.insert(entry.id@, entry@)
        },
        Event::PollTrigger() => new == old && (r matches Event::PollPeers(list) && lists_keys(list@, old)),
        Event::PeerEvent(peer_id, PeerMessage::AddressBookRequest()) => new == old && (r matches Event::PeerEvent(
            to,
            PeerMessage::AddressBookResponse(book),
        ) && to == peer_id && book@ == old),
        Event::Terminate() => r is Terminated && new == old,
        _ => r is NoOp && new == old,
    }
}

/// Adding a peer whose ID the book already holds changes nothing: the
/// first entry added under an ID stays, and a later `AddPeer` with that ID
/// gives `NoOp`. So after adding two entries with one ID, the book holds the
/// first, and an answer to an address book request hands out the first.
pub proof fn law_first_entry_stays(
    before: Map<Seq<char>, (Seq<char>, IpAddr, u16)>,
    mid: Map<Seq<char>, (Seq<char>, IpAddr, u16)>,
    after: Map<Seq<char>, (Seq<char>, IpAddr, u16)>,
    first: Entry,
    second: Entry,
    r1: Event,
    r2: Event,
)
    requires
        handles(before, mid, Event::AddPeer(first), r1),
        handles(mid, after, Event::AddPeer(second), r2),
        second.id@ == first.id@,
    ensures
        r2 is NoOp,
        after == mid,
        after.dom().contains(first.id@),
        !before.dom().contains(first.id@) ==> after[first.id@] == first@ && r1 == Event::PeerAdded(first.id),
        before.dom().contains(first.id@) ==> after == before && r1 is NoOp,
{
}

/// An address book request is answered, to the requester, with the whole
/// book as it stands, and leaves it unchanged.
pub proof fn law_request_answered_with_the_book(
    before: Map<Seq<char>, (Seq<char>, IpAddr, u16)>,
    after: Map<Seq<char>, (Seq<char>, IpAddr, u16)>,
    requester: PeerID,
    r: Event,
)
    requires
        handles(before, after, Event::PeerEvent(requester, PeerMessage::AddressBookRequest()), r),
    ensures
        after == before,
        r matches Event::PeerEvent(to, PeerMessage::AddressBookResponse(book)) && to == requester && book@
            == before,
{
}

/// A poll lists every peer of the book, each once, and nothing else, and
/// leaves the book unchanged.
pub proof fn law_poll_lists_every_peer(
    before: Map<Seq<char>, (Seq<char>, IpAddr, u16)>,
    after: Map<Seq<char>, (Seq<char>, IpAddr, u16)>,
    r: Event,
    id: Seq<char>,
)
    requires
        handles(before, after, Event::PollTrigger(), r),
    ensures
        after == before,
        r matches Event::PollPeers(list) && (list@.map_values(|k: PeerID| k@).contains(id)
            <==> before.dom().contains(id)) && list@.map_values(|k: PeerID| k@).no_duplicates(),
{
    if let Event::PollPeers(list) = r {
        assert(list@.map_values(|k: PeerID| k@).contains(id) <==> list@.map_values(|k: PeerID| k@).to_set().contains(id));
    }
}

/// The book answers `Terminated` exactly to `Terminate`, and then stays as
/// it was.
pub proof fn law_terminated_answers_terminate(
    before: Map<Seq<char>, (Seq<char>, IpAddr, u16)>,
    after: Map<Seq<char>, (Seq<char>, IpAddr, u16)>,
    event: Event,
    r: Event,
)
    requires
        handles(before, after, event, r),
    ensures
        r is Terminated <==> event is Terminate,
        event is Terminate ==> after == before,
{
}

impl AddressBook {
    /// An empty address book.
    pub fn new() -> (r: AddressBook)
        ensures
            r@ == Map::<Seq<char>, (Seq<char>, IpAddr, u16)>::empty(),
    {
        AddressBook { mapping: Mapping::new() }
    }

    /// An address book holding each entry under the ID it is paired with; of
    /// two pairs with the same ID, the later wins.
    pub fn from_entries(entries: Vec<(PeerID, Entry)>) -> (r: AddressBook)
        ensures
            r@ == crate::nonblocking::address_book::map_of_pairs(entries@),
    {
        let book = crate::nonblocking::address_book::AddressBook::from_entries(entries);
        AddressBook { mapping: book.into_mapping() }
    }

    /// A copy of this address book.
    pub fn duplicate(&self) -> (r: AddressBook)
        ensures
            r@ == self@,
    {
        AddressBook { mapping: self.mapping.duplicate() }
    }

    /// Handles one event, and gives the output event.
    pub fn handle(&mut self, event: Event) -> (r: Event)
        ensures
            handles(old(self)@, final(self)@, event, r),
    {
        match event {
            Event::AddPeer(entry) => {
                if self.mapping.contains_key(&entry.id) {
                    Event::NoOp()
                } else {
                    self.mapping.insert(entry.id.clone(), entry.duplicate());
                    Event::PeerAdded(entry.id)
                }
            },
            Event::PollTrigger() => {
                let requested_peers = self.mapping.keys();
                Event::PollPeers(requested_peers)
            },
            Event::PeerEvent(peer_id, message) => {
                match message {
                    PeerMessage::AddressBookRequest() => {
                        let message = PeerMessage::AddressBookResponse(self.duplicate());
                        Event::PeerEvent(peer_id, message)
                    },
                    PeerMessage::AddressBookResponse(_) => Event::NoOp(),
                }
            },
            Event::Terminate() => Event::Terminated(),
            _ => Event::NoOp(),
        }
    }

    /// One turn of the address book's loop. The event that came in, or
    /// `None` once the input channel has closed, gives the event to send out
    /// and whether the loop goes on: a closed channel is answered with an
    /// error, and `Terminated` is the last event sent.
    pub fn step(&mut self, input: Option<Event>) -> (r: (Event, bool))
        ensures
            match input {
                None => r.0 is Error && !r.1 && final(self)@ == old(self)@,
                Some(event) => handles(old(self)@, final(self)@, event, r.0) && r.1 == !(r.0 is Terminated),
            },
    {
        match input {
            None => (Event::Error(), false),
            Some(event) => {
                let out = self.handle(event);
                let go_on = match out {
                    Event::Terminated() => false,
                    _ => true,
                };
                (out, go_on)
            },
        }
    }
}

} // verus!
