//! The address book component: a finite state machine that maps each event
//! it receives to one output event.

use crate::ip::IpAddr;
use crate::vec_map::VecMap;
use vstd::prelude::*;

verus! {

pub type PeerID = String;

pub type PeerList = Vec<PeerID>;

/// The address of a peer in the network.
#[derive(Debug, Clone)]
pub struct Entry {
    /// The cryptographic address of this peer.
    pub id: PeerID,
    /// The IPv4/6 address of this peer.
    pub ip: IpAddr,
    /// The port on which the peer is listening for incoming connections.
    pub port: u16,
}

impl View for Entry {
    type V = (Seq<char>, IpAddr, u16);

    open spec fn view(&self) -> (Seq<char>, IpAddr, u16) {
        (self.id@, self.ip, self.port)
    }
}

impl PartialEq for Entry {
    fn eq(&self, other: &Self) -> (r: bool) {
        self.id == other.id && self.ip == other.ip && self.port == other.port
    }
}

impl vstd::std_specs::cmp::PartialEqSpecImpl for Entry {
    open spec fn obeys_eq_spec() -> bool {
        true
    }

    open spec fn eq_spec(&self, other: &Entry) -> bool {
        self@ == other@
    }
}

impl Entry {
    pub fn new(id: PeerID, ip: IpAddr, port: u16) -> (r: Entry)
        ensures
            r.id == id,
            r.ip == ip,
            r.port == port,
    {
        Entry { id: id, ip: ip, port: port }
    }

    /// The entry with an empty ID, address 127.0.0.1 and port 0.
    pub fn default() -> (r: Entry)
        ensures
            r.id@ == Seq::<char>::empty(),
            r.ip == IpAddr::V4(0x7f000001),
            r.port == 0,
    {
        Entry { id: String::new(), ip: IpAddr::v4(127, 0, 0, 1), port: 0 }
    }

    /// A copy of this entry.
    pub fn duplicate(&self) -> (r: Entry)
        ensures
            r == *self,
    {
        Entry { id: self.id.clone(), ip: self.ip, port: self.port }
    }
}

/// A table of peer entries by peer ID.
#[derive(Debug)]
pub struct Mapping {
    entries: VecMap<PeerID, Entry>,
}

impl View for Mapping {
    type V = Map<Seq<char>, (Seq<char>, IpAddr, u16)>;

    closed spec fn view(&self) -> Map<Seq<char>, (Seq<char>, IpAddr, u16)> {
        self.entries@.map_values(|e: Entry| e@)
    }
}

impl PartialEq for Mapping {
    fn eq(&self, other: &Self) -> (r: bool) {
        self.same_as(other)
    }
}

impl vstd::std_specs::cmp::PartialEqSpecImpl for Mapping {
    open spec fn obeys_eq_spec() -> bool {
        true
    }

    open spec fn eq_spec(&self, other: &Mapping) -> bool {
        self@ == other@
    }
}

impl Mapping {
    /// An empty table.
    pub fn new() -> (r: Mapping)
        ensures
            r@ == Map::<Seq<char>, (Seq<char>, IpAddr, u16)>::empty(),
    {
        let r = Mapping { entries: VecMap::new() };
        assert(r@ =~= Map::<Seq<char>, (Seq<char>, IpAddr, u16)>::empty());
        r
    }

    /// The number of peers in the table.
    pub fn len(&self) -> (n: usize)
        ensures
            n == self@.len(),
            self@.dom().finite(),
    {
        let n = self.entries.len();
        assert(self@.dom() =~= self.entries@.dom());
        n
    }

    /// Whether the table holds an entry for `id`.
    pub fn contains_key(&self, id: &PeerID) -> (r: bool)
        ensures
            r == self@.dom().contains(id@),
    {
        self.entries.contains_key(id)
    }

    /// The entry held for `id`, if any.
    pub fn get(&self, id: &PeerID) -> (r: Option<&Entry>)
        ensures
            match r {
                Some(e) => self@.dom().contains(id@) && e@ == self@[id@],
                None => !self@.dom().contains(id@),
            },
    {
        self.entries.get(id)
    }

    /// Holds `entry` under `id`, replacing any entry held for it.
    pub fn insert(&mut self, id: PeerID, entry: Entry)
        ensures
            final(self)@ == old(self)@.insert(id@, entry@),
    {
        let ghost e = entry@;
        self.entries.insert(id, entry);
        assert(self@ =~= old(self)@.insert(id@, e));
    }

    /// The peer IDs in the table, each once.
    pub fn keys(&self) -> (r: Vec<PeerID>)
        ensures
            r@.map_values(|k: PeerID| k@).no_duplicates(),
            r@.map_values(|k: PeerID| k@).to_set() == self@.dom(),
            r@.len() == self@.len(),
    {
        let r = self.entries.keys();
        assert(self@.dom() =~= self.entries@.dom());
        r
    }

    /// A copy of this table.
    pub fn duplicate(&self) -> (r: Mapping)
        ensures
            r@ == self@,
    {
        let mut r = Mapping::new();
        let keys = self.keys();
        let mut i: usize = 0;
        while i < keys.len()
            invariant
                i <= keys@.len(),
                keys@.map_values(|k: PeerID| k@).to_set() == self@.dom(),
                r@ == self@.restrict(keys@.subrange(0, i as int).map_values(|k: PeerID| k@).to_set()),
            decreases keys@.len() - i,
        {
            let ghost done = keys@.subrange(0, i as int).map_values(|k: PeerID| k@);
            proof {
                assert(keys@.subrange(0, i + 1).map_values(|k: PeerID| k@) =~= done.push(keys@[i as int]@));
                crate::vec_map::lemma_push_to_set(done, keys@[i as int]@);
                assert(keys@.map_values(|k: PeerID| k@)[i as int] == keys@[i as int]@);
                assert(keys@.map_values(|k: PeerID| k@).to_set().contains(keys@[i as int]@));
            }
            match self.get(&keys[i]) {
                Some(e) => {
                    r.insert(keys[i].clone(), e.duplicate());
                },
                None => {},
            }
            assert(r@ =~= self@.restrict(keys@.subrange(0, i + 1).map_values(|k: PeerID| k@).to_set()));
            i = i + 1;
        }
        assert(keys@.subrange(0, i as int) =~= keys@);
        assert(r@ =~= self@);
        r
    }

    /// Holds each entry of `other` under its ID, replacing what this table
    /// held for those IDs.
    pub fn extend(&mut self, other: &Mapping)
        ensures
            final(self)@ == old(self)@.union_prefer_right(other@),
    {
        let keys = other.keys();
        let mut i: usize = 0;
        while i < keys.len()
            invariant
                i <= keys@.len(),
                keys@.map_values(|k: PeerID| k@).to_set() == other@.dom(),
                self@ == old(self)@.union_prefer_right(
                    other@.restrict(keys@.subrange(0, i as int).map_values(|k: PeerID| k@).to_set()),
                ),
            decreases keys@.len() - i,
        {
            let ghost done = keys@.subrange(0, i as int).map_values(|k: PeerID| k@);
            proof {
                assert(keys@.subrange(0, i + 1).map_values(|k: PeerID| k@) =~= done.push(keys@[i as int]@));
                crate::vec_map::lemma_push_to_set(done, keys@[i as int]@);
                assert(keys@.map_values(|k: PeerID| k@)[i as int] == keys@[i as int]@);
                assert(keys@.map_values(|k: PeerID| k@).to_set().contains(keys@[i as int]@));
            }
            match other.get(&keys[i]) {
                Some(e) => {
                    self.insert(keys[i].clone(), e.duplicate());
                },
                None => {},
            }
            assert(self@ =~= old(self)@.union_prefer_right(
                other@.restrict(keys@.subrange(0, i + 1).map_values(|k: PeerID| k@).to_set()),
            ));
            i = i + 1;
        }
        assert(keys@.subrange(0, i as int) =~= keys@);
        assert(other@.restrict(keys@.map_values(|k: PeerID| k@).to_set()) =~= other@);
    }

    /// Whether two tables hold the same entries under the same IDs.
    pub fn same_as(&self, other: &Mapping) -> (r: bool)
        ensures
            r == (self@ == other@),
    {
        if self.len() != other.len() {
            return false;
        }
        let keys = self.keys();
        let mut i: usize = 0;
        while i < keys.len()
            invariant
                i <= keys@.len(),
                keys@.map_values(|k: PeerID| k@).to_set() == self@.dom(),
                self@.len() == other@.len(),
                self@.dom().finite(),
                other@.dom().finite(),
                forall|j: int|
                    #![trigger keys@[j]]
                    0 <= j < i ==> other@.dom().contains(keys@[j]@) && other@[keys@[j]@]
                        == self@[keys@[j]@],
            decreases keys@.len() - i,
        {
            assert(keys@.map_values(|k: PeerID| k@)[i as int] == keys@[i as int]@);
            assert(keys@.map_values(|k: PeerID| k@).to_set().contains(keys@[i as int]@));
            let mine = self.get(&keys[i]);
            match other.get(&keys[i]) {
                Some(e) => {
                    match mine {
                        Some(m) => {
                            if !(*e == *m) {
                                return false;
                            }
                        },
                        None => {},
                    }
                },
                None => {
                    return false;
                },
            }
            assert(other@.dom().contains(keys@[i as int]@) && other@[keys@[i as int]@] == self@[keys@[i as int]@]);
            i = i + 1;
        }
        proof {
            assert forall|k: Seq<char>| self@.dom().contains(k) implies other@.dom().contains(k)
                && other@[k] == self@[k] by {
                let ks = keys@.map_values(|k: PeerID| k@);
                assert(ks.to_set().contains(k));
                let j = choose|j: int| 0 <= j < ks.len() && ks[j] == k;
                assert(keys@[j]@ == k);
            }
            assert forall|k: Seq<char>| other@.dom().contains(k) implies self@.dom().contains(k) by {
                if !self@.dom().contains(k) {
                    self@.dom().lemma_subset_not_in_lt(other@.dom(), k);
                }
            }
            assert(self@ =~= other@);
        }
        true
    }
}

/// Messages exchanged between peers.
#[derive(Debug, PartialEq)]
pub enum PeerMessage {
    Hello(PeerID),
    AddressBookRequest(),
    AddressBookResponse(Mapping),
}

#[derive(Debug, Clone, PartialEq)]
pub enum Error {
    PeerNotFound(),
}

/// The events that the address book takes and gives.
#[derive(Debug, PartialEq)]
pub enum Event {
    AddPeer(Entry),
    PeerAdded(PeerID),
    PollTrigger(),
    PollPeers(PeerList),
    ToPeer(PeerID, PeerMessage),
    FromPeer(PeerID, PeerMessage),
    Terminate(),
    Terminated(),
    Error(Error),
    NoOp(),
    Modified(),
    /// A request for the whole address book.
    GetAddressBook(),
    /// The whole address book, in answer to `GetAddressBook`; the node sends
    /// it out.
    AddressBook(AddressBook),
}

/// The address book of a peer: its own ID, and the peers it knows of.
#[derive(Debug, PartialEq)]
pub struct AddressBook {
    id: PeerID,
    mapping: Mapping,
}

/// The map that a sequence of (ID, entry) pairs describes: later pairs win.
pub open spec fn map_of_pairs(pairs: Seq<(PeerID, Entry)>) -> Map<Seq<char>, (Seq<char>, IpAddr, u16)>
    decreases pairs.len(),
{
    if pairs.len() == 0 {
        Map::empty()
    } else {
        map_of_pairs(pairs.drop_last()).insert(pairs.last().0@, pairs.last().1@)
    }
}

/// Whether `list` names each key of `m` exactly once, and nothing else.
pub open spec fn lists_keys(list: Seq<PeerID>, m: Map<Seq<char>, (Seq<char>, IpAddr, u16)>) -> bool {
    &&& list.map_values(|k: PeerID| k@).no_duplicates()
    &&& list.map_values(|k: PeerID| k@).to_set() == m.dom()
}

/// Taking in the same address book response twice changes the table no
/// further the second time: merging is idempotent.
pub proof fn law_merge_idempotent(
    mine: Map<Seq<char>, (Seq<char>, IpAddr, u16)>,
    theirs: Map<Seq<char>, (Seq<char>, IpAddr, u16)>,
)
    ensures
        mine.union_prefer_right(theirs).union_prefer_right(theirs) == mine.union_prefer_right(theirs),
{
    assert(mine.union_prefer_right(theirs).union_prefer_right(theirs) =~= mine.union_prefer_right(
        theirs,
    ));
}

/// A peer that has been added is listed by every later poll, as long as no
/// merge has been taken in between that drops it (merges only add or
/// replace entries).
pub proof fn law_added_peer_is_polled(
    mapping: Map<Seq<char>, (Seq<char>, IpAddr, u16)>,
    entry: (Seq<char>, IpAddr, u16),
    id: Seq<char>,
    theirs: Map<Seq<char>, (Seq<char>, IpAddr, u16)>,
    polled: Seq<PeerID>,
)
    requires
        lists_keys(polled, mapping.insert(id, entry).union_prefer_right(theirs)),
    ensures
        polled.map_values(|k: PeerID| k@).contains(id),
{
    assert(mapping.insert(id, entry).union_prefer_right(theirs).dom().contains(id));
    assert(polled.map_values(|k: PeerID| k@).to_set().contains(id));
}

/// How the address book `old` (its owner's ID and its table) handles
/// `event`: the book `new` after it, and the output `r`.
pub open spec fn book_handles(
    old: (Seq<char>, Map<Seq<char>, (Seq<char>, IpAddr, u16)>),
    new: (Seq<char>, Map<Seq<char>, (Seq<char>, IpAddr, u16)>),
    event: Event,
    r: Event,
) -> bool {
    &&& new.0 == old.0
    &&& match event {
        Event::AddPeer(entry) => if old.1.dom().contains(entry.id@) {
            r is NoOp && new == old
        } else {
            r == Event::PeerAdded(entry.id) && new.1 == old.1.insert(entry.id@, entry@)
        },
        Event::PollTrigger() => new == old && (r matches Event::PollPeers(list) && lists_keys(list@, old.1)),
        Event::FromPeer(peer_id, PeerMessage::AddressBookRequest()) => new == old && (r matches Event::ToPeer(
            to,
            PeerMessage::AddressBookResponse(m),
        ) && to == peer_id && m@ == old.1),
        Event::FromPeer(_, PeerMessage::AddressBookResponse(m)) => if m@ == old.1 {
            r is NoOp && new == old
        } else {
            r is Modified && new.1 == old.1.union_prefer_right(m@)
        },
        Event::Terminate() => r is Terminated && new == old,
        Event::GetAddressBook() => new == old && (r matches Event::AddressBook(book) && book@ == old),
        _ => r is NoOp && new == old,
    }
}

/// Adding a peer whose ID the book already holds changes nothing: the first
/// entry added under an ID stays, and a later `AddPeer` with that ID gives
/// `NoOp`.
pub proof fn law_book_keeps_first_entry(
    before: (Seq<char>, Map<Seq<char>, (Seq<char>, IpAddr, u16)>),
    mid: (Seq<char>, Map<Seq<char>, (Seq<char>, IpAddr, u16)>),
    after: (Seq<char>, Map<Seq<char>, (Seq<char>, IpAddr, u16)>),
    first: Entry,
    second: Entry,
    r1: Event,
    r2: Event,
)
    requires
        book_handles(before, mid, Event::AddPeer(first), r1),
        book_handles(mid, after, Event::AddPeer(second), r2),
        second.id@ == first.id@,
    ensures
        r2 is NoOp,
        after == mid,
        after.1.dom().contains(first.id@),
        !before.1.dom().contains(first.id@) ==> after.1[first.id@] == first@ && r1 == Event::PeerAdded(
            first.id,
        ),
{
}

/// A response from a peer that differs from the book is taken in: every
/// entry it holds is then in the book as the response gives it, every other
/// entry of the book stays, and nothing else is added. A response equal to
/// the book changes nothing.
pub proof fn law_response_is_taken_in(
    before: (Seq<char>, Map<Seq<char>, (Seq<char>, IpAddr, u16)>),
    after: (Seq<char>, Map<Seq<char>, (Seq<char>, IpAddr, u16)>),
    from: PeerID,
    response: Mapping,
    r: Event,
    id: Seq<char>,
)
    requires
        book_handles(before, after, Event::FromPeer(from, PeerMessage::AddressBookResponse(response)), r),
    ensures
        after.0 == before.0,
        response@ == before.1 ==> r is NoOp && after == before,
        response@ != before.1 ==> r is Modified,
        after.1.dom().contains(id) <==> (before.1.dom().contains(id) || response@.dom().contains(id)),
        response@.dom().contains(id) ==> after.1[id] == response@[id],
        before.1.dom().contains(id) && !response@.dom().contains(id) ==> after.1[id] == before.1[id],
{
}

/// Requests for the book, from a peer or from the node, are answered with
/// the whole book as it stands, and leave it unchanged.
pub proof fn law_book_requests_answered_with_the_book(
    before: (Seq<char>, Map<Seq<char>, (Seq<char>, IpAddr, u16)>),
    after: (Seq<char>, Map<Seq<char>, (Seq<char>, IpAddr, u16)>),
    from: PeerID,
    r1: Event,
    after2: (Seq<char>, Map<Seq<char>, (Seq<char>, IpAddr, u16)>),
    r2: Event,
)
    requires
        book_handles(before, after, Event::FromPeer(from, PeerMessage::AddressBookRequest()), r1),
        book_handles(before, after2, Event::GetAddressBook(), r2),
    ensures
        after == before && after2 == before,
        r1 matches Event::ToPeer(to, PeerMessage::AddressBookResponse(m)) && to == from && m@ == before.1,
        r2 matches Event::AddressBook(book) && book@ == before,
{
}

impl View for AddressBook {
    type V = (Seq<char>, Map<Seq<char>, (Seq<char>, IpAddr, u16)>);

    closed spec fn view(&self) -> (Seq<char>, Map<Seq<char>, (Seq<char>, IpAddr, u16)>) {
        (self.id@, self.mapping@)
    }
}

impl AddressBook {
    /// An empty address book owned by `peer_id`.
    pub fn new(peer_id: PeerID) -> (r: AddressBook)
        ensures
            r@ == (peer_id@, Map::<Seq<char>, (Seq<char>, IpAddr, u16)>::empty()),
    {
        AddressBook { id: peer_id, mapping: Mapping::new() }
    }

    /// An address book with an empty owner ID, holding each entry under the
    /// ID it is paired with; of two pairs with the same ID, the later wins.
    pub fn from_entries(entries: Vec<(PeerID, Entry)>) -> (r: AddressBook)
        ensures
            r@ == (Seq::<char>::empty(), map_of_pairs(entries@)),
    {
        let mut mapping = Mapping::new();
        let mut i: usize = 0;
        while i < entries.len()
            invariant
                i <= entries@.len(),
                mapping@ == map_of_pairs(entries@.subrange(0, i as int)),
            decreases entries@.len() - i,
        {
            let (id, entry) = (&entries[i].0, &entries[i].1);
            mapping.insert(id.clone(), entry.duplicate());
            assert(entries@.subrange(0, i + 1).drop_last() =~= entries@.subrange(0, i as int));
            i = i + 1;
        }
        assert(entries@.subrange(0, i as int) =~= entries@);
        AddressBook { id: String::new(), mapping }
    }

    /// The table of peers that this address book holds.
    pub fn into_mapping(self) -> (r: Mapping)
        ensures
            r@ == self@.1,
    {
        self.mapping
    }

    /// A copy of this address book.
    pub fn duplicate(&self) -> (r: AddressBook)
        ensures
            r@ == self@,
    {
        AddressBook { id: self.id.clone(), mapping: self.mapping.duplicate() }
    }

    /// Handles one event, and gives the output event.
    pub fn handle(&mut self, event: Event) -> (r: Event)
        ensures
            book_handles(old(self)@, final(self)@, event, r),
    {
        match event {
            Event::AddPeer(entry) => {
                if self.mapping.contains_key(&entry.id) {
                    Event::NoOp()
                } else {
                    self.mapping.insert(entry.id.clone(), entry.duplicate());
                    Event::PeerAdded(entry.id)
                }
            },
            Event::PollTrigger() => {
                let requested_peers = self.mapping.keys();
                Event::PollPeers(requested_peers)
            },
            Event::FromPeer(peer_id, message) => {
                match message {
                    PeerMessage::AddressBookRequest() => {
                        let message = PeerMessage::AddressBookResponse(self.mapping.duplicate());
                        Event::ToPeer(peer_id, message)
                    },
                    PeerMessage::AddressBookResponse(mapping) => {
                        if mapping.same_as(&self.mapping) {
                            Event::NoOp()
                        } else {
                            self.mapping.extend(&mapping);
                            Event::Modified()
                        }
                    },
                    _ => Event::NoOp(),
                }
            },
            Event::Terminate() => Event::Terminated(),
            Event::GetAddressBook() => Event::AddressBook(self.duplicate()),
            _ => Event::NoOp(),
        }
    }
}

} // verus!
