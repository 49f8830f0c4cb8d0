use reactor_experiments::ip::IpAddr;
use reactor_experiments::nonblocking::address_book::{
    AddressBook, Entry, Event, Mapping, PeerID, PeerMessage,
};
use reactor_experiments::nonblocking::types;

fn mapping_of(entries: Vec<(PeerID, Entry)>) -> Mapping {
    let mut m = Mapping::new();
    for (id, e) in entries {
        m.insert(id, e);
    }
    m
}

#[test]
fn address_book_test_fsm() {
    let mut address_book = AddressBook::new(PeerID::from(""));

    let id = PeerID::from("2");
    let ip_addr = IpAddr::v4(127, 0, 0, 1);
    let port: u16 = 0;
    let _peer_1_entry = Entry::new(PeerID::from("1"), ip_addr.clone(), port);
    let peer_2_entry = Entry::new(PeerID::from("2"), ip_addr.clone(), port);
    let peer_3_entry = Entry::new(PeerID::from("3"), ip_addr.clone(), port);

    let peer_2_mapping = mapping_of(vec![(PeerID::from("3"), peer_3_entry.clone())]);

    let sequence = vec![
        // System adds peer
        (Event::AddPeer(peer_2_entry.clone()), Event::PeerAdded(PeerID::from("2"))),
        // Adding again should do nothing
        (Event::AddPeer(peer_2_entry.clone()), Event::NoOp()),
        // System triggers a polling operation
        (Event::PollTrigger(), Event::PollPeers(vec![PeerID::from("2")])),
        // Peer:2 responds with an address Book containing peer 3
        (
            Event::FromPeer(PeerID::from("2"), PeerMessage::AddressBookResponse(peer_2_mapping)),
            Event::Modified(),
        ),
        // peer 2 then asks peer:1 for address book which contains peer 3
        (
            Event::FromPeer(PeerID::from("2"), PeerMessage::AddressBookRequest()),
            Event::ToPeer(
                id.clone(),
                PeerMessage::AddressBookResponse(mapping_of(vec![
                    (PeerID::from("2"), peer_2_entry.clone()),
                    (PeerID::from("3"), peer_3_entry.clone()),
                ])),
            ),
        ),
    ];

    for (input, expected_output) in sequence.into_iter() {
        let output = address_book.handle(input);
        assert_eq!(output, expected_output, "expected equality");
    }
}

#[test]
fn types_test_fsm() {
    let mut address_book = types::AddressBook::new();
    let id = PeerID::from("2");
    let ip_addr = IpAddr::v4(127, 0, 0, 1);
    let port: u16 = 0;
    let entry = Entry::new(id.clone(), ip_addr.clone(), port);
    let sequence = vec![
        (types::Event::AddPeer(entry), types::Event::PeerAdded(id.clone())),
        (types::Event::PollTrigger(), types::Event::PollPeers(vec![PeerID::from("2")])),
    ];

    for (input, expected_output) in sequence.into_iter() {
        let output = address_book.handle(input);
        assert_eq!(output, expected_output, "expected equality");
    }
}

#[test]
fn same_response_twice_changes_nothing_more() {
    let mut book = AddressBook::new(PeerID::from("me"));
    let e3 = Entry::new(PeerID::from("3"), IpAddr::v4(10, 0, 0, 3), 7);
    let resp = || PeerMessage::AddressBookResponse(mapping_of(vec![(PeerID::from("3"), e3.clone())]));
    assert_eq!(book.handle(Event::FromPeer(PeerID::from("2"), resp())), Event::Modified());
    // the table now equals the response
    assert_eq!(book.handle(Event::FromPeer(PeerID::from("2"), resp())), Event::NoOp());
}

#[test]
fn response_replaces_entries_and_keeps_others() {
    let mut book = AddressBook::new(PeerID::from("me"));
    let old3 = Entry::new(PeerID::from("3"), IpAddr::v4(10, 0, 0, 3), 7);
    let new3 = Entry::new(PeerID::from("3"), IpAddr::v4(10, 0, 0, 4), 8);
    let e4 = Entry::new(PeerID::from("4"), IpAddr::V6(1), 9);
    assert_eq!(book.handle(Event::AddPeer(old3.clone())), Event::PeerAdded(PeerID::from("3")));
    assert_eq!(book.handle(Event::AddPeer(e4.clone())), Event::PeerAdded(PeerID::from("4")));
    let resp = PeerMessage::AddressBookResponse(mapping_of(vec![(PeerID::from("3"), new3.clone())]));
    assert_eq!(book.handle(Event::FromPeer(PeerID::from("4"), resp)), Event::Modified());
    let expected = mapping_of(vec![(PeerID::from("4"), e4), (PeerID::from("3"), new3)]);
    assert_eq!(
        book.handle(Event::FromPeer(PeerID::from("9"), PeerMessage::AddressBookRequest())),
        Event::ToPeer(PeerID::from("9"), PeerMessage::AddressBookResponse(expected))
    );
}

#[test]
fn address_book_other_events() {
    let mut book = AddressBook::new(PeerID::from("me"));
    assert_eq!(book.handle(Event::Terminate()), Event::Terminated());
    assert_eq!(book.handle(Event::GetAddressBook()), Event::AddressBook(AddressBook::new(PeerID::from("me"))));
    assert_eq!(
        book.handle(Event::FromPeer(PeerID::from("1"), PeerMessage::Hello(PeerID::from("1")))),
        Event::NoOp()
    );
    assert_eq!(book.handle(Event::NoOp()), Event::NoOp());
    assert_eq!(book.handle(Event::PollTrigger()), Event::PollPeers(vec![]));
}

#[test]
fn mapping_equality_ignores_order() {
    let a = Entry::new(PeerID::from("a"), IpAddr::v4(1, 2, 3, 4), 1);
    let b = Entry::new(PeerID::from("b"), IpAddr::v4(1, 2, 3, 5), 2);
    let m1 = mapping_of(vec![(PeerID::from("a"), a.clone()), (PeerID::from("b"), b.clone())]);
    let m2 = mapping_of(vec![(PeerID::from("b"), b.clone()), (PeerID::from("a"), a.clone())]);
    assert_eq!(m1, m2);
    let m3 = mapping_of(vec![(PeerID::from("a"), a.clone())]);
    assert_ne!(m1, m3);
    let m4 = mapping_of(vec![(PeerID::from("a"), b.clone()), (PeerID::from("b"), b.clone())]);
    assert_ne!(m1, m4);
}

#[test]
fn from_entries_keeps_the_later_pair() {
    let a = Entry::new(PeerID::from("a"), IpAddr::v4(1, 2, 3, 4), 1);
    let a2 = Entry::new(PeerID::from("a"), IpAddr::v4(1, 2, 3, 4), 2);
    let book = AddressBook::from_entries(vec![
        (PeerID::from("a"), a.clone()),
        (PeerID::from("a"), a2.clone()),
    ]);
    let mut expected = AddressBook::new(PeerID::from(""));
    let _ = expected.handle(Event::AddPeer(a2));
    assert_eq!(book, expected);
}

#[test]
fn default_entry() {
    let e = Entry::default();
    assert_eq!(e, Entry::new(String::new(), IpAddr::V4(0x7f000001), 0));
}

#[test]
fn older_book_answers_with_itself() {
    let mut book = types::AddressBook::new();
    let e = Entry::new(PeerID::from("5"), IpAddr::v4(127, 0, 0, 1), 5);
    assert_eq!(book.handle(types::Event::AddPeer(e.clone())), types::Event::PeerAdded(PeerID::from("5")));
    assert_eq!(book.handle(types::Event::AddPeer(e.clone())), types::Event::NoOp());
    let expected = types::AddressBook::from_entries(vec![(PeerID::from("5"), e)]);
    assert_eq!(
        book.handle(types::Event::PeerEvent(PeerID::from("7"), types::PeerMessage::AddressBookRequest())),
        types::Event::PeerEvent(PeerID::from("7"), types::PeerMessage::AddressBookResponse(expected))
    );
    let empty = types::AddressBook::new();
    assert_eq!(
        book.handle(types::Event::PeerEvent(PeerID::from("7"), types::PeerMessage::AddressBookResponse(empty))),
        types::Event::NoOp()
    );
    assert_eq!(book.handle(types::Event::Terminate()), types::Event::Terminated());
    assert_eq!(book.handle(types::Event::Error()), types::Event::NoOp());
}

// Asked for its address book, the component answers with the whole book,
// which the node then sends out.
#[test]
fn address_book_answers_get_address_book() {
    let mut book = AddressBook::new(PeerID::from("1"));
    let entry = Entry::new(PeerID::from("2"), IpAddr::v4(127, 0, 0, 1), 8903);
    assert_eq!(book.handle(Event::AddPeer(entry.clone())), Event::PeerAdded(PeerID::from("2")));
    match book.handle(Event::GetAddressBook()) {
        Event::AddressBook(answer) => {
            assert_eq!(answer, book.duplicate());
            assert!(answer.into_mapping().contains_key(&PeerID::from("2")));
        }
        other => panic!("expected the address book, got {:?}", other),
    }
}

#[test]
fn older_book_loop_steps() {
    let mut book = types::AddressBook::new();
    assert_eq!(book.step(Some(types::Event::PollTrigger())), (types::Event::PollPeers(vec![]), true));
    assert_eq!(book.step(Some(types::Event::NoOp())), (types::Event::NoOp(), true));
    assert_eq!(book.step(Some(types::Event::Terminate())), (types::Event::Terminated(), false));
    assert_eq!(book.step(None), (types::Event::Error(), false));
}
