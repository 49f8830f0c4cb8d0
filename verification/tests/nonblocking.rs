use reactor_experiments::ip::IpAddr;
use reactor_experiments::nonblocking::acceptor::{hello_peer, Event as AcceptorEvent};
use reactor_experiments::nonblocking::address_book::{Entry, Event as AddressBookEvent, PeerID, PeerMessage};
use reactor_experiments::nonblocking::dispatcher::{Dispatcher, Error, Event as DispatcherEvent, Step};
use reactor_experiments::nonblocking::seed_node::{route, Event, NodeEvent, Route, SeedNode};

fn entry(id: &str) -> Entry {
    Entry::new(PeerID::from(id), IpAddr::v4(127, 0, 0, 1), 8902)
}

#[test]
fn dispatcher_test_basic_peer_interaction() {}

#[test]
fn dispatcher_registers_and_routes() {
    let mut d: Dispatcher<u8> = Dispatcher::new(PeerID::from("1"));
    assert_eq!(d.id(), "1");
    match d.handle(DispatcherEvent::PeerConnected(entry("2"), "stream")) {
        Step::SpawnPeer(e, s) => {
            assert_eq!(e, entry("2"));
            assert_eq!(s, "stream");
        }
        _ => panic!("expected a peer to serve"),
    }
    match d.handle::<()>(DispatcherEvent::ToPeer(PeerID::from("2"), PeerMessage::AddressBookRequest())) {
        Step::Emit(DispatcherEvent::Error(Error::PeerNotFound(p))) => assert_eq!(p, "2"),
        _ => panic!("expected an error"),
    }
    match d.add_peer::<()>(entry("2"), 5) {
        DispatcherEvent::AddPeer(p, e) => {
            assert_eq!(p, "2");
            assert_eq!(e, entry("2"));
        }
        _ => panic!("expected the peer to be announced"),
    }
    assert_eq!(d.channel_to(&PeerID::from("2")), Some(&5));
    match d.handle::<()>(DispatcherEvent::ToPeer(PeerID::from("2"), PeerMessage::Hello(PeerID::from("1")))) {
        Step::Deliver(p, PeerMessage::Hello(from)) => {
            assert_eq!(p, "2");
            assert_eq!(from, "1");
        }
        _ => panic!("expected a delivery"),
    }
    assert!(matches!(
        d.handle::<()>(DispatcherEvent::FromPeer(PeerID::from("2"), PeerMessage::AddressBookRequest())),
        Step::Skip
    ));
}

#[test]
fn routing_table() {
    let me = PeerID::from("1");
    match route::<u8>(&me, Event::Node(NodeEvent::Connect(PeerID::from("2"), entry("2")))) {
        Route::ToAcceptor(AcceptorEvent::Connect(e)) => assert_eq!(e, entry("2")),
        _ => panic!("expected the acceptor"),
    }
    assert!(matches!(
        route::<u8>(&me, Event::Node(NodeEvent::GetAddressBook())),
        Route::ToAddressBook(AddressBookEvent::GetAddressBook())
    ));
    match route(&me, Event::Acceptor(AcceptorEvent::PeerConnected(entry("2"), 9u8))) {
        Route::ToDispatcher(DispatcherEvent::PeerConnected(e, 9)) => assert_eq!(e, entry("2")),
        _ => panic!("expected the dispatcher"),
    }
    match route::<u8>(&me, Event::Dispatcher(DispatcherEvent::AddPeer(PeerID::from("2"), entry("2")))) {
        Route::ToAddressBook(AddressBookEvent::AddPeer(e)) => assert_eq!(e, entry("2")),
        _ => panic!("expected the address book"),
    }
    match route::<u8>(&me, Event::AddressBook(AddressBookEvent::PeerAdded(PeerID::from("2")))) {
        Route::Out(Event::Node(NodeEvent::Connected(from, to))) => {
            assert_eq!(from, "1");
            assert_eq!(to, "2");
        }
        _ => panic!("expected an outgoing event"),
    }
    match route::<u8>(&me, Event::AddressBook(AddressBookEvent::ToPeer(PeerID::from("3"), PeerMessage::AddressBookRequest()))) {
        Route::ToDispatcher(DispatcherEvent::ToPeer(p, PeerMessage::AddressBookRequest())) => assert_eq!(p, "3"),
        _ => panic!("expected the dispatcher"),
    }
    assert!(matches!(route::<u8>(&me, Event::AddressBook(AddressBookEvent::NoOp())), Route::Drop));
    assert!(matches!(route::<u8>(&me, Event::Node(NodeEvent::Connected(me.clone(), me.clone()))), Route::Drop));
    let node = SeedNode::new(entry("1"));
    assert_eq!(*node.get_entry(), entry("1"));
}

#[test]
fn acceptor_handshake_needs_a_hello() {
    assert_eq!(hello_peer(PeerMessage::Hello("7".to_string())), Some("7".to_string()));
    assert_eq!(hello_peer(PeerMessage::AddressBookRequest()), None);
}
