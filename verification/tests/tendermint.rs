use reactor_experiments::ip::IpAddr;
use reactor_experiments::multithreaded::dispatcher::{
    forward_from_peer, handshake_peer, Dispatcher, DispatcherMsg, DispatcherStep, PeerMessage,
};
use reactor_experiments::multithreaded::tendermint::{
    FromDispatcherMsg, PeerId, Tendermint, TendermintStep,
};

type Msg = DispatcherMsg<(), ()>;

fn pid(s: &str) -> PeerId {
    PeerId(String::from(s))
}

#[test]
fn test_tendermint_peer_workflow() {
    let mut tendermint = Tendermint::new(pid("Seed node"));

    // Connect a node.
    let peer_1 = pid("Hello, world!");
    let step: TendermintStep<(), ()> =
        tendermint.on_dispatcher_msg(Some(FromDispatcherMsg::PeerConnected(peer_1.clone())));
    assert!(matches!(step, TendermintStep::Continue));

    // Send an addr-book request.
    let a_peer = pid("Request");
    let addr_book_req_msg = FromDispatcherMsg::FromPeer(PeerMessage::AddressBookRequest(a_peer));

    // Assert we're getting the other peer in the response.
    match tendermint.on_dispatcher_msg::<(), ()>(Some(addr_book_req_msg.clone())) {
        TendermintStep::Send(DispatcherMsg::ToPeer(requesting_peer, PeerMessage::AddressBookResponse(peers))) => {
            assert_eq!(requesting_peer, pid("Request"));
            assert!(peers.contains(&peer_1));
        }
        _ => panic!("expected an address book response"),
    }

    // Assert the node sends an addr-book request to the connected peer.
    let requests: Vec<Msg> = tendermint.on_tick();
    assert_eq!(requests.len(), 1);
    match &requests[0] {
        DispatcherMsg::ToPeer(requesting_peer, PeerMessage::AddressBookRequest(peer)) => {
            assert_eq!(*requesting_peer, pid("Hello, world!"));
            assert_eq!(*peer, pid("Seed node"));
        }
        _ => panic!("expected an address book request"),
    }

    // Disconnect the one peer that is connected.
    match tendermint.on_dispatcher_msg::<(), ()>(Some(FromDispatcherMsg::PeerDisconnected(peer_1.clone()))) {
        TendermintStep::Send(DispatcherMsg::PeerDisconnected(p)) => assert_eq!(p, peer_1),
        _ => panic!("expected the disconnection to be passed on"),
    }

    // Assert we're getting an empty response.
    match tendermint.on_dispatcher_msg::<(), ()>(Some(addr_book_req_msg)) {
        TendermintStep::Send(DispatcherMsg::ToPeer(requesting_peer, PeerMessage::AddressBookResponse(peers))) => {
            assert_eq!(requesting_peer, pid("Request"));
            assert!(peers.is_empty());
        }
        _ => panic!("expected an address book response"),
    }
}

#[test]
fn test_tendermint_shut_down_after_dispatcher_exit() {
    let mut tendermint = Tendermint::new(pid("Seed node"));
    // A disconnected dispatcher makes the node shut down.
    let step: TendermintStep<(), ()> = tendermint.on_dispatcher_msg(None);
    assert!(matches!(step, TendermintStep::Shutdown));
}

#[test]
fn tendermint_answers_hello_with_hello() {
    let mut tendermint = Tendermint::new(pid("Seed node"));
    match tendermint.on_dispatcher_msg::<(), ()>(Some(FromDispatcherMsg::FromPeer(PeerMessage::Hello(pid("x"))))) {
        TendermintStep::Send(DispatcherMsg::ToPeer(to, PeerMessage::Hello(from))) => {
            assert_eq!(to, pid("x"));
            assert_eq!(from, pid("Seed node"));
        }
        _ => panic!("expected a hello"),
    }
    let step: TendermintStep<(), ()> = tendermint.on_dispatcher_msg(Some(
        FromDispatcherMsg::FromPeer(PeerMessage::AddressBookResponse(vec![pid("y")])),
    ));
    assert!(matches!(step, TendermintStep::Continue));
    assert!(tendermint.peers().is_empty());
}

#[test]
fn tendermint_tick_reaches_every_peer_once() {
    let mut tendermint = Tendermint::new(pid("s"));
    for p in ["a", "b", "a", "c"] {
        let _: TendermintStep<(), ()> =
            tendermint.on_dispatcher_msg(Some(FromDispatcherMsg::PeerConnected(pid(p))));
    }
    let mut targets: Vec<String> = tendermint
        .on_tick::<(), ()>()
        .into_iter()
        .map(|m| match m {
            DispatcherMsg::ToPeer(to, PeerMessage::AddressBookRequest(from)) => {
                assert_eq!(from, pid("s"));
                to.0
            }
            _ => panic!("expected an address book request"),
        })
        .collect();
    targets.sort();
    assert_eq!(targets, vec!["a".to_string(), "b".to_string(), "c".to_string()]);
    let _ = IpAddr::v4(127, 0, 0, 1);
}

#[test]
fn dispatcher_routes_messages() {
    let mut d: Dispatcher<u8> = Dispatcher::new();
    assert!(!d.is_connected(&pid("p")));
    assert_eq!(d.add_connected_peer(pid("p"), 7), FromDispatcherMsg::PeerConnected(pid("p")));
    assert!(d.is_connected(&pid("p")));
    assert_eq!(d.channel_to(&pid("p")), Some(&7));
    match d.handle(Msg::ToPeer(pid("p"), PeerMessage::Hello(pid("me")))) {
        DispatcherStep::Deliver(to, PeerMessage::Hello(from)) => {
            assert_eq!(to, pid("p"));
            assert_eq!(from, pid("me"));
        }
        _ => panic!("expected a delivery"),
    }
    assert!(matches!(d.handle(Msg::HandshakeCompleted((), pid("q"))), DispatcherStep::ServePeer((), _)));
    assert!(matches!(d.handle(Msg::PeerHandshake((), pid("me"))), DispatcherStep::Handshake((), _)));
    assert!(matches!(d.handle(Msg::PeerDisconnected(pid("p"))), DispatcherStep::Continue));
    assert!(!d.is_connected(&pid("p")));
    assert!(matches!(d.handle(Msg::Exit(())), DispatcherStep::Exit(())));
}

#[test]
fn dispatcher_forwards_only_address_book_requests() {
    assert_eq!(
        forward_from_peer(PeerMessage::AddressBookRequest(pid("r"))),
        Some(FromDispatcherMsg::FromPeer(PeerMessage::AddressBookRequest(pid("r"))))
    );
    assert_eq!(forward_from_peer(PeerMessage::Hello(pid("r"))), None);
    assert_eq!(forward_from_peer(PeerMessage::AddressBookResponse(vec![])), None);
}

#[test]
fn handshake_completes_on_hello_only() {
    assert_eq!(
        handshake_peer(PeerMessage::Hello(PeerId("a".to_string()))),
        Some(PeerId("a".to_string()))
    );
    assert_eq!(handshake_peer(PeerMessage::AddressBookRequest(PeerId("a".to_string()))), None);
    assert_eq!(handshake_peer(PeerMessage::AddressBookResponse(vec![])), None);
}
