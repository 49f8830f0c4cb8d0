use crossbeam::channel::unbounded;
use reactor_experiments::blocking::events::{Event, EventID, PeerEvent, PubSubRequest};
use reactor_experiments::blocking::pubsub::{Subscription, SubscriptionError, Subscriptions};
use std::cell::RefCell;
use reactor_experiments::blocking::seed_node::{NodeAction, SeedNodeConfig, SeedNodeState};
use reactor_experiments::blocking::types::{PeerAddr, SubscriptionID};
use reactor_experiments::ip::IpAddr;

#[test]
fn event_ids() {
    let connected: Event<u8, ()> = Event::Peer(PeerEvent::Connected(3));
    assert_eq!(connected.id(), Some(EventID::PeerConnected));
    let disconnect: Event<u8, ()> = Event::Peer(PeerEvent::Disconnect("x".to_string()));
    assert_eq!(disconnect.id(), Some(EventID::PeerDisconnect));
    let terminate: Event<u8, ()> = Event::Terminate;
    assert_eq!(terminate.id(), Some(EventID::Terminate));
    let unsubscribe: Event<u8, ()> = Event::PubSub(PubSubRequest::Unsubscribe(vec![]));
    assert_eq!(unsubscribe.id(), None);
    let connect: PeerEvent<u8> = PeerEvent::Connect("127.0.0.1:1".to_string());
    assert_eq!(connect.id(), Some(EventID::PeerConnect));
}

#[test]
fn subscriptions_publish_to_subscribers_of_the_event_id() {
    let mut subs: Subscriptions<u32> = Subscriptions::new();
    let (tx1, rx1) = unbounded::<u32>();
    let (tx2, rx2) = unbounded::<u32>();
    subs.add(Subscription {
        id: SubscriptionID(1),
        event_ids: vec![EventID::PeerConnected, EventID::Terminate],
        notify: tx1,
    })
    .unwrap();
    subs.add(Subscription { id: SubscriptionID(2), event_ids: vec![EventID::Terminate], notify: tx2.clone() })
        .unwrap();
    assert!(matches!(
        subs.add(Subscription { id: SubscriptionID(2), event_ids: vec![], notify: tx2 }),
        Err(SubscriptionError::IDAlreadyExists)
    ));

    subs.publish(10, Some(EventID::Terminate)).unwrap();
    assert_eq!(rx1.try_recv(), Ok(10));
    assert_eq!(rx2.try_recv(), Ok(10));
    subs.publish(11, Some(EventID::PeerConnected)).unwrap();
    assert_eq!(rx1.try_recv(), Ok(11));
    assert!(rx2.try_recv().is_err());
    // nobody subscribed to this one
    subs.publish(12, Some(EventID::PeerDisconnect)).unwrap();
    assert!(rx1.try_recv().is_err());
    assert!(matches!(subs.publish(13, None), Err(SubscriptionError::NoEventIDForEvent)));

    subs.remove(SubscriptionID(1));
    subs.publish(14, Some(EventID::PeerConnected)).unwrap();
    assert!(rx1.try_recv().is_err());
    subs.publish(15, Some(EventID::Terminate)).unwrap();
    assert_eq!(rx2.try_recv(), Ok(15));
    subs.remove_all(vec![SubscriptionID(2), SubscriptionID(9)]);
    subs.publish(16, Some(EventID::Terminate)).unwrap();
    assert!(rx2.try_recv().is_err());
    // the ID can be used again once removed
    let (tx3, _rx3) = unbounded::<u32>();
    assert!(subs.add(Subscription { id: SubscriptionID(2), event_ids: vec![], notify: tx3 }).is_ok());
}

#[test]
fn publish_reports_a_closed_channel() {
    let mut subs: Subscriptions<u32> = Subscriptions::new();
    let (tx, rx) = unbounded::<u32>();
    drop(rx);
    subs.add(Subscription { id: SubscriptionID(1), event_ids: vec![EventID::Terminate], notify: tx })
        .unwrap();
    assert!(matches!(
        subs.publish(1, Some(EventID::Terminate)),
        Err(SubscriptionError::ChannelSendFailed(_))
    ));
}

fn config() -> SeedNodeConfig {
    SeedNodeConfig { id: "1".to_string(), bind_host: "127.0.0.1".to_string(), bind_port: 0 }
}

fn addr(id: &str, port: u16) -> PeerAddr {
    PeerAddr { id: id.to_string(), ip: IpAddr::v4(127, 0, 0, 1), port }
}

#[test]
fn seed_node_adds_and_disconnects_peers() {
    let mut node: SeedNodeState<&'static str, u32> = SeedNodeState::new(config());
    assert_eq!(node.config().id, "1");
    assert!(!node.knows_peer(&"2".to_string()));
    let ev: Event<(), ()> = node.add_peer(addr("2", 8001), "peer two");
    match ev {
        Event::Peer(PeerEvent::AddedToAddressBook(a)) => assert_eq!(a, addr("2", 8001)),
        _ => panic!("expected an address book event"),
    }
    assert!(node.knows_peer(&"2".to_string()));
    let _: Event<(), ()> = node.add_peer(addr("3", 8002), "peer three");
    assert_eq!(node.addr_book().addrs, vec![addr("2", 8001), addr("3", 8002)]);
    let mut ids = node.peer_ids();
    ids.sort();
    assert_eq!(ids, vec!["2".to_string(), "3".to_string()]);

    let action = node.handle_event::<()>(Event::Peer(PeerEvent::Disconnect("2".to_string())));
    assert!(matches!(action, NodeAction::Continue));
    assert!(!node.knows_peer(&"2".to_string()));
    // the address book keeps what it learned
    assert_eq!(node.addr_book().addrs.len(), 2);

    let action = node.handle_event::<()>(Event::Terminate);
    assert!(matches!(action, NodeAction::Stop));
    assert!(node.peer_ids().is_empty());
}

#[test]
fn seed_node_routes_events() {
    let mut node: SeedNodeState<u8, u32> = SeedNodeState::new(config());
    assert!(matches!(node.handle_event(Event::Peer(PeerEvent::Connected(5u8))), NodeAction::ReadHello(5)));
    match node.handle_event::<u8>(Event::Peer(PeerEvent::Connect("127.0.0.1:9".to_string()))) {
        NodeAction::ConnectTo(a) => assert_eq!(a, "127.0.0.1:9"),
        _ => panic!("expected a connection"),
    }
    assert!(matches!(
        node.handle_event::<u8>(Event::Peer(PeerEvent::AddedToAddressBook(addr("4", 1)))),
        NodeAction::Continue
    ));

    let (tx, rx) = unbounded::<u32>();
    let sub = Subscription { id: SubscriptionID(7), event_ids: vec![EventID::PeerConnected], notify: tx.clone() };
    assert!(matches!(node.handle_event::<u8>(Event::PubSub(PubSubRequest::Subscribe(sub))), NodeAction::Continue));
    let again = Subscription { id: SubscriptionID(7), event_ids: vec![], notify: tx };
    assert!(matches!(
        node.handle_event::<u8>(Event::PubSub(PubSubRequest::Subscribe(again))),
        NodeAction::SubscriptionFailed(SubscriptionError::IDAlreadyExists)
    ));
    node.publish_event(42, Some(EventID::PeerConnected)).unwrap();
    assert_eq!(rx.try_recv(), Ok(42));
    // events without an event ID are not published, and that is no error
    node.publish_event(43, None).unwrap();
    assert!(matches!(
        node.handle_event::<u8>(Event::PubSub(PubSubRequest::Unsubscribe(vec![SubscriptionID(7)]))),
        NodeAction::Continue
    ));
    node.publish_event(44, Some(EventID::PeerConnected)).unwrap();
    assert!(rx.try_recv().is_err());
}

#[test]
fn recipients_follow_subscriptions() {
    let mut subs: Subscriptions<u32> = Subscriptions::new();
    let (tx1, rx1) = unbounded::<u32>();
    let (tx2, rx2) = unbounded::<u32>();
    subs.add(Subscription { id: SubscriptionID(1), event_ids: vec![EventID::Terminate], notify: tx1 }).unwrap();
    subs.add(Subscription {
        id: SubscriptionID(2),
        event_ids: vec![EventID::Terminate, EventID::PeerConnect],
        notify: tx2,
    })
    .unwrap();
    assert_eq!(subs.recipients(EventID::Terminate).len(), 2);
    assert_eq!(subs.recipients(EventID::PeerConnect).len(), 1);
    assert_eq!(subs.recipients(EventID::PeerDisconnect).len(), 0);
    subs.recipients(EventID::PeerConnect)[0].send(5).unwrap();
    assert_eq!(rx2.try_recv(), Ok(5));
    assert!(rx1.try_recv().is_err());
    subs.remove(SubscriptionID(2));
    assert_eq!(subs.recipients(EventID::Terminate).len(), 1);
    assert_eq!(subs.recipients(EventID::PeerConnect).len(), 0);
}

// Each subscriber's channel is handed one clone of the event, in turn, and
// the first refusal stops the publication.
#[test]
fn publish_with_hands_each_recipient_a_clone_until_a_refusal() {
    let mut subs: Subscriptions<u32> = Subscriptions::new();
    let (tx1, _rx1) = unbounded::<u32>();
    let (tx2, _rx2) = unbounded::<u32>();
    let (tx3, _rx3) = unbounded::<u32>();
    for (i, tx) in [tx1, tx2, tx3].into_iter().enumerate() {
        subs.add(Subscription { id: SubscriptionID(i as u64), event_ids: vec![EventID::Terminate], notify: tx })
            .unwrap();
    }
    let calls = RefCell::new(0u32);
    let r = subs.publish_with(7, Some(EventID::Terminate), |_to: &crossbeam::channel::Sender<u32>, m: u32| {
        assert_eq!(m, 7);
        *calls.borrow_mut() += 1;
        Ok(())
    });
    assert!(r.is_ok());
    assert_eq!(*calls.borrow(), 3);

    let calls = RefCell::new(0u32);
    let r = subs.publish_with(7, Some(EventID::Terminate), |_to: &crossbeam::channel::Sender<u32>, m: u32| {
        *calls.borrow_mut() += 1;
        if *calls.borrow() == 2 {
            Err(crossbeam::channel::TrySendError::Full(m))
        } else {
            Ok(())
        }
    });
    assert!(matches!(r, Err(SubscriptionError::ChannelSendFailed(crossbeam::channel::TrySendError::Full(7)))));
    assert_eq!(*calls.borrow(), 2);

    let calls = RefCell::new(0u32);
    let r = subs.publish_with(7, None, |_to: &crossbeam::channel::Sender<u32>, _m: u32| {
        *calls.borrow_mut() += 1;
        Ok(())
    });
    assert!(matches!(r, Err(SubscriptionError::NoEventIDForEvent)));
    assert_eq!(*calls.borrow(), 0);
}

#[test]
fn remove_all_in_any_order() {
    let build = || {
        let mut subs: Subscriptions<u32> = Subscriptions::new();
        for i in 0..4u64 {
            let (tx, _rx) = unbounded::<u32>();
            subs.add(Subscription { id: SubscriptionID(i), event_ids: vec![EventID::Terminate], notify: tx }).unwrap();
        }
        subs
    };
    let mut a = build();
    a.remove_all(vec![SubscriptionID(1), SubscriptionID(3)]);
    let mut b = build();
    b.remove_all(vec![SubscriptionID(3), SubscriptionID(1), SubscriptionID(3)]);
    assert_eq!(a.recipients(EventID::Terminate).len(), 2);
    assert_eq!(b.recipients(EventID::Terminate).len(), 2);
}
