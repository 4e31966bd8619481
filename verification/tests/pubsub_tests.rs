use px_mpc_module::{
    listen_address, listen_multiaddr, publish_topic, NodeCommand, OutgoingQueue, PubsubError,
    SwarmInput,
};

#[test]
fn notification_publishes_queue_in_order() {
    let mut queue = OutgoingQueue::new();
    queue.enqueue(vec![1, 2]);
    queue.enqueue(vec![3]);
    let step = queue.handle(SwarmInput::OutgoingNotified);
    assert_eq!(step.commands, vec![NodeCommand::Publish(vec![1, 2]), NodeCommand::Publish(vec![3])]);
    assert_eq!(step.yielded, None);
    let again = queue.handle(SwarmInput::OutgoingNotified);
    assert!(again.commands.is_empty());
}

#[test]
fn discovered_and_expired_peers() {
    let mut queue = OutgoingQueue::new();
    queue.enqueue(vec![9]);
    let step = queue.handle(SwarmInput::PeersDiscovered(vec![vec![1], vec![2, 2]]));
    assert_eq!(
        step.commands,
        vec![NodeCommand::AddExplicitPeer(vec![1]), NodeCommand::AddExplicitPeer(vec![2, 2])]
    );
    assert_eq!(step.yielded, Some(None));
    let step = queue.handle(SwarmInput::PeersExpired(vec![vec![1]]));
    assert_eq!(step.commands, vec![NodeCommand::RemoveExplicitPeer(vec![1])]);
    assert_eq!(step.yielded, Some(None));
    let step = queue.handle(SwarmInput::OutgoingNotified);
    assert_eq!(step.commands, vec![NodeCommand::Publish(vec![9])]);
}

#[test]
fn gossip_message_is_yielded() {
    let mut queue = OutgoingQueue::new();
    let step = queue.handle(SwarmInput::GossipMessage(vec![5, 6]));
    assert!(step.commands.is_empty());
    assert_eq!(step.yielded, Some(Some(vec![5, 6])));
    let step = queue.handle(SwarmInput::OtherEvent);
    assert!(step.commands.is_empty());
    assert_eq!(step.yielded, Some(None));
}

#[test]
fn topic_is_test() {
    assert_eq!(publish_topic(), "test");
}

#[test]
fn listen_address_text() {
    assert_eq!(listen_address(4001), "/ip4/0.0.0.0/tcp/4001");
    assert_eq!(listen_address(-1), "/ip4/0.0.0.0/tcp/-1");
}

#[test]
fn listen_multiaddr_in_range() {
    assert_eq!(listen_multiaddr(4001).unwrap().to_string(), "/ip4/0.0.0.0/tcp/4001");
    assert!(listen_multiaddr(0).is_ok());
    assert!(listen_multiaddr(65535).is_ok());
}

#[test]
fn listen_multiaddr_out_of_range() {
    assert_eq!(listen_multiaddr(-1).unwrap_err(), PubsubError::InvalidListenAddress);
    assert_eq!(listen_multiaddr(65536).unwrap_err(), PubsubError::InvalidListenAddress);
    assert_eq!(listen_multiaddr(i32::MIN).unwrap_err(), PubsubError::InvalidListenAddress);
}

#[test]
fn listen_multiaddr_is_the_port_address() {
    for port in [0, 1, 4001, 65535] {
        let expected: libp2p::Multiaddr = listen_address(port).parse().unwrap();
        assert_eq!(listen_multiaddr(port).unwrap(), expected);
    }
}
