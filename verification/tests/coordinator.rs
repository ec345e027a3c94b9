use one_direction_push::{BehaviourAction, ConnectionId, OneDirectionPush, PeerId, PushEvent};

fn peer(id: u64) -> PeerId {
    PeerId { id }
}

fn connection(id: u64) -> ConnectionId {
    ConnectionId { id }
}

#[test]
fn push_without_peer_enqueues_nothing() {
    let mut coordinator = OneDirectionPush::new(false);
    coordinator.push(vec![0x01]);
    assert!(coordinator.poll().is_none());
}

#[test]
fn five_pushes_without_peer_enqueue_nothing() {
    let mut coordinator = OneDirectionPush::new(false);
    for k in 0..5u8 {
        coordinator.push(vec![k]);
    }
    assert!(coordinator.poll().is_none());
}

#[test]
fn consumer_role_drops_pushes() {
    let mut coordinator = OneDirectionPush::new(true);
    coordinator.inject_connected(peer(7));
    coordinator.push(vec![0x01]);
    assert!(coordinator.poll().is_none());
}

#[test]
fn pushes_drain_in_order() {
    let mut coordinator = OneDirectionPush::new(false);
    coordinator.inject_connected(peer(7));
    coordinator.push(vec![0x01]);
    coordinator.push(vec![0x02]);
    coordinator.push(vec![0x03]);
    for expected in [vec![0x01u8], vec![0x02], vec![0x03]] {
        match coordinator.poll() {
            Some(BehaviourAction::NotifyHandler { peer_id, event }) => {
                assert_eq!(peer_id, peer(7));
                assert_eq!(event.into_message(), expected);
            }
            other => panic!("expected a deliver instruction, got {:?}", other),
        }
    }
    assert!(coordinator.poll().is_none());
}

#[test]
fn disconnect_issues_exactly_one_redial() {
    let mut coordinator = OneDirectionPush::new(false);
    coordinator.inject_connected(peer(7));
    coordinator.inject_disconnected(peer(7));
    match coordinator.poll() {
        Some(BehaviourAction::DialPeer { peer_id }) => assert_eq!(peer_id, peer(7)),
        other => panic!("expected a redial request, got {:?}", other),
    }
    // No second redial while that one is outstanding: nothing else ever
    // joins the queue until the host engine reports a new connection.
    assert!(coordinator.poll().is_none());
    coordinator.push(vec![0x01]);
    assert!(coordinator.poll().is_none());
}

#[test]
fn pushes_after_disconnect_are_discarded() {
    let mut coordinator = OneDirectionPush::new(false);
    coordinator.inject_connected(peer(7));
    coordinator.inject_disconnected(peer(7));
    coordinator.push(vec![0x0a]);
    coordinator.push(vec![0x0b]);
    // Only the redial request is queued; the two messages are gone and
    // are not redelivered once the peer reconnects.
    assert!(matches!(
        coordinator.poll(),
        Some(BehaviourAction::DialPeer { .. })
    ));
    assert!(coordinator.poll().is_none());
    coordinator.inject_connected(peer(7));
    assert!(coordinator.poll().is_none());
}

#[test]
fn inbound_event_jumps_the_queue() {
    let mut coordinator = OneDirectionPush::new(false);
    coordinator.inject_connected(peer(7));
    coordinator.push(vec![0x01]);
    coordinator.inject_event(peer(7), connection(1), PushEvent::Message(vec![0x09]));
    match coordinator.poll() {
        Some(BehaviourAction::GenerateEvent(event)) => {
            assert_eq!(event.into_message(), vec![0x09]);
        }
        other => panic!("expected the surfaced event first, got {:?}", other),
    }
    assert!(matches!(
        coordinator.poll(),
        Some(BehaviourAction::NotifyHandler { .. })
    ));
}

#[test]
fn surfaced_event_is_not_reemitted() {
    let mut coordinator = OneDirectionPush::new(true);
    coordinator.inject_event(peer(7), connection(1), PushEvent::Message(vec![0x01, 0x02]));
    match coordinator.poll() {
        Some(BehaviourAction::GenerateEvent(event)) => {
            assert_eq!(event.into_message(), vec![0x01, 0x02]);
        }
        other => panic!("expected the surfaced event, got {:?}", other),
    }
    assert!(coordinator.poll().is_none());
    assert!(coordinator.poll().is_none());
}
