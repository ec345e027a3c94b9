//! End-to-end scenarios: both roles wired together through an
//! in-memory channel, driven the way the host engine would.

use one_direction_push::handler::{InboundPollResult, OutboundStep};
use one_direction_push::protocol::encode_frame;
use one_direction_push::{
    BehaviourAction, ConnectionId, OneDirectionPush, OneDirectionPushHandler, PeerId, PushEvent,
};

fn peer(id: u64) -> PeerId {
    PeerId { id }
}

/// Runs the producer machine until idle, appending framed bytes to the
/// wire as the always-ready channel accepts them.
fn drive_producer(handler: &mut OneDirectionPushHandler, wire: &mut Vec<u8>) {
    loop {
        match handler.outbound_step() {
            OutboundStep::RequestSubstream => handler.inject_fully_negotiated_outbound(),
            OutboundStep::AwaitSinkReady => {
                let event = handler.on_sink_ready();
                wire.extend_from_slice(&encode_frame(&event.into_message()).unwrap());
            }
            OutboundStep::AwaitFlush => handler.on_flush_ok(),
            OutboundStep::Idle => return,
        }
    }
}

/// Reads every complete frame off the wire and surfaces it through the
/// consumer coordinator, as the host engine would on inbound delivery.
fn drive_consumer(
    handler: &OneDirectionPushHandler,
    coordinator: &mut OneDirectionPush,
    wire: &[u8],
) -> usize {
    let buffered: Vec<u8> = wire.to_vec();
    let mut at: usize = 0;
    loop {
        match handler.poll_inbound(&buffered, at, false) {
            InboundPollResult::Event { msg, next } => {
                coordinator.inject_event(peer(1), ConnectionId { id: 1 }, PushEvent::Message(msg));
                at = next;
            }
            InboundPollResult::NeedMore => return at,
            InboundPollResult::Closed { error } => panic!("connection closed: {:?}", error),
        }
    }
}

#[test]
fn one_push_reaches_the_consumer_exactly_once() {
    // Producer side.
    let mut producer = OneDirectionPush::new(false);
    let mut producer_handler = OneDirectionPushHandler::new(false);
    producer.inject_connected(peer(1));
    producer.push(vec![0x01, 0x02, 0x03]);

    // The host engine moves the queued instruction into the handler.
    let mut wire: Vec<u8> = Vec::new();
    while let Some(action) = producer.poll() {
        match action {
            BehaviourAction::NotifyHandler { peer_id, event } => {
                assert_eq!(peer_id, peer(1));
                producer_handler.inject_event(event);
            }
            other => panic!("unexpected instruction: {:?}", other),
        }
    }
    drive_producer(&mut producer_handler, &mut wire);

    // Consumer side.
    let mut consumer = OneDirectionPush::new(true);
    let consumer_handler = OneDirectionPushHandler::new(true);
    let consumed = drive_consumer(&consumer_handler, &mut consumer, &wire);
    assert_eq!(consumed, wire.len());

    // Exactly one event surfaces, carrying exactly the pushed bytes.
    match consumer.poll() {
        Some(BehaviourAction::GenerateEvent(event)) => {
            assert_eq!(event.into_message(), vec![0x01, 0x02, 0x03]);
        }
        other => panic!("expected the pushed message, got {:?}", other),
    }
    assert!(consumer.poll().is_none());
}

#[test]
fn three_pushes_arrive_in_order() {
    let mut producer = OneDirectionPush::new(false);
    let mut producer_handler = OneDirectionPushHandler::new(false);
    producer.inject_connected(peer(1));
    producer.push(vec![0x01]);
    producer.push(vec![0x02]);
    producer.push(vec![0x03]);

    let mut wire: Vec<u8> = Vec::new();
    while let Some(action) = producer.poll() {
        match action {
            BehaviourAction::NotifyHandler { event, .. } => producer_handler.inject_event(event),
            other => panic!("unexpected instruction: {:?}", other),
        }
    }
    drive_producer(&mut producer_handler, &mut wire);

    let mut consumer = OneDirectionPush::new(true);
    let consumer_handler = OneDirectionPushHandler::new(true);
    drive_consumer(&consumer_handler, &mut consumer, &wire);

    for expected in [vec![0x01u8], vec![0x02], vec![0x03]] {
        match consumer.poll() {
            Some(BehaviourAction::GenerateEvent(event)) => {
                assert_eq!(event.into_message(), expected);
            }
            other => panic!("expected a message in order, got {:?}", other),
        }
    }
    assert!(consumer.poll().is_none());
}

#[test]
fn producer_never_connects_writes_no_bytes() {
    let mut producer = OneDirectionPush::new(false);
    for k in 0..5u8 {
        producer.push(vec![k]);
    }
    // No connection was ever established: no instruction is queued, no
    // handler exists, and no channel sees a single byte.
    assert!(producer.poll().is_none());
    let wire: Vec<u8> = Vec::new();
    assert!(wire.is_empty());
}

#[test]
fn pending_messages_die_with_the_connection() {
    let mut producer = OneDirectionPush::new(false);
    producer.inject_connected(peer(1));
    producer.push(vec![0x0a]);
    producer.push(vec![0x0b]);

    // The connection is lost before the host engine delivers anything
    // to its handler: the handler dies with the connection and the
    // coordinator's deliver instructions address a connection that no
    // longer exists, so the host engine drops them.
    producer.inject_disconnected(peer(1));
    let mut redials: usize = 0;
    while let Some(action) = producer.poll() {
        match action {
            BehaviourAction::DialPeer { peer_id } => {
                assert_eq!(peer_id, peer(1));
                redials += 1;
            }
            BehaviourAction::NotifyHandler { .. } => {
                // Addressed to the dead connection: dropped by the host.
            }
            other => panic!("unexpected instruction: {:?}", other),
        }
    }
    assert_eq!(redials, 1);

    // The redial succeeds: a fresh connection gets a fresh handler that
    // owes nothing; only messages pushed after reconnection flow.
    producer.inject_connected(peer(1));
    let mut handler = OneDirectionPushHandler::new(false);
    producer.push(vec![0x0c]);
    let mut wire: Vec<u8> = Vec::new();
    while let Some(action) = producer.poll() {
        match action {
            BehaviourAction::NotifyHandler { event, .. } => handler.inject_event(event),
            other => panic!("unexpected instruction: {:?}", other),
        }
    }
    drive_producer(&mut handler, &mut wire);
    assert_eq!(wire, encode_frame(&vec![0x0c]).unwrap());
}
