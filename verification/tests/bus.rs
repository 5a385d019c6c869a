use magneto_pad::bus::{inbound_envelope, outbound_frame, respond, PubSubChannel, WaitResult};
use magneto_pad::message::{CommandKind, Message, ResponseKind};

#[test]
fn test_ping_pong_single_reply() {
    // The full loop of the vendor channel: an inbound ping is published
    // `false`-tagged, the responder answers it with exactly one
    // `true`-tagged pong, and only the pong reaches the wire.
    let mut channel = PubSubChannel::new(10, 2, 2);
    let publisher = channel.publisher().unwrap();
    let mut responder_sub = channel.subscriber().unwrap();
    let mut writer_sub = channel.subscriber().unwrap();

    let ping = Message::request_heartbeat(42);
    let frame = ping.serialize();
    let envelope = inbound_envelope(frame.as_slice()).unwrap();
    assert_eq!(envelope, (false, ping));
    channel.publish(&publisher, envelope);

    // The responder observes the ping and publishes its answer.
    let mut replies = 0;
    while let Some(found) = channel.next_message(&mut responder_sub) {
        match found {
            WaitResult::Message(e) => {
                if let Some(reply) = respond(&e) {
                    channel.publish(&publisher, reply);
                    replies += 1;
                }
            }
            WaitResult::Lagged(_) => panic!("no overrun expected"),
        }
    }
    assert_eq!(replies, 1);

    // The writer forwards exactly the true-tagged envelope.
    let pong = Message::Response {
        res: ResponseKind::Heartbeat(42),
        to: 42,
    };
    let mut sent = Vec::new();
    while let Some(found) = channel.next_message(&mut writer_sub) {
        match found {
            WaitResult::Message(e) => {
                if let Some(wire_frame) = outbound_frame(&e) {
                    sent.push(wire_frame);
                }
            }
            WaitResult::Lagged(_) => panic!("no overrun expected"),
        }
    }
    assert_eq!(sent.len(), 1);
    assert_eq!(Message::deserialize(sent[0].as_slice()), Ok(pong));
}

#[test]
fn test_pong_never_reanswered() {
    let ping = Message::request_heartbeat(7);
    let reply = respond(&(false, ping)).unwrap();
    assert!(reply.0);
    // The responder's own output draws no further reply: no cycle.
    assert_eq!(respond(&reply), None);
    // An outbound-tagged ping is not answered either.
    assert_eq!(respond(&(true, ping)), None);
}

#[test]
fn test_responder_ignores_other_traffic() {
    let toggle = Message::Command {
        cmd: CommandKind::ToggleLed,
        id: 3,
    };
    assert_eq!(respond(&(false, toggle)), None);
    let pong = Message::Response {
        res: ResponseKind::Heartbeat(3),
        to: 3,
    };
    assert_eq!(respond(&(false, pong)), None);
}

#[test]
fn test_overrun_lag_count() {
    // Twelve envelopes on a ten-slot bus before the subscriber wakes up:
    // it must learn that exactly two were dropped, then resume with the
    // third, with no panic anywhere.
    let mut channel = PubSubChannel::new(10, 2, 2);
    let publisher = channel.publisher().unwrap();
    let mut sub = channel.subscriber().unwrap();

    for i in 0..12 {
        channel.publish(&publisher, (false, Message::request_heartbeat(i)));
    }

    match channel.next_message(&mut sub) {
        Some(WaitResult::Lagged(n)) => assert_eq!(n, 2),
        other => panic!("expected a lag report, got {:?}", other),
    }
    match channel.next_message(&mut sub) {
        Some(WaitResult::Message(e)) => assert_eq!(e, (false, Message::request_heartbeat(2))),
        other => panic!("expected the oldest retained envelope, got {:?}", other),
    }
}

#[test]
fn test_publish_order_is_seen_by_all() {
    let mut channel = PubSubChannel::new(10, 2, 2);
    let publisher = channel.publisher().unwrap();
    let mut sub_a = channel.subscriber().unwrap();
    let mut sub_b = channel.subscriber().unwrap();

    for i in 0..3 {
        channel.publish(&publisher, (true, Message::request_heartbeat(i)));
    }
    for sub in [&mut sub_a, &mut sub_b] {
        for i in 0..3 {
            match channel.next_message(sub) {
                Some(WaitResult::Message(e)) => {
                    assert_eq!(e, (true, Message::request_heartbeat(i)));
                }
                other => panic!("expected an envelope, got {:?}", other),
            }
        }
        assert!(channel.next_message(sub).is_none());
    }
}

#[test]
fn test_slot_capacity_is_checked() {
    let mut channel = PubSubChannel::new(10, 2, 2);
    assert!(channel.publisher().is_some());
    assert!(channel.publisher().is_some());
    assert!(channel.publisher().is_none());
    assert!(channel.subscriber().is_some());
    assert!(channel.subscriber().is_some());
    assert!(channel.subscriber().is_none());
}

#[test]
fn test_writer_forwards_only_outbound() {
    let msg = Message::request_heartbeat(1);
    assert!(outbound_frame(&(false, msg)).is_none());
    let frame = outbound_frame(&(true, msg)).unwrap();
    assert_eq!(frame, msg.serialize());
}

#[test]
fn test_malformed_frame_is_dropped() {
    assert!(inbound_envelope(&[]).is_none());
    assert!(inbound_envelope(&[9, 9, 9]).is_none());
    let good = Message::request_heartbeat(5).serialize();
    assert_eq!(
        inbound_envelope(good.as_slice()),
        Some((false, Message::request_heartbeat(5)))
    );
}
