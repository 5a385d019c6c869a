use magneto_pad::message::{CommandKind, DecodeError, Message, ResponseKind, MESSAGE_BUF_SIZE};

#[test]
fn test_simple() {
    let msg = Message::request_heartbeat(42);
    let ser = msg.serialize();

    let dec = Message::deserialize(ser.as_slice()).unwrap();
    assert_eq!(dec, msg)
}

#[test]
fn test_round_trip_command_heartbeat() {
    let msg = Message::Command {
        cmd: CommandKind::Heartbeat(0xDEAD_BEEF),
        id: 0x0102_0304,
    };
    let ser = msg.serialize();
    assert_eq!(Message::deserialize(ser.as_slice()), Ok(msg));
}

#[test]
fn test_round_trip_command_toggle_led() {
    let msg = Message::Command {
        cmd: CommandKind::ToggleLed,
        id: 7,
    };
    let ser = msg.serialize();
    assert_eq!(Message::deserialize(ser.as_slice()), Ok(msg));
}

#[test]
fn test_round_trip_response_heartbeat() {
    let msg = Message::Response {
        res: ResponseKind::Heartbeat(u32::MAX),
        to: 0,
    };
    let ser = msg.serialize();
    assert_eq!(Message::deserialize(ser.as_slice()), Ok(msg));
}

#[test]
fn test_exact_bytes_heartbeat() {
    let ser = Message::request_heartbeat(42).serialize();
    assert_eq!(ser.as_slice(), &[0, 0, 0, 0, 0, 42, 0, 0, 0, 42]);
}

#[test]
fn test_exact_bytes_toggle_led() {
    let msg = Message::Command {
        cmd: CommandKind::ToggleLed,
        id: 0x0102_0304,
    };
    assert_eq!(msg.serialize().as_slice(), &[0, 1, 1, 2, 3, 4]);
}

#[test]
fn test_exact_bytes_response() {
    let msg = Message::Response {
        res: ResponseKind::Heartbeat(0xDEAD_BEEF),
        to: 0x0102_0304,
    };
    assert_eq!(
        msg.serialize().as_slice(),
        &[1, 0, 0xDE, 0xAD, 0xBE, 0xEF, 1, 2, 3, 4]
    );
}

#[test]
fn test_size_bound() {
    let msgs = [
        Message::Command {
            cmd: CommandKind::Heartbeat(u32::MAX),
            id: u32::MAX,
        },
        Message::Command {
            cmd: CommandKind::ToggleLed,
            id: u32::MAX,
        },
        Message::Response {
            res: ResponseKind::Heartbeat(u32::MAX),
            to: u32::MAX,
        },
    ];
    for msg in msgs.iter() {
        assert!(msg.serialize().len() <= MESSAGE_BUF_SIZE);
    }
}

#[test]
fn test_decode_empty_frame() {
    assert_eq!(Message::deserialize(&[]), Err(DecodeError::Truncated));
}

#[test]
fn test_decode_truncated_frame() {
    // A heartbeat command frame cut off inside its second integer.
    assert_eq!(
        Message::deserialize(&[0, 0, 0, 0, 0, 42, 0, 0, 0]),
        Err(DecodeError::Truncated)
    );
    // A lone message tag with no kind tag.
    assert_eq!(Message::deserialize(&[0]), Err(DecodeError::Truncated));
}

#[test]
fn test_decode_unknown_message_tag() {
    assert_eq!(
        Message::deserialize(&[9, 0, 0, 0, 0, 42, 0, 0, 0, 42]),
        Err(DecodeError::UnknownVariant)
    );
}

#[test]
fn test_decode_unknown_kind_tag() {
    // An unknown command kind, e.g. from a future protocol revision.
    assert_eq!(
        Message::deserialize(&[0, 7, 0, 0, 0, 42]),
        Err(DecodeError::UnknownVariant)
    );
    // The response side knows only the heartbeat kind.
    assert_eq!(
        Message::deserialize(&[1, 1, 0, 0, 0, 42]),
        Err(DecodeError::UnknownVariant)
    );
}

#[test]
fn test_decode_trailing_bytes() {
    assert_eq!(
        Message::deserialize(&[0, 0, 0, 0, 0, 42, 0, 0, 0, 42, 0]),
        Err(DecodeError::TrailingBytes)
    );
    assert_eq!(
        Message::deserialize(&[0, 1, 1, 2, 3, 4, 5]),
        Err(DecodeError::TrailingBytes)
    );
}
