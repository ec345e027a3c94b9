use one_direction_push::protocol::{
    decode_frame, encode_frame, encode_varint, FrameOutcome, PushProtocol, MAX_MSG_LEN,
};
use one_direction_push::PushError;

#[test]
fn protocol_name_is_fixed() {
    assert_eq!(PushProtocol.protocol_name(), "/push/1.0.0");
}

#[test]
fn varint_boundary_values() {
    assert_eq!(encode_varint(0), vec![0x00]);
    assert_eq!(encode_varint(1), vec![0x01]);
    assert_eq!(encode_varint(127), vec![0x7f]);
    assert_eq!(encode_varint(128), vec![0x80, 0x01]);
    assert_eq!(encode_varint(300), vec![0xac, 0x02]);
    assert_eq!(encode_varint(16384), vec![0x80, 0x80, 0x01]);
}

#[test]
fn varint_matches_reference_encoder() {
    for n in [0u64, 1, 127, 128, 300, 16383, 16384, 2097151, 2097152, 67108864] {
        let mut buf = unsigned_varint::encode::u64_buffer();
        let reference = unsigned_varint::encode::u64(n, &mut buf);
        assert_eq!(encode_varint(n).as_slice(), reference);
    }
}

#[test]
fn varint_matches_reference_decoder() {
    for n in [0u64, 1, 127, 128, 300, 16384, 2097152, 67108864] {
        let encoded = encode_varint(n);
        let (value, rest) = unsigned_varint::decode::u64(&encoded).unwrap();
        assert_eq!(value, n);
        assert!(rest.is_empty());
    }
}

#[test]
fn frame_exact_bytes() {
    let framed = encode_frame(&vec![0x01, 0x02, 0x03]).unwrap();
    assert_eq!(framed, vec![0x03, 0x01, 0x02, 0x03]);
}

#[test]
fn round_trip_small() {
    let msg = vec![0x01, 0x02, 0x03];
    let framed = encode_frame(&msg).unwrap();
    match decode_frame(&framed, 0) {
        FrameOutcome::Frame { msg: decoded, next } => {
            assert_eq!(decoded, msg);
            assert_eq!(next, framed.len());
        }
        other => panic!("expected a frame, got {:?}", other),
    }
}

#[test]
fn round_trip_empty_payload() {
    let framed = encode_frame(&Vec::new()).unwrap();
    assert_eq!(framed, vec![0x00]);
    match decode_frame(&framed, 0) {
        FrameOutcome::Frame { msg, next } => {
            assert!(msg.is_empty());
            assert_eq!(next, 1);
        }
        other => panic!("expected a frame, got {:?}", other),
    }
}

#[test]
fn round_trip_longer_payload() {
    let msg: Vec<u8> = (0..=255u8).cycle().take(70000).collect();
    let framed = encode_frame(&msg).unwrap();
    match decode_frame(&framed, 0) {
        FrameOutcome::Frame { msg: decoded, next } => {
            assert_eq!(decoded, msg);
            assert_eq!(next, framed.len());
        }
        other => panic!("expected a frame, got {:?}", other),
    }
}

#[test]
fn round_trip_largest_payload() {
    let msg = vec![0xabu8; MAX_MSG_LEN];
    let framed = encode_frame(&msg).unwrap();
    match decode_frame(&framed, 0) {
        FrameOutcome::Frame { msg: decoded, next } => {
            assert_eq!(decoded, msg);
            assert_eq!(next, framed.len());
        }
        other => panic!("expected a frame, got {:?}", other),
    }
}

#[test]
fn consecutive_frames_decode_in_order() {
    let mut wire = encode_frame(&vec![0x0a]).unwrap();
    wire.extend_from_slice(&encode_frame(&vec![0x0b, 0x0c]).unwrap());
    let next = match decode_frame(&wire, 0) {
        FrameOutcome::Frame { msg, next } => {
            assert_eq!(msg, vec![0x0a]);
            next
        }
        other => panic!("expected a frame, got {:?}", other),
    };
    // The first frame is consumed: decoding continues past it and never
    // yields it again.
    match decode_frame(&wire, next) {
        FrameOutcome::Frame { msg, next } => {
            assert_eq!(msg, vec![0x0b, 0x0c]);
            assert_eq!(next, wire.len());
        }
        other => panic!("expected a frame, got {:?}", other),
    }
}

#[test]
fn encode_refuses_oversized_payload() {
    let msg = vec![0u8; MAX_MSG_LEN + 1];
    assert_eq!(
        encode_frame(&msg),
        Err(PushError::PushEventTooLarge(MAX_MSG_LEN, MAX_MSG_LEN + 1))
    );
}

#[test]
fn decode_rejects_oversized_declared_length() {
    // A header declaring one byte more than the limit, with no payload
    // behind it: rejected on the declared length alone.
    let header = encode_varint((MAX_MSG_LEN + 1) as u64);
    assert_eq!(
        decode_frame(&header, 0),
        FrameOutcome::Failed {
            error: PushError::PushEventTooLarge(MAX_MSG_LEN, MAX_MSG_LEN + 1)
        }
    );
}

#[test]
fn decode_rejects_runaway_prefix() {
    let wire = vec![0xffu8; 5];
    assert_eq!(
        decode_frame(&wire, 0),
        FrameOutcome::Failed {
            error: PushError::PushEventTooLarge(MAX_MSG_LEN, usize::MAX)
        }
    );
}

#[test]
fn decode_waits_for_missing_prefix_bytes() {
    // Two continuation bytes and nothing after them.
    let wire = vec![0x80u8, 0x80];
    assert_eq!(decode_frame(&wire, 0), FrameOutcome::NeedMore);
}

#[test]
fn decode_waits_for_missing_payload_bytes() {
    let wire = vec![0x05u8, 0x01, 0x02];
    assert_eq!(decode_frame(&wire, 0), FrameOutcome::NeedMore);
    assert_eq!(decode_frame(&Vec::new(), 0), FrameOutcome::NeedMore);
}
