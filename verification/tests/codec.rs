use means_to_an_end::codec::decode_response;
use means_to_an_end::codec::encode_message;
use means_to_an_end::codec::encode_response;
use means_to_an_end::codec::parse_message;
use means_to_an_end::codec::DecodeError;
use means_to_an_end::codec::ReceiveMessage;
use means_to_an_end::codec::FRAME_LEN;
use means_to_an_end::codec::RESPONSE_LEN;
use means_to_an_end::codec::TAG_INSERT;
use means_to_an_end::codec::TAG_QUERY;

#[test]
fn constants_match_the_wire_format() {
    assert_eq!(FRAME_LEN, 9);
    assert_eq!(RESPONSE_LEN, 4);
    assert_eq!(TAG_INSERT, b'I');
    assert_eq!(TAG_QUERY, b'Q');
}

#[test]
fn parses_an_insert_frame() {
    let frame = [0x49, 0x00, 0x00, 0x30, 0x39, 0x00, 0x00, 0x00, 0x65];
    assert_eq!(
        parse_message(&frame),
        Ok(ReceiveMessage::Insert { timestamp: 12345, price: 101 })
    );
}

#[test]
fn parses_a_query_frame() {
    let frame = [0x51, 0x00, 0x00, 0x30, 0x00, 0x00, 0x00, 0x40, 0x00];
    assert_eq!(
        parse_message(&frame),
        Ok(ReceiveMessage::Query { mintime: 12288, maxtime: 16384 })
    );
}

#[test]
fn parses_negative_fields() {
    let frame = [0x49, 0xff, 0xff, 0xff, 0xff, 0x80, 0x00, 0x00, 0x00];
    assert_eq!(
        parse_message(&frame),
        Ok(ReceiveMessage::Insert { timestamp: -1, price: i32::MIN })
    );
    let frame = [0x51, 0x7f, 0xff, 0xff, 0xff, 0xff, 0xff, 0xff, 0xfe];
    assert_eq!(
        parse_message(&frame),
        Ok(ReceiveMessage::Query { mintime: i32::MAX, maxtime: -2 })
    );
}

#[test]
fn parse_agrees_with_std_big_endian() {
    let samples: [[u8; 4]; 6] = [
        [0x00, 0x00, 0x00, 0x00],
        [0x01, 0x02, 0x03, 0x04],
        [0x7f, 0xff, 0xff, 0xff],
        [0x80, 0x00, 0x00, 0x00],
        [0xde, 0xad, 0xbe, 0xef],
        [0xff, 0xff, 0xff, 0xff],
    ];
    for a in samples {
        for b in samples {
            let frame = [b'I', a[0], a[1], a[2], a[3], b[0], b[1], b[2], b[3]];
            assert_eq!(
                parse_message(&frame),
                Ok(ReceiveMessage::Insert {
                    timestamp: i32::from_be_bytes(a),
                    price: i32::from_be_bytes(b),
                })
            );
        }
    }
}

#[test]
fn rejects_every_other_tag() {
    for tag in 0u8..=255 {
        let frame = [tag, 0, 0, 0, 1, 0, 0, 0, 2];
        let result = parse_message(&frame);
        if tag == b'I' {
            assert_eq!(result, Ok(ReceiveMessage::Insert { timestamp: 1, price: 2 }));
        } else if tag == b'Q' {
            assert_eq!(result, Ok(ReceiveMessage::Query { mintime: 1, maxtime: 2 }));
        } else {
            assert_eq!(result, Err(DecodeError::InvalidMessageType));
        }
    }
}

#[test]
fn rejects_tag_x() {
    let frame = [0x58, 0, 0, 0, 0, 0, 0, 0, 0];
    assert_eq!(parse_message(&frame), Err(DecodeError::InvalidMessageType));
}

#[test]
fn lower_case_tags_are_rejected() {
    assert_eq!(
        parse_message(&[b'i', 0, 0, 0, 0, 0, 0, 0, 0]),
        Err(DecodeError::InvalidMessageType)
    );
    assert_eq!(
        parse_message(&[b'q', 0, 0, 0, 0, 0, 0, 0, 0]),
        Err(DecodeError::InvalidMessageType)
    );
}

#[test]
fn decode_error_message() {
    assert_eq!(DecodeError::InvalidMessageType.message(), "Invalid message type");
}

#[test]
fn encodes_a_response_big_endian() {
    assert_eq!(encode_response(101), [0x00, 0x00, 0x00, 0x65]);
    assert_eq!(encode_response(0), [0x00, 0x00, 0x00, 0x00]);
    assert_eq!(encode_response(-1), [0xff, 0xff, 0xff, 0xff]);
    assert_eq!(encode_response(-2), [0xff, 0xff, 0xff, 0xfe]);
    assert_eq!(encode_response(i32::MAX), [0x7f, 0xff, 0xff, 0xff]);
    assert_eq!(encode_response(i32::MIN), [0x80, 0x00, 0x00, 0x00]);
    assert_eq!(encode_response(0x0102_0304), [0x01, 0x02, 0x03, 0x04]);
}

#[test]
fn encode_agrees_with_std_big_endian() {
    for value in [0, 1, -1, 255, 256, -256, 65535, 65536, 16777216, -16777217, i32::MAX, i32::MIN] {
        assert_eq!(encode_response(value), value.to_be_bytes());
    }
}

#[test]
fn response_round_trip() {
    let mut value: i32 = i32::MIN;
    loop {
        assert_eq!(decode_response(&encode_response(value)), value);
        match value.checked_add(0x0101_0101) {
            Some(next) => value = next,
            None => break,
        }
    }
    for value in [i32::MIN, -1, 0, 1, 101, i32::MAX] {
        assert_eq!(decode_response(&encode_response(value)), value);
        assert_eq!(i32::from_be_bytes(encode_response(value)), value);
    }
}

#[test]
fn bytes_round_trip() {
    for bytes in [[0u8, 0, 0, 0], [0x80, 0, 0, 0], [0xff, 0xff, 0xff, 0xff], [1, 2, 3, 4]] {
        assert_eq!(encode_response(decode_response(&bytes)), bytes);
    }
}

#[test]
fn encodes_messages_into_frames() {
    assert_eq!(
        encode_message(&ReceiveMessage::Insert { timestamp: 12345, price: 101 }),
        [0x49, 0x00, 0x00, 0x30, 0x39, 0x00, 0x00, 0x00, 0x65]
    );
    assert_eq!(
        encode_message(&ReceiveMessage::Query { mintime: 12288, maxtime: 16384 }),
        [0x51, 0x00, 0x00, 0x30, 0x00, 0x00, 0x00, 0x40, 0x00]
    );
}

#[test]
fn message_round_trip() {
    let messages = [
        ReceiveMessage::Insert { timestamp: 0, price: 0 },
        ReceiveMessage::Insert { timestamp: i32::MIN, price: i32::MAX },
        ReceiveMessage::Insert { timestamp: -5, price: -7 },
        ReceiveMessage::Query { mintime: i32::MAX, maxtime: i32::MIN },
        ReceiveMessage::Query { mintime: -1, maxtime: 1 },
    ];
    for message in messages {
        assert_eq!(parse_message(&encode_message(&message)), Ok(message));
    }
}
