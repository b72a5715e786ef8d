use websocket_lite::{Decoded, Error, Mask, Message, MessageCodec, Opcode};

fn decode_all(codec: &mut MessageCodec, mut src: &[u8]) -> Vec<Message> {
    let mut out = Vec::new();
    loop {
        match codec.decode(src).expect("didn't expect MessageCodec::decode to return an error") {
            Decoded::Message { message, consumed } => {
                out.push(message);
                src = &src[consumed..];
            }
            Decoded::NeedMore { consumed, .. } => {
                assert_eq!(consumed, src.len());
                return out;
            }
        }
    }
}

fn expect_message(result: Result<Decoded, Error>) -> (Message, usize) {
    match result.expect("didn't expect MessageCodec::decode to return an error") {
        Decoded::Message { message, consumed } => (message, consumed),
        Decoded::NeedMore { .. } => panic!("expected buffer to contain the full frame"),
    }
}

fn error_text(result: Result<Decoded, Error>) -> String {
    match result {
        Err(e) => e.to_string(),
        Ok(_) => panic!("expected decoder to return an error"),
    }
}

fn sample_messages() -> Vec<Message> {
    vec![
        Message::text(String::new()),
        Message::text("Hello, world — ünïcödé".to_string()),
        Message::binary(vec![]),
        Message::binary((0..300).map(|i| i as u8).collect()),
        Message::binary(vec![7u8; 70000]),
        Message::ping(vec![1, 2, 3]),
        Message::pong(vec![9u8; 125]),
        Message::close(None),
        Message::close(Some((1000, "bye".to_string()))),
    ]
}

#[test]
fn frame_bigger_than_2_64_does_not_panic() {
    let mut data = vec![0u8, 127, 255, 255, 255, 255, 255, 255, 255, 255];
    data.resize(4096, 0);
    let result = MessageCodec::client().decode(&data);
    assert_eq!(error_text(result), "frame is too long: 18446744073709551615 bytes (ffffffffffffffff)");
}

#[test]
fn frame_bigger_than_2_40_does_not_panic() {
    let mut data = vec![0u8, 255, 255, 255, 255, 255, 0, 0, 0, 255, 0, 0, 0, 0];
    data.resize(4096, 0);
    let result = MessageCodec::client().decode(&data);
    assert_eq!(error_text(result), "frame is too long: 18446744069414584575 bytes (ffffffff000000ff)");
}

#[test]
fn round_trips_masked_and_unmasked() {
    for message in sample_messages() {
        for mask in [None, Some(Mask(0)), Some(Mask(0x9e37_79b9))] {
            let mut bytes = Vec::new();
            MessageCodec::client().encode_with_mask(&message, mask, &mut bytes);
            let (decoded, consumed) = expect_message(MessageCodec::server().decode(&bytes));
            assert_eq!(consumed, bytes.len());
            assert_eq!(decoded, message);
        }
    }
}

#[test]
fn round_trips_with_random_mask() {
    for message in sample_messages() {
        let mut bytes = Vec::new();
        MessageCodec::client().encode(&message, &mut bytes);
        assert_eq!(bytes[1] & 0x80, 0x80);
        let (decoded, _) = expect_message(MessageCodec::server().decode(&bytes));
        assert_eq!(decoded, message);
    }
}

#[test]
fn server_does_not_mask() {
    let mut bytes = Vec::new();
    MessageCodec::server().encode(&Message::text("hi".to_string()), &mut bytes);
    assert_eq!(bytes, vec![0x81, 0x02, b'h', b'i']);
}

#[test]
fn canonical_lengths_on_encode() {
    for (len, second_byte, header_len) in [(0usize, 0u8, 2usize), (125, 125, 2), (126, 126, 4), (65535, 126, 4), (65536, 127, 10)] {
        let message = Message::binary(vec![0x5a; len]);
        let mut bytes = Vec::new();
        MessageCodec::server().encode(&message, &mut bytes);
        assert_eq!(bytes[1], second_byte);
        assert_eq!(bytes.len(), header_len + len);
        let (decoded, _) = expect_message(MessageCodec::client().decode(&bytes));
        assert_eq!(decoded, message);
    }
}

#[test]
fn byte_at_a_time_matches_all_at_once() {
    for message in sample_messages() {
        let mut bytes = Vec::new();
        MessageCodec::client().encode_with_mask(&message, Some(Mask(0x0102_0304)), &mut bytes);
        let mut codec = MessageCodec::server();
        let mut decoded = Vec::new();
        for end in 1..=bytes.len() {
            match codec.decode(&bytes[..end]).unwrap() {
                Decoded::Message { message, consumed } => {
                    assert_eq!(end, bytes.len());
                    assert_eq!(consumed, bytes.len());
                    decoded.push(message);
                }
                Decoded::NeedMore { consumed, reserve } => {
                    assert_eq!(consumed, 0);
                    assert!(reserve > 0);
                }
            }
        }
        assert_eq!(decoded, vec![message]);
    }
}

#[test]
fn tiny_masked_frame() {
    let m = [0x37u8, 0xfa, 0x21, 0x3d];
    let text = b"Hello";
    let mut bytes = vec![0x81, 0x85, m[0], m[1], m[2], m[3]];
    bytes.extend(text.iter().enumerate().map(|(i, b)| b ^ m[i % 4]));
    let (message, consumed) = expect_message(MessageCodec::server().decode(&bytes));
    assert_eq!(consumed, 11);
    assert_eq!(message.opcode(), Opcode::Text);
    assert_eq!(message.as_text(), Some("Hello"));
}

#[test]
fn fragmented_text_message() {
    let bytes = [0x01, 0x03, b'H', b'e', b'l', 0x80, 0x02, b'l', b'o'];
    let (message, consumed) = expect_message(MessageCodec::client().decode(&bytes));
    assert_eq!(consumed, 9);
    assert_eq!(message, Message::text("Hello".to_string()));
}

#[test]
fn fragments_across_calls() {
    let mut codec = MessageCodec::client();
    match codec.decode(&[0x01, 0x03, b'H', b'e', b'l']).unwrap() {
        Decoded::NeedMore { consumed, reserve } => {
            assert_eq!(consumed, 5);
            assert_eq!(reserve, 512);
        }
        Decoded::Message { .. } => panic!("the first fragment is not a message"),
    }
    let (message, consumed) = expect_message(codec.decode(&[0x80, 0x02, b'l', b'o']));
    assert_eq!(consumed, 4);
    assert_eq!(message, Message::text("Hello".to_string()));
}

#[test]
fn control_interleaved_with_fragments() {
    let bytes = [0x01, 0x03, b'H', b'e', b'l', 0x89, 0x00, 0x80, 0x02, b'l', b'o'];
    let mut codec = MessageCodec::client();
    let messages = decode_all(&mut codec, &bytes);
    assert_eq!(messages, vec![Message::ping(vec![]), Message::text("Hello".to_string())]);
}

#[test]
fn two_messages_in_one_buffer() {
    let mut bytes = Vec::new();
    let mut encoder = MessageCodec::client();
    encoder.encode(&Message::text("A".to_string()), &mut bytes);
    encoder.encode(&Message::text("B".to_string()), &mut bytes);
    let messages = decode_all(&mut MessageCodec::server(), &bytes);
    assert_eq!(messages, vec![Message::text("A".to_string()), Message::text("B".to_string())]);
}

#[test]
fn incomplete_frame_asks_for_room() {
    let mut codec = MessageCodec::client();
    match codec.decode(&[0x82]).unwrap() {
        Decoded::NeedMore { consumed, reserve } => assert_eq!((consumed, reserve), (0, 512)),
        Decoded::Message { .. } => panic!("one byte is no frame"),
    }
    match codec.decode(&[0x82, 0x7e, 0x01, 0x00, 1, 2]).unwrap() {
        Decoded::NeedMore { consumed, reserve } => assert_eq!((consumed, reserve), (0, 256 + 4 + 512)),
        Decoded::Message { .. } => panic!("the payload is not in"),
    }
}

#[test]
fn control_frame_of_126_bytes_is_refused() {
    let mut bytes = vec![0x89, 0x7e, 0x00, 0x7e];
    bytes.resize(4 + 126, 0);
    assert_eq!(
        error_text(MessageCodec::client().decode(&bytes)),
        "control frames must be shorter than 126 bytes (126 bytes is too long)"
    );
}

#[test]
fn fragmented_control_frame_is_refused() {
    assert_eq!(error_text(MessageCodec::client().decode(&[0x09, 0x00])), "control frames must not be fragmented");
    assert_eq!(
        error_text(MessageCodec::client().decode(&[0x01, 0x01, b'a', 0x09, 0x00])),
        "continuation frame must have continuation opcode, not Ping"
    );
}

#[test]
fn protocol_errors() {
    assert_eq!(error_text(MessageCodec::client().decode(&[0xc1, 0x00])), "reserved bits are not supported: 0x40");
    assert_eq!(error_text(MessageCodec::client().decode(&[0x83, 0x00])), "opcode 3 is not supported");
    assert_eq!(error_text(MessageCodec::client().decode(&[0x80, 0x00])), "continuation must not be first frame");
    assert_eq!(
        error_text(MessageCodec::client().decode(&[0x01, 0x00, 0x82, 0x00])),
        "continuation frame must have continuation opcode, not Binary"
    );
    assert_eq!(error_text(MessageCodec::client().decode(&[0x81, 0x01, 0xff])), "text message is not valid UTF-8");
    assert_eq!(
        error_text(MessageCodec::client().decode(&[0x88, 0x01, 0x03])),
        "close message must hold a status code and a UTF-8 reason"
    );
    assert_eq!(
        error_text(MessageCodec::client().decode(&[0x82, 0x7e, 0x00, 0x05])),
        "payload length 5 should not be represented using 16 bits"
    );
}

#[test]
fn message_constructors() {
    assert!(Message::new(Opcode::Text, vec![0xc3, 0x28]).is_err());
    assert!(Message::new(Opcode::Binary, vec![0xc3, 0x28]).is_ok());
    assert!(Message::new(Opcode::Close, vec![0x03]).is_err());
    assert!(Message::new(Opcode::Close, vec![0x03, 0xe8, b'o', b'k']).is_ok());
    let close = Message::close(Some((1000, "done".to_string())));
    assert_eq!(close.opcode(), Opcode::Close);
    assert_eq!(close.data(), &[0x03, 0xe8, b'd', b'o', b'n', b'e']);
    assert_eq!(close.as_text(), None);
    assert_eq!(Message::binary(vec![1, 2]).into_data(), vec![1, 2]);
}
