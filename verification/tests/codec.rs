use chat_core::protocol::codec::ProtocolError;
use chat_core::protocol::kind::MessageType;
use chat_core::protocol::message::{Message, MessageBuilder};
use chat_core::protocol::reader::FrameReader;

fn catalogue() -> Vec<Message> {
    vec![
        Message::ack(),
        Message::nack(),
        Message::disconnect(),
        Message::empty(),
        Message::break_sentinel(),
        Message::server_debug_log(),
        Message::auth_success(),
        Message::heartbeat_at("1996-12-19T16:39:57-08:00"),
        Message::heartbeat(),
        Message::auth_fail("Invalid username or password"),
        Message::message_error("User bob is not connected"),
        Message::server_shutdown(5),
        Message::server_shutdown_warning(u64::MAX),
        Message::auth("alice", "pw"),
        Message::auth_create("alice", "pw"),
        Message::direct_message_send("bob", "hi"),
        Message::direct_message_receive("alice", "hi"),
        Message::auth("", ""),
        MessageBuilder::new(MessageType::Empty)
            .with_fields(vec![vec![0u8; 300], vec![], vec![0xff, 0x00, 0x80]])
            .build(),
    ]
}

#[test]
fn ack_frame_is_twelve_bytes() {
    let bytes = Message::ack().encode();
    assert_eq!(bytes, vec![0x59, 0x18, 0x01, 0x01, 0, 0, 0, 0, 0, 0, 0, 0]);
}

#[test]
fn auth_frame_layout() {
    let bytes = Message::auth("al", "pw").encode();
    assert_eq!(
        bytes,
        vec![
            0x59, 0x18, 0x01, 0x10, 0, 0, 0, 2, 0, 0, 0, 2, b'a', b'l', 0, 0, 0, 2, b'p', b'w',
            0x02, 0x4d, 0xe0, 0x57,
        ]
    );
}

#[test]
fn shutdown_carries_eight_big_endian_bytes() {
    let message = Message::server_shutdown(1);
    assert_eq!(message.message_type(), MessageType::ServerShutdown);
    assert_eq!(message.payload().get_data(), vec![vec![0, 0, 0, 0, 0, 0, 0, 1]]);
    let warning = Message::server_shutdown_warning(0x0102_0304_0506_0708);
    assert_eq!(warning.message_type(), MessageType::ServerShutdownWarning);
    assert_eq!(warning.payload().get_data(), vec![vec![1, 2, 3, 4, 5, 6, 7, 8]]);
}

#[test]
fn checksum_is_crc32_of_the_field_bytes_only() {
    let message = MessageBuilder::new(MessageType::Ack)
        .with_field(b"1234".to_vec())
        .with_field(b"56789".to_vec())
        .build();
    assert_eq!(message.checksum(), 0xcbf4_3926);
    let other_kind = MessageBuilder::new(MessageType::Nack).with_field(b"123456789".to_vec()).build();
    assert_eq!(other_kind.checksum(), 0xcbf4_3926);
    assert_eq!(message.checksum_of_fields(), 0xcbf4_3926);
    assert_eq!(Message::ack().checksum(), 0);
}

#[test]
fn seal_takes_the_checksum_as_given() {
    let message = MessageBuilder::new(MessageType::Ack).with_field(b"x".to_vec()).seal(7);
    assert_eq!(message.checksum(), 7);
    assert_eq!(message.payload().get_data(), vec![b"x".to_vec()]);
}

#[test]
fn builder_keeps_fields_in_order() {
    let message = MessageBuilder::new(MessageType::Auth)
        .with_field(b"a".to_vec())
        .with_fields(vec![b"b".to_vec(), b"c".to_vec()])
        .with_field(b"d".to_vec())
        .build();
    assert!(message.is(MessageType::Auth));
    assert!(!message.is(MessageType::AuthCreate));
    assert_eq!(message.payload().len(), 4);
    assert_eq!(message.payload().field(2), b"c");
    assert_eq!(
        message.payload().get_data(),
        vec![b"a".to_vec(), b"b".to_vec(), b"c".to_vec(), b"d".to_vec()]
    );
    assert_eq!(message.version(), 1);
}

#[test]
fn decode_reads_back_what_encode_wrote() {
    for message in catalogue() {
        let bytes = message.encode();
        assert!(Message::has_header_start(&bytes[..2]));
        let (decoded, used) = Message::decode(&bytes[2..]).unwrap();
        assert_eq!(used, bytes.len() - 2);
        assert_eq!(decoded.message_type(), message.message_type());
        assert_eq!(decoded.payload().get_data(), message.payload().get_data());
        assert_eq!(decoded.checksum(), message.checksum());
        assert_eq!(decoded.encode(), bytes);
    }
}

#[test]
fn decode_leaves_what_follows_the_frame() {
    let mut bytes = Message::auth("alice", "pw").encode();
    let length = bytes.len();
    bytes.extend_from_slice(&Message::ack().encode());
    let (decoded, used) = Message::decode(&bytes[2..]).unwrap();
    assert_eq!(used, length - 2);
    assert_eq!(decoded.message_type(), MessageType::Auth);
}

#[test]
fn clone_keeps_the_message() {
    let message = Message::direct_message_send("bob", "hi");
    let copy = message.clone();
    assert_eq!(copy.encode(), message.encode());
    let payload = message.payload().clone();
    assert_eq!(payload.get_data(), vec![b"bob".to_vec(), b"hi".to_vec()]);
}

#[test]
fn any_flipped_bit_in_a_field_is_caught() {
    let bytes = Message::direct_message_send("bob", "hi there").encode();
    // eight bytes of header, then four bytes of length before each field
    let first = 12..15;
    let second = 19..27;
    assert_eq!(&bytes[first.clone()], b"bob");
    assert_eq!(&bytes[second.clone()], b"hi there");
    for position in first.chain(second) {
        for bit in 0..8 {
            let mut damaged = bytes.clone();
            damaged[position] ^= 1 << bit;
            assert_eq!(
                Message::decode(&damaged[2..]).err(),
                Some(ProtocolError::ChecksumMismatch)
            );
        }
    }
}

#[test]
fn a_damaged_trailer_is_caught() {
    let mut bytes = Message::auth("alice", "pw").encode();
    let last = bytes.len() - 1;
    bytes[last] ^= 0x01;
    assert_eq!(Message::decode(&bytes[2..]).err(), Some(ProtocolError::ChecksumMismatch));
    let (parsed, _) = Message::parse(&bytes[2..]).unwrap();
    assert_eq!(parsed.checksum(), Message::auth("alice", "pw").checksum() ^ 0x01);
}

#[test]
fn verify_compares_the_two_checksums() {
    let message = MessageBuilder::new(MessageType::Ack).with_field(b"x".to_vec()).seal(7);
    assert!(message.clone().verify(7).is_ok());
    assert_eq!(message.verify(8).err(), Some(ProtocolError::ChecksumMismatch));
}

#[test]
fn decode_refuses_other_version() {
    let mut bytes = Message::ack().encode();
    bytes[2] = 0x02;
    assert_eq!(Message::decode(&bytes[2..]).err(), Some(ProtocolError::VersionMismatch));
    assert_eq!(Message::decode(&[0x00]).err(), Some(ProtocolError::VersionMismatch));
    assert_eq!(Message::missing(&[0x02]), 0);
}

#[test]
fn unknown_kind_reads_as_empty() {
    let mut bytes = Message::ack().encode();
    bytes[3] = 0x77;
    let (decoded, _) = Message::decode(&bytes[2..]).unwrap();
    assert_eq!(decoded.message_type(), MessageType::Empty);
}

#[test]
fn every_proper_prefix_is_truncated() {
    let bytes = Message::direct_message_send("bob", "hi").encode();
    let body = &bytes[2..];
    for end in 0..body.len() {
        assert_eq!(Message::decode(&body[..end]).err(), Some(ProtocolError::Truncated));
        assert!(Message::missing(&body[..end]) > 0);
    }
    assert_eq!(Message::missing(body), 0);
}

#[test]
fn missing_leads_a_reader_through_the_frame() {
    let message = Message::direct_message_send("bob", "hi");
    let bytes = message.encode();
    let body = &bytes[2..];
    let mut held: Vec<u8> = Vec::new();
    let mut reads: Vec<usize> = Vec::new();
    loop {
        let wanted = Message::missing(&held);
        if wanted == 0 {
            break;
        }
        reads.push(wanted);
        let from = held.len();
        held.extend_from_slice(&body[from..from + wanted]);
    }
    assert_eq!(reads, vec![1, 5, 4, 3, 4, 2, 4]);
    assert_eq!(held, body);
    let (decoded, used) = Message::decode(&held).unwrap();
    assert_eq!(used, held.len());
    assert_eq!(decoded.payload().get_data(), vec![b"bob".to_vec(), b"hi".to_vec()]);
}

#[test]
fn frame_start_is_the_magic_constant() {
    assert!(Message::has_header_start(&[0x59, 0x18]));
    assert!(!Message::has_header_start(&[0x18, 0x59]));
    assert!(!Message::has_header_start(&[0x59]));
    assert!(!Message::has_header_start(&[0x59, 0x18, 0x01]));
    assert!(!Message::has_header_start(&[]));
}

fn has_timestamp_shape(text: &str) -> bool {
    let bytes = text.as_bytes();
    let year = match bytes.iter().position(|b| *b == b'T') {
        Some(at) if at >= 10 => at - 6,
        _ => return false,
    };
    let digits = |from: usize, to: usize| {
        to <= bytes.len() && bytes[from..to].iter().all(|b| b.is_ascii_digit())
    };
    let sign = |at: usize| at < bytes.len() && (bytes[at] == b'+' || bytes[at] == b'-');
    let is = |at: usize, c: u8| at < bytes.len() && bytes[at] == c;
    let year_ok = if year == 4 {
        digits(0, 4)
    } else {
        year >= 5 && year <= 11 && sign(0) && digits(1, year)
    };
    let time = year + 15;
    let fraction = if is(time, b'.') {
        bytes[time + 1..].iter().take_while(|b| b.is_ascii_digit()).count()
    } else {
        0
    };
    let offset = if fraction == 0 { time } else { time + 1 + fraction };
    year_ok
        && is(year, b'-')
        && digits(year + 1, year + 3)
        && is(year + 3, b'-')
        && digits(year + 4, year + 6)
        && is(year + 6, b'T')
        && digits(year + 7, year + 9)
        && is(year + 9, b':')
        && digits(year + 10, year + 12)
        && is(year + 12, b':')
        && digits(year + 13, year + 15)
        && (fraction == 0 || fraction == 3 || fraction == 6 || fraction == 9)
        && bytes.len() == offset + 6
        && sign(offset)
        && digits(offset + 1, offset + 3)
        && is(offset + 3, b':')
        && digits(offset + 4, offset + 6)
}

#[test]
fn the_shape_check_knows_a_timestamp() {
    assert!(has_timestamp_shape("1996-12-19T16:39:57-08:00"));
    assert!(has_timestamp_shape("2024-02-29T12:00:00.500+01:00"));
    assert!(has_timestamp_shape("+10000-01-01T00:00:00.000000001+00:00"));
    assert!(!has_timestamp_shape(""));
    assert!(!has_timestamp_shape("2024-02-29T12:00:00Z"));
    assert!(!has_timestamp_shape("2024-02-29 12:00:00+01:00"));
    assert!(!has_timestamp_shape("2024-02-29T12:00:00.5+01:00"));
}

#[test]
fn heartbeat_carries_an_rfc3339_timestamp() {
    let message = Message::heartbeat();
    assert_eq!(message.message_type(), MessageType::Heartbeat);
    let data = message.payload().get_data();
    assert_eq!(data.len(), 1);
    let text = std::str::from_utf8(&data[0]).unwrap();
    assert!(has_timestamp_shape(text));
    assert!(text.len() >= 25 && text.len() <= 42);
    let parsed = chrono::DateTime::parse_from_rfc3339(text).unwrap();
    assert!(parsed.timestamp() > 1_600_000_000);
    let fixed = Message::heartbeat_at("1996-12-19T16:39:57-08:00");
    assert_eq!(fixed.payload().get_data(), vec![b"1996-12-19T16:39:57-08:00".to_vec()]);
}

#[test]
fn errors_describe_themselves() {
    assert_eq!(ProtocolError::VersionMismatch.to_string(), "Invalid version");
    assert_eq!(ProtocolError::ChecksumMismatch.to_string(), "Invalid checksum");
    assert_eq!(ProtocolError::Truncated.to_string(), "Unexpected end of frame");
}

#[test]
fn a_reader_asks_for_each_item_in_turn() {
    let bytes = Message::direct_message_send("bob", "hi").encode();
    let body = &bytes[2..];
    let mut reader = FrameReader::new();
    let mut reads: Vec<usize> = Vec::new();
    let mut from = 0;
    loop {
        let wanted = reader.missing();
        assert_eq!(wanted, Message::missing(&body[..from]));
        if wanted == 0 {
            break;
        }
        reads.push(wanted);
        reader.extend(&body[from..from + wanted]);
        from += wanted;
    }
    assert_eq!(reads, vec![1, 5, 4, 3, 4, 2, 4]);
    assert_eq!(from, body.len());
    let message = reader.finish().unwrap();
    assert_eq!(message.encode(), bytes);
}

#[test]
fn a_reader_copes_with_pieces_of_any_size() {
    let fields: Vec<Vec<u8>> = (0..40u8).map(|i| vec![i; (i as usize * 7) % 13]).collect();
    let message = MessageBuilder::new(MessageType::Empty).with_fields(fields.clone()).build();
    let bytes = message.encode();
    let body = &bytes[2..];
    for piece in [1usize, 2, 3, 5, 8, 64, 1000] {
        let mut reader = FrameReader::new();
        let mut from = 0;
        while from < body.len() {
            let wanted = reader.missing();
            assert!(wanted > 0);
            assert!(from + wanted <= body.len());
            assert_eq!(wanted, Message::missing(&body[..from]));
            let take = piece.min(wanted);
            reader.extend(&body[from..from + take]);
            from += take;
        }
        assert_eq!(reader.missing(), 0);
        assert_eq!(reader.missing(), 0);
        let decoded = reader.finish().unwrap();
        assert_eq!(decoded.payload().get_data(), fields);
    }
}

#[test]
fn a_reader_stops_at_a_wrong_version_and_reports_damage() {
    let mut reader = FrameReader::new();
    assert_eq!(reader.missing(), 1);
    reader.extend(&[0x07]);
    assert_eq!(reader.missing(), 0);
    assert_eq!(reader.finish().err(), Some(ProtocolError::VersionMismatch));

    let mut bytes = Message::auth("alice", "pw").encode();
    bytes[13] ^= 0x20;
    let mut reader = FrameReader::new();
    reader.extend(&bytes[2..]);
    assert_eq!(reader.missing(), 0);
    assert_eq!(reader.finish().err(), Some(ProtocolError::ChecksumMismatch));

    let mut reader = FrameReader::new();
    reader.extend(&bytes[2..10]);
    assert!(reader.missing() > 0);
    assert_eq!(reader.finish().err(), Some(ProtocolError::Truncated));
}
