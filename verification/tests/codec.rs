use warning_window::codec::{decode_frame, encode_frame, DecodeError, EncodeError, Packet,
    PacketType};

fn round_trip(kind: PacketType, text: &str) -> Packet {
    let frame = encode_frame(kind, text).expect("encodes");
    decode_frame(frame[0], &frame[1..]).expect("decodes")
}

#[test]
fn round_trip_warn_text() {
    let p = round_trip(PacketType::Warn, "disk 90%");
    assert!(matches!(p.packet_type, PacketType::Warn));
    assert_eq!(p.text.as_deref(), Some("disk 90%"));
}

#[test]
fn round_trip_info_text() {
    let p = round_trip(PacketType::Info, "x");
    assert!(matches!(p.packet_type, PacketType::Info));
    assert_eq!(p.text.as_deref(), Some("x"));
}

#[test]
fn round_trip_name_text() {
    let p = round_trip(PacketType::Name, "alice");
    assert!(matches!(p.packet_type, PacketType::Name));
    assert_eq!(p.text.as_deref(), Some("alice"));
}

#[test]
fn round_trip_alert_empty() {
    let p = round_trip(PacketType::Alert, "");
    assert!(matches!(p.packet_type, PacketType::Alert));
    assert_eq!(p.text, None);
}

#[test]
fn round_trip_non_ascii() {
    let p = round_trip(PacketType::Warn, "t\u{00e9}l\u{00e9}");
    assert_eq!(p.text.as_deref(), Some("t\u{00e9}l\u{00e9}"));
}

#[test]
fn length_byte_counts_payload_plus_kind() {
    let frame = encode_frame(PacketType::Info, "abc").unwrap();
    assert_eq!(frame[0], 4);
    assert_eq!(frame[1], 2);
    assert_eq!(frame.len(), 5);
    assert_eq!(&frame[2..], b"abc");
}

#[test]
fn largest_frame_is_256_bytes() {
    let text: String = std::iter::repeat('a').take(254).collect();
    let frame = encode_frame(PacketType::Warn, &text).unwrap();
    assert_eq!(frame[0], 255);
    assert_eq!(frame.len(), 256);
    let p = decode_frame(frame[0], &frame[1..]).unwrap();
    assert_eq!(p.text.as_deref(), Some(text.as_str()));
}

#[test]
fn text_over_254_bytes_is_refused() {
    let text: String = std::iter::repeat('a').take(255).collect();
    assert_eq!(encode_frame(PacketType::Warn, &text), Err(EncodeError::TextTooLong));
}

#[test]
fn info_without_text_is_refused_on_encode() {
    assert_eq!(encode_frame(PacketType::Info, ""), Err(EncodeError::MissingText));
    assert_eq!(encode_frame(PacketType::Name, ""), Err(EncodeError::MissingText));
}

#[test]
fn zero_length_byte_is_rejected() {
    let r = decode_frame(0, &[]);
    assert!(matches!(r, Err(DecodeError::InvalidLength)));
}

#[test]
fn unknown_kind_is_rejected() {
    let r = decode_frame(2, &[9, b'x']);
    assert!(matches!(r, Err(DecodeError::InvalidKind)));
}

#[test]
fn info_frame_without_payload_is_rejected() {
    let r = decode_frame(1, &[2]);
    assert!(matches!(r, Err(DecodeError::MissingText)));
    let r = decode_frame(1, &[5]);
    assert!(matches!(r, Err(DecodeError::MissingText)));
}

#[test]
fn warn_frame_without_payload_is_accepted() {
    let p = decode_frame(1, &[3]).unwrap();
    assert!(matches!(p.packet_type, PacketType::Warn));
    assert_eq!(p.text, None);
}

#[test]
fn short_body_is_rejected() {
    let r = decode_frame(5, &[3, b'a']);
    assert!(matches!(r, Err(DecodeError::LengthMismatch)));
}

#[test]
fn invalid_utf8_is_replaced_not_fatal() {
    let p = decode_frame(2, &[3, 0xFF]).unwrap();
    assert!(matches!(p.packet_type, PacketType::Warn));
    assert_eq!(p.text.as_deref(), Some("\u{FFFD}"));
}

#[test]
fn type_numbers_round_trip() {
    for (n, label) in [(2u8, "INFO"), (3, "WARN"), (4, "ALERT"), (5, "NAME")] {
        let t = PacketType::from_type_number(n).unwrap();
        assert_eq!(t.to_type_number(), n);
        assert_eq!(t.to_string(), label);
    }
    assert!(PacketType::from_type_number(0).is_err());
    assert!(PacketType::from_type_number(1).is_err());
    assert!(PacketType::from_type_number(6).is_err());
    assert!(PacketType::from_type_number(9).is_err());
}
