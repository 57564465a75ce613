use showlink::codec::{
    decode, decode_request, encode_message, encode_request, Category, DecodeError,
    REQUEST_BUF_LEN,
};
use showlink::net::{
    parse_ipv4, ConnectionEnd, ConnectionInfo, Identifier, IpAddress, SubscriberInfo,
};
use showlink::protocol::{
    BeatStatus, Configuration, ControlAction, CueData, Heartbeat, JackStatus, JumpModeChange,
    LargeMessage, Message, NetworkStatus, Request, RoutingChange, ShowData, SmallMessage,
    Timecode, TransportStatus, ALL_MESSAGE_KINDS_MASK,
};
use showlink::{LARGE_TAG, SMALL_TAG};

fn ident(s: &str) -> Identifier {
    Identifier::new(s.as_bytes().to_vec())
}

#[test]
fn decode_empty_datagram() {
    assert_eq!(decode(&[]), Err(DecodeError::Empty));
}

#[test]
fn decode_unknown_tag_is_reported_with_the_byte() {
    assert_eq!(decode(&[0x42, 1, 2, 3]), Err(DecodeError::UnknownTag(0x42)));
    assert_eq!(decode(&[0x00]), Err(DecodeError::UnknownTag(0x00)));
    assert_eq!(decode(&[0xFF, 0xD2]), Err(DecodeError::UnknownTag(0xFF)));
}

#[test]
fn decode_truncated_large_payload_is_malformed() {
    // A large tag with no payload at all.
    assert_eq!(
        decode(&[LARGE_TAG]),
        Err(DecodeError::Malformed { category: Category::Large, raw_len: 1 })
    );
    // A large tag with an unknown payload variant.
    assert_eq!(
        decode(&[LARGE_TAG, 9, 0, 0]),
        Err(DecodeError::Malformed { category: Category::Large, raw_len: 4 })
    );
}

#[test]
fn decode_corrupt_small_payload_is_malformed() {
    // Variant 0 is transport data, whose first field is a flag byte:
    // 2 is neither 0 nor 1, so the frame is corrupt.
    let bytes = [SMALL_TAG, 0, 2, 0, 100, 1, 2, 3, 4];
    assert_eq!(
        decode(&bytes),
        Err(DecodeError::Malformed { category: Category::Small, raw_len: bytes.len() })
    );
}

#[test]
fn large_cue_round_trip() {
    let msg = Message::Large(LargeMessage::CueData(CueData { index: 7, name: ident("intro") }));
    let bytes = encode_message(&msg);
    assert_eq!(decode(&bytes), Ok(msg));
}

#[test]
fn large_round_trip_survives_trailing_zeros() {
    // Frames arrive in a reusable zero-filled buffer that is longer than
    // the datagram: trailing bytes must not disturb the payload.
    let msg = Message::Large(LargeMessage::ShowData(ShowData {
        name: ident("evening show"),
        cue_count: 42,
    }));
    let mut bytes = encode_message(&msg);
    bytes.resize(bytes.len() + 64, 0);
    assert_eq!(decode(&bytes), Ok(msg));
}

#[test]
fn large_network_round_trip() {
    let subs = vec![
        SubscriberInfo {
            identifier: ident("desk"),
            address: IpAddress::new([192, 168, 0, 10], 9000),
            message_kinds: ALL_MESSAGE_KINDS_MASK,
            last_contact: 123_456,
        },
        SubscriberInfo {
            identifier: ident(""),
            address: IpAddress::new([10, 0, 0, 1], 1),
            message_kinds: 0,
            last_contact: 0,
        },
    ];
    let msg = Message::Large(LargeMessage::NetworkChanged(NetworkStatus::new(subs)));
    let bytes = encode_message(&msg);
    assert_eq!(decode(&bytes), Ok(msg));
}

#[test]
fn large_configuration_round_trip() {
    let msg = Message::Large(LargeMessage::ConfigurationChanged(Configuration::new(vec![
        0, 1, 500, 1000, 65535,
    ])));
    let bytes = encode_message(&msg);
    assert_eq!(decode(&bytes), Ok(msg));
}

#[test]
fn large_jack_round_trip() {
    let msg = Message::Large(LargeMessage::JACKStateChanged(JackStatus {
        running: true,
        sample_rate: 48_000,
        xruns: 3,
    }));
    let bytes = encode_message(&msg);
    assert_eq!(decode(&bytes), Ok(msg));
}

#[test]
fn small_round_trips() {
    let messages = vec![
        Message::Small(SmallMessage::TransportData(TransportStatus {
            running: true,
            vlt: false,
            playrate_percent: 104,
            ltc: Timecode { hours: 1, minutes: 2, seconds: 3, frames: 24 },
        })),
        Message::Small(SmallMessage::TimecodeData(Timecode {
            hours: 23,
            minutes: 59,
            seconds: 59,
            frames: 29,
        })),
        Message::Small(SmallMessage::BeatData(BeatStatus { bar: 128, beat: 3 })),
        Message::Small(SmallMessage::ShutdownOccured),
        Message::Small(SmallMessage::Heartbeat(Heartbeat { timestamp: u64::MAX })),
    ];
    for msg in messages {
        let bytes = encode_message(&msg);
        assert_eq!(decode(&bytes), Ok(msg));
    }
}

#[test]
fn heartbeat_wire_bytes_are_little_endian() {
    let msg = Message::Small(SmallMessage::Heartbeat(Heartbeat { timestamp: 0x0102_0304 }));
    let bytes = encode_message(&msg);
    assert_eq!(bytes, vec![SMALL_TAG, 4, 0x04, 0x03, 0x02, 0x01, 0, 0, 0, 0]);
}

#[test]
fn ping_request_is_one_byte() {
    assert_eq!(encode_request(&Request::Ping), vec![2]);
}

#[test]
fn request_round_trips() {
    let requests = vec![
        Request::Ping,
        Request::Shutdown,
        Request::Initialize,
        Request::ControlAction(ControlAction::TransportStart),
        Request::ControlAction(ControlAction::ChangeJumpMode(JumpModeChange::Toggle)),
        Request::ControlAction(ControlAction::ChangePlayrate(85)),
        Request::ChangeRouting(RoutingChange { source: 3, destination: 5, connected: true }),
        Request::ChangeConfiguration(Configuration::new(vec![100, 200])),
        Request::Unsubscribe(ConnectionInfo {
            end: ConnectionEnd::Local,
            address: IpAddress::new([172, 16, 0, 2], 40_000),
            identifier: ident("console"),
        }),
    ];
    for req in requests {
        let bytes = encode_request(&req);
        assert!(bytes.len() <= REQUEST_BUF_LEN);
        assert_eq!(decode_request(&bytes), Some(req));
    }
}

#[test]
fn subscribe_datagram_is_deterministic_and_reproduces_identifier_and_address() {
    let make = || {
        Request::Subscribe(SubscriberInfo {
            identifier: ident("X"),
            address: IpAddress::new([10, 0, 0, 5], 5000),
            message_kinds: ALL_MESSAGE_KINDS_MASK,
            last_contact: 1_700_000_000,
        })
    };
    let first = encode_request(&make());
    let second = encode_request(&make());
    assert_eq!(first, second);

    // A peer-side decode of the identical bytes reproduces the original
    // identifier and address exactly.
    match decode_request(&first) {
        Some(Request::Subscribe(info)) => {
            assert_eq!(info.identifier.as_bytes().as_slice(), b"X");
            assert_eq!(info.address.addr, [10, 0, 0, 5]);
            assert_eq!(info.address.port, 5000);
            assert_eq!(info.message_kinds, ALL_MESSAGE_KINDS_MASK);
            assert_eq!(info.last_contact, 1_700_000_000);
        },
        other => panic!("expected a subscribe request, got {:?}", other),
    }
}

#[test]
fn encode_request_into_reuses_one_buffer() {
    let mut buf: Vec<u8> = Vec::with_capacity(REQUEST_BUF_LEN);
    showlink::codec::encode_request_into(&Request::Ping, &mut buf);
    assert_eq!(buf, vec![2]);
    showlink::codec::encode_request_into(&Request::Shutdown, &mut buf);
    assert_eq!(buf, vec![3]);
    assert_eq!(buf.capacity(), REQUEST_BUF_LEN);
}

#[test]
fn identifiers_longer_than_the_bound_are_truncated() {
    let long = "a".repeat(40);
    let id = Identifier::new(long.into_bytes());
    assert_eq!(id.len(), 32);
}

#[test]
fn identifier_at_the_exact_bound_round_trips() {
    let name = "n".repeat(32);
    let msg = Message::Large(LargeMessage::CueData(CueData { index: 1, name: ident(&name) }));
    let bytes = encode_message(&msg);
    assert_eq!(decode(&bytes), Ok(msg));
}

#[test]
fn configuration_at_the_channel_bound_round_trips() {
    let gains: Vec<u16> = (0..32u16).collect();
    let config = Configuration::new(gains.clone());
    assert_eq!(config.channel_gains(), &gains);
    let msg = Message::Large(LargeMessage::ConfigurationChanged(config));
    let bytes = encode_message(&msg);
    assert_eq!(decode(&bytes), Ok(msg));
}

#[test]
fn configuration_past_the_channel_bound_is_truncated() {
    let config = Configuration::new(vec![7u16; 40]);
    assert_eq!(config.len(), 32);
}

#[test]
fn parse_ipv4_reads_dotted_quads() {
    assert_eq!(parse_ipv4(b"192.168.1.5"), Some([192, 168, 1, 5]));
    assert_eq!(parse_ipv4(b"0.0.0.0"), Some([0, 0, 0, 0]));
    assert_eq!(parse_ipv4(b"255.255.255.255"), Some([255, 255, 255, 255]));
    assert_eq!(parse_ipv4(b"10.0.0.256"), None);
    assert_eq!(parse_ipv4(b"1.2.3"), None);
    assert_eq!(parse_ipv4(b"1.2.3.4.5"), None);
    assert_eq!(parse_ipv4(b"1.2.3.4 "), None);
    assert_eq!(parse_ipv4(b""), None);
}
