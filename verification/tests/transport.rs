use showlink::codec::{encode_request, DecodeError};
use showlink::net::{ConnectionEnd, Identifier, IpAddress, SubscriberInfo};
use showlink::protocol::{
    Heartbeat, Message, MessageType, Request, RequestType, SmallMessage, ALL_MESSAGE_KINDS_MASK,
    MESSAGE_KIND_COUNT, REQUEST_KIND_COUNT,
};
use showlink::transport::{UdpClient, LIVENESS_TIMEOUT_MS, PING_INTERVAL_MS};
use showlink::{LARGE_TAG, SMALL_TAG, tag_recognized};

fn ident(s: &str) -> Identifier {
    Identifier::new(s.as_bytes().to_vec())
}

fn heartbeat_datagram(ts: u64) -> Vec<u8> {
    showlink::codec::encode_message(&Message::Small(SmallMessage::Heartbeat(Heartbeat {
        timestamp: ts,
    })))
}

#[test]
fn recognized_tags() {
    assert!(tag_recognized(LARGE_TAG));
    assert!(tag_recognized(SMALL_TAG));
    assert!(!tag_recognized(0x00));
    assert!(!tag_recognized(0x7F));
}

#[test]
fn new_transport_is_idle_with_zeroed_tallies() {
    let client = UdpClient::new();
    assert!(!client.active);
    assert!(!client.connected);
    assert!(!client.loop_running);
    assert_eq!(client.local.end, ConnectionEnd::Local);
    assert_eq!(client.local.address.port, 0);
    assert_eq!(client.rx_message_tally.len(), MESSAGE_KIND_COUNT);
    assert_eq!(client.tx_message_tally.len(), REQUEST_KIND_COUNT);
    for i in 0..MESSAGE_KIND_COUNT {
        assert_eq!(client.rx_message_tally.get(i), (0, 0));
    }
    for i in 0..REQUEST_KIND_COUNT {
        assert_eq!(client.tx_message_tally.get(i), (0, 0));
    }
    assert_eq!(client.channel.len(), 0);
}

#[test]
fn start_on_a_connected_transport_is_a_no_op() {
    let mut client = UdpClient::new();
    assert!(client.start(5));
    assert!(client.loop_running);
    assert_eq!(client.local.address.port, 0);
    let address_before = client.local.address;

    let (_, _) = client.connect_at(ident("X"), IpAddress::new([10, 0, 0, 5], 5000), 0);
    assert!(client.connected);
    client.set_local_port(7777);

    // Starting twice: the second call reports that no loop must be spawned
    // and observable local-address state is unchanged.
    let started_again = client.start(99);
    assert!(!started_again);
    assert_eq!(client.local.address.addr, address_before.addr);
    assert_eq!(client.local.address.port, 7777);
    assert!(client.connected);
}

#[test]
fn send_msg_bumps_exactly_one_tally_slot() {
    let mut client = UdpClient::new();
    let datagram = client.send_msg(Request::Shutdown);
    assert_eq!(datagram, encode_request(&Request::Shutdown));

    let idx = RequestType::Shutdown.index();
    assert_eq!(client.tx_message_tally.get(idx), (1, datagram.len()));
    for i in 0..REQUEST_KIND_COUNT {
        if i != idx {
            assert_eq!(client.tx_message_tally.get(i), (0, 0), "slot {} moved", i);
        }
    }

    let datagram2 = client.send_msg(Request::Shutdown);
    assert_eq!(client.tx_message_tally.get(idx), (2, datagram.len() + datagram2.len()));
}

#[test]
fn connect_at_subscribes_with_every_message_kind() {
    let mut client = UdpClient::new();
    let remote_addr = IpAddress::new([10, 0, 0, 5], 5000);
    let (remote, datagram) = client.connect_at(ident("X"), remote_addr, 1_700_000_000);

    assert!(client.connected);
    assert_eq!(remote.end, ConnectionEnd::Remote);
    assert_eq!(remote.address.addr, [10, 0, 0, 5]);
    assert_eq!(remote.address.port, 5000);
    assert_eq!(remote.identifier.len(), 0);

    let expected = encode_request(&Request::Subscribe(SubscriberInfo {
        identifier: ident("X"),
        address: client.local.address,
        message_kinds: ALL_MESSAGE_KINDS_MASK,
        last_contact: 1_700_000_000,
    }));
    assert_eq!(datagram, expected);
    assert_eq!(
        client.tx_message_tally.get(RequestType::Subscribe.index()),
        (1, datagram.len())
    );
}

#[test]
fn one_sustained_timeout_synthesizes_exactly_one_shutdown() {
    let mut client = UdpClient::new();
    client.start(0);

    // Within the threshold: nothing is synthesized.
    assert!(client.loop_tick(LIVENESS_TIMEOUT_MS).is_none());
    assert_eq!(client.channel.len(), 0);

    // Past the threshold: one shutdown message appears.
    client.loop_tick(LIVENESS_TIMEOUT_MS + 1);
    assert_eq!(client.channel.len(), 1);

    // Still silent: further polls add nothing.
    client.loop_tick(LIVENESS_TIMEOUT_MS + 2);
    client.loop_tick(LIVENESS_TIMEOUT_MS + 5000);
    assert_eq!(client.channel.len(), 1);

    // A datagram arrives: the silence ends.
    let arrival = LIVENESS_TIMEOUT_MS + 6000;
    client
        .on_datagram(&heartbeat_datagram(1), 10, arrival)
        .expect("a heartbeat frame decodes");
    assert_eq!(client.channel.len(), 2);

    // A second sustained timeout synthesizes a second shutdown, once.
    client.loop_tick(arrival + LIVENESS_TIMEOUT_MS + 1);
    client.loop_tick(arrival + LIVENESS_TIMEOUT_MS + 2);
    assert_eq!(client.channel.len(), 3);
}

#[test]
fn idle_link_pings_and_pings_are_untallied() {
    let mut client = UdpClient::new();
    client.start(0);

    assert!(client.loop_tick(PING_INTERVAL_MS).is_none());
    let ping = client.loop_tick(PING_INTERVAL_MS + 1).expect("the keep-alive ping is due");
    assert_eq!(ping, encode_request(&Request::Ping));

    // The ping timer was reset: the next poll sends nothing.
    assert!(client.loop_tick(PING_INTERVAL_MS + 2).is_none());

    // The anonymous keep-alive bypasses the sent tally by design.
    for i in 0..REQUEST_KIND_COUNT {
        assert_eq!(client.tx_message_tally.get(i), (0, 0));
    }
}

#[test]
fn unknown_tag_refreshes_liveness_but_delivers_nothing() {
    let mut client = UdpClient::new();
    client.start(0);

    let r = client.on_datagram(&[0x55, 1, 2, 3], 4, 7);
    assert_eq!(r, Err(DecodeError::UnknownTag(0x55)));
    assert_eq!(client.channel.len(), 0);
    assert_eq!(client.last_recv_ms, 7);
}

#[test]
fn malformed_frame_is_dropped_without_tally_update() {
    let mut client = UdpClient::new();
    client.start(0);

    let r = client.on_datagram(&[LARGE_TAG, 9, 9], 3, 8);
    assert!(matches!(r, Err(DecodeError::Malformed { .. })));
    assert_eq!(client.channel.len(), 0);
    for i in 0..MESSAGE_KIND_COUNT {
        assert_eq!(client.rx_message_tally.get(i), (0, 0));
    }
    // The receive timestamp still refreshed.
    assert_eq!(client.last_recv_ms, 8);
}

#[test]
fn a_short_datagram_in_a_zero_filled_receive_buffer_decodes() {
    let mut client = UdpClient::new();
    client.start(0);

    // The receive loop hands over the whole reusable buffer; only the first
    // packet_len bytes came off the wire, the rest is zero fill.
    let mut buf = vec![0u8; 65536];
    let datagram = heartbeat_datagram(7);
    buf[..datagram.len()].copy_from_slice(&datagram);

    client.on_datagram(&buf, datagram.len(), 3).expect("the padded frame decodes");
    let (m, size) = client.channel.try_pop().unwrap();
    assert_eq!(m, Message::Small(SmallMessage::Heartbeat(Heartbeat { timestamp: 7 })));
    assert_eq!(size, datagram.len());
}

#[test]
fn decoded_datagrams_are_delivered_in_order_with_their_sizes() {
    let mut client = UdpClient::new();
    client.start(0);

    let first = heartbeat_datagram(1);
    let second = heartbeat_datagram(2);
    client.on_datagram(&first, first.len(), 1).unwrap();
    client.on_datagram(&second, second.len(), 2).unwrap();
    assert_eq!(client.channel.len(), 2);

    let (m1, s1) = client.channel.try_pop().unwrap();
    let (m2, s2) = client.channel.try_pop().unwrap();
    assert_eq!(m1, Message::Small(SmallMessage::Heartbeat(Heartbeat { timestamp: 1 })));
    assert_eq!(m2, Message::Small(SmallMessage::Heartbeat(Heartbeat { timestamp: 2 })));
    assert_eq!(s1, first.len());
    assert_eq!(s2, second.len());
    assert!(client.channel.try_pop().is_none());

    // A real shutdown frame is tallied like any other message once applied;
    // here we only check the rx tally stayed untouched on the transport side.
    assert_eq!(client.rx_message_tally.get(MessageType::Heartbeat.index()), (0, 0));
}
