use showlink::net::Identifier;
use showlink::protocol::{
    BeatStatus, Configuration, CueData, Heartbeat, LargeMessage, Message, MessageType,
    SmallMessage, Timecode, TransportStatus, MAX_CHANNELS,
};
use showlink::reducer::{
    handle_cc_message, update_tick, AudioSourceState, CombinedStatus, BACKLOG_LIMIT,
};
use showlink::transport::UdpClient;

fn heartbeat(ts: u64) -> Message {
    Message::Small(SmallMessage::Heartbeat(Heartbeat { timestamp: ts }))
}

#[test]
fn transport_data_overwrites_its_slot_and_the_time_source() {
    let mut client = UdpClient::new();
    let mut status = CombinedStatus::new();
    let ts = TransportStatus {
        running: true,
        vlt: true,
        playrate_percent: 96,
        ltc: Timecode { hours: 1, minutes: 2, seconds: 3, frames: 4 },
    };
    handle_cc_message(&mut client, &mut status, Message::Small(SmallMessage::TransportData(ts)), 9);

    assert!(client.active);
    assert_eq!(status.transport, ts);
    assert_eq!(status.time_source, AudioSourceState::TimeStatus(ts.ltc));
    assert_eq!(status.beat_source, AudioSourceState::Inactive);
    assert_eq!(client.rx_message_tally.get(MessageType::TransportData.index()), (1, 9));
    assert_eq!(client.rx_message_tally.get(MessageType::Heartbeat.index()), (0, 0));
}

#[test]
fn beat_data_fills_the_beat_source() {
    let mut client = UdpClient::new();
    let mut status = CombinedStatus::new();
    let beat = BeatStatus { bar: 17, beat: 2 };
    handle_cc_message(&mut client, &mut status, Message::Small(SmallMessage::BeatData(beat)), 6);
    assert_eq!(status.beat_source, AudioSourceState::BeatStatus(beat));
}

#[test]
fn shutdown_clears_active_but_keeps_the_last_known_status() {
    let mut client = UdpClient::new();
    let mut status = CombinedStatus::new();
    let cue = CueData { index: 3, name: Identifier::new(b"blackout".to_vec()) };
    handle_cc_message(
        &mut client,
        &mut status,
        Message::Large(LargeMessage::CueData(cue.clone())),
        20,
    );
    assert!(client.active);
    assert_eq!(status.cue, cue);

    handle_cc_message(&mut client, &mut status, Message::Small(SmallMessage::ShutdownOccured), 1);
    assert!(!client.active);
    // Stale-but-last-known state stays on display.
    assert_eq!(status.cue, cue);
    assert_eq!(client.rx_message_tally.get(MessageType::ShutdownOccured.index()), (1, 1));
}

#[test]
fn configuration_changes_rederive_the_gain_cache() {
    let mut client = UdpClient::new();
    let mut status = CombinedStatus::new();
    assert_eq!(status.sources_gains.len(), MAX_CHANNELS);

    let config = Configuration::new(vec![10, 20, 30]);
    handle_cc_message(
        &mut client,
        &mut status,
        Message::Large(LargeMessage::ConfigurationChanged(config)),
        12,
    );
    assert_eq!(status.sources_gains.len(), MAX_CHANNELS);
    assert_eq!(&status.sources_gains[..3], &[10, 20, 30]);
    assert!(status.sources_gains[3..].iter().all(|g| *g == 0));
    assert_eq!(status.system_config.channel_gains().as_slice(), &[10, 20, 30]);
}

#[test]
fn update_tick_applies_the_backlog_in_arrival_order() {
    let mut client = UdpClient::new();
    let mut status = CombinedStatus::new();
    for ts in 1..=3u64 {
        client.channel.push(heartbeat(ts), 10);
    }
    let overflowed = update_tick(&mut client, &mut status);
    assert!(!overflowed);
    assert_eq!(client.channel.len(), 0);
    // Last write wins.
    assert_eq!(status.heartbeat, Heartbeat { timestamp: 3 });
    assert_eq!(client.rx_message_tally.get(MessageType::Heartbeat.index()), (3, 30));
    assert!(client.active);
}

#[test]
fn update_tick_discards_an_oversized_backlog_unprocessed() {
    let mut client = UdpClient::new();
    let mut status = CombinedStatus::new();
    for ts in 0..(BACKLOG_LIMIT as u64 + 1) {
        client.channel.push(heartbeat(ts), 10);
    }
    let overflowed = update_tick(&mut client, &mut status);
    assert!(overflowed);
    assert_eq!(client.channel.len(), 0);
    // Nothing was applied: no tally movement, no status change.
    assert_eq!(status.heartbeat, Heartbeat { timestamp: 0 });
    assert_eq!(client.rx_message_tally.get(MessageType::Heartbeat.index()), (0, 0));
    assert!(!client.active);
}

#[test]
fn update_tick_processes_a_backlog_exactly_at_the_limit() {
    let mut client = UdpClient::new();
    let mut status = CombinedStatus::new();
    for ts in 1..=(BACKLOG_LIMIT as u64) {
        client.channel.push(heartbeat(ts), 1);
    }
    let overflowed = update_tick(&mut client, &mut status);
    assert!(!overflowed);
    assert_eq!(client.channel.len(), 0);
    assert_eq!(status.heartbeat, Heartbeat { timestamp: BACKLOG_LIMIT as u64 });
    assert_eq!(
        client.rx_message_tally.get(MessageType::Heartbeat.index()),
        (BACKLOG_LIMIT, BACKLOG_LIMIT)
    );
}
