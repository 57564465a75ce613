//! The State Reducer: the consumer side. Each decoded message overwrites
//! exactly one slot of the shared status aggregate, last write wins; the
//! update tick drains the Delivery Channel in arrival order, with a
//! backlog-overflow policy that trades data loss for bounded latency.

use vstd::prelude::*;

use crate::channel::channel_contents;
use crate::protocol::{
    BeatStatus, Configuration, CueData, CueDataView, Heartbeat, JackStatus, LargeMessage,
    LargeMessageView, Message, MessageView, NetworkStatus, ShowData, ShowDataView, SmallMessage,
    Timecode, TransportStatus, MAX_CHANNELS,
};
use crate::net::{Identifier, SubscriberInfoView};
use crate::tally::tally_bump;
use crate::transport::UdpClient;

verus! {

/// If this many entries already wait in the Delivery Channel when an update
/// tick starts, the consumer is living in the past: the whole backlog is
/// discarded unprocessed rather than replayed.
pub const BACKLOG_LIMIT: usize = 16;

/// What one audio source slot currently shows.
#[derive(Debug, Clone, Copy, PartialEq, Eq, Structural)]
pub enum AudioSourceState {
    Inactive,
    BeatStatus(BeatStatus),
    TimeStatus(Timecode),
}

/// The shared status aggregate: one slot per message kind, plus the
/// per-channel gain cache that configuration changes re-derive.
#[derive(Debug)]
pub struct CombinedStatus {
    pub transport: TransportStatus,
    pub beat_source: AudioSourceState,
    pub time_source: AudioSourceState,
    pub cue: CueData,
    pub show: ShowData,
    pub network_status: NetworkStatus,
    pub jack_status: JackStatus,
    pub system_config: Configuration,
    pub heartbeat: Heartbeat,
    pub sources_gains: Vec<u16>,
}

/// Mathematical model of a `CombinedStatus`.
#[verifier::ext_equal]
pub struct CombinedStatusView {
    pub transport: TransportStatus,
    pub beat_source: AudioSourceState,
    pub time_source: AudioSourceState,
    pub cue: CueDataView,
    pub show: ShowDataView,
    pub network_status: Seq<SubscriberInfoView>,
    pub jack_status: JackStatus,
    pub system_config: Seq<u16>,
    pub heartbeat: Heartbeat,
    pub sources_gains: Seq<u16>,
}

impl View for CombinedStatus {
    type V = CombinedStatusView;

    open spec fn view(&self) -> CombinedStatusView {
        CombinedStatusView {
            transport: self.transport,
            beat_source: self.beat_source,
            time_source: self.time_source,
            cue: self.cue@,
            show: self.show@,
            network_status: self.network_status@,
            jack_status: self.jack_status,
            system_config: self.system_config@,
            heartbeat: self.heartbeat,
            sources_gains: self.sources_gains@,
        }
    }
}

/// The gain cache a configuration yields: one slot per channel index up to
/// the fixed width, zero where the configuration names no channel.
pub open spec fn derived_gains(gains: Seq<u16>) -> Seq<u16> {
    Seq::new(
        MAX_CHANNELS as nat,
        |i: int|
            if i < gains.len() {
                gains[i]
            } else {
                0u16
            },
    )
}

/// How one decoded message changes the status aggregate: each kind
/// overwrites its one slot, last write wins; a transport update also
/// refreshes the timecode source slot; a configuration change also
/// re-derives the gain cache; a shutdown and a bare timecode message leave
/// the aggregate as it was.
pub open spec fn apply_message(st: CombinedStatusView, m: MessageView) -> CombinedStatusView {
    match m {
        MessageView::Small(SmallMessage::TransportData(ts)) => CombinedStatusView {
            transport: ts,
            time_source: AudioSourceState::TimeStatus(ts.ltc),
            ..st
        },
        MessageView::Small(SmallMessage::TimecodeData(_)) => st,
        MessageView::Small(SmallMessage::BeatData(b)) => CombinedStatusView {
            beat_source: AudioSourceState::BeatStatus(b),
            ..st
        },
        MessageView::Small(SmallMessage::ShutdownOccured) => st,
        MessageView::Small(SmallMessage::Heartbeat(h)) => CombinedStatusView {
            heartbeat: h,
            ..st
        },
        MessageView::Large(LargeMessageView::CueData(c)) => CombinedStatusView {
            cue: c,
            ..st
        },
        MessageView::Large(LargeMessageView::ShowData(v)) => CombinedStatusView {
            show: v,
            ..st
        },
        MessageView::Large(LargeMessageView::NetworkChanged(n)) => CombinedStatusView {
            network_status: n,
            ..st
        },
        MessageView::Large(LargeMessageView::JACKStateChanged(j)) => CombinedStatusView {
            jack_status: j,
            ..st
        },
        MessageView::Large(LargeMessageView::ConfigurationChanged(g)) => CombinedStatusView {
            system_config: g,
            sources_gains: derived_gains(g),
            ..st
        },
    }
}

/// Whether the link still counts as active after a message: any traffic
/// marks it active, except a shutdown message, which clears the flag while
/// leaving the last-known status on display.
pub open spec fn active_after(m: MessageView) -> bool {
    !(m == MessageView::Small(SmallMessage::ShutdownOccured))
}

/// The consumer's state after draining a queue in arrival order: the status
/// aggregate, the active flag, and the received-traffic tally, each folded
/// over every queued (message, wire size) entry.
pub open spec fn reduce_all(
    st: CombinedStatusView,
    active: bool,
    tally: Seq<(usize, usize)>,
    q: Seq<(Message, usize)>,
) -> (CombinedStatusView, bool, Seq<(usize, usize)>)
    decreases q.len(),
{
    if q.len() == 0 {
        (st, active, tally)
    } else {
        let m = q[0].0;
        let size = q[0].1;
        let idx = m@.kind().spec_index();
        reduce_all(
            apply_message(st, m@),
            active_after(m@),
            tally.update(idx, tally_bump(tally[idx], size)),
            q.drop_first(),
        )
    }
}

impl CombinedStatus {
    /// The blank aggregate shown before any traffic arrives.
    pub fn new() -> (r: CombinedStatus)
        ensures
            r@.transport == (TransportStatus {
                running: false,
                vlt: false,
                playrate_percent: 100u8,
                ltc: Timecode { hours: 0u8, minutes: 0u8, seconds: 0u8, frames: 0u8 },
            }),
            r@.beat_source == AudioSourceState::Inactive,
            r@.time_source == AudioSourceState::Inactive,
            r@.cue.index == 0u32,
            r@.cue.name == Seq::<u8>::empty(),
            r@.show.name == Seq::<u8>::empty(),
            r@.show.cue_count == 0u32,
            r@.network_status == Seq::<SubscriberInfoView>::empty(),
            r@.jack_status == (JackStatus { running: false, sample_rate: 0u32, xruns: 0u32 }),
            r@.system_config == Seq::<u16>::empty(),
            r@.heartbeat == (Heartbeat { timestamp: 0u64 }),
            r@.sources_gains == derived_gains(Seq::<u16>::empty()),
    {
        let mut sources_gains: Vec<u16> = Vec::new();
        let mut k: usize = 0;
        while k < MAX_CHANNELS
            invariant
                k <= MAX_CHANNELS,
                sources_gains@.len() == k,
                forall|i: int| 0 <= i < k ==> sources_gains@[i] == 0u16,
            decreases MAX_CHANNELS - k,
        {
            sources_gains.push(0);
            k = k + 1;
        }
        proof {
            assert(sources_gains@ =~= derived_gains(Seq::<u16>::empty()));
        }
        CombinedStatus {
            transport: TransportStatus {
                running: false,
                vlt: false,
                playrate_percent: 100,
                ltc: Timecode { hours: 0, minutes: 0, seconds: 0, frames: 0 },
            },
            beat_source: AudioSourceState::Inactive,
            time_source: AudioSourceState::Inactive,
            cue: CueData { index: 0, name: Identifier::empty() },
            show: ShowData { name: Identifier::empty(), cue_count: 0 },
            network_status: NetworkStatus::new(Vec::new()),
            jack_status: JackStatus { running: false, sample_rate: 0, xruns: 0 },
            system_config: Configuration::new(Vec::new()),
            heartbeat: Heartbeat { timestamp: 0 },
            sources_gains,
        }
    }
}

/// Applies one delivered message: marks the link active (or no longer
/// active, on a shutdown), bumps the received-traffic tally slot of the
/// message's kind by (one item, `size` bytes) and no other slot, and
/// overwrites the one status slot the message addresses.
///
/// A tally slot only ever moves here, after a successful decode: malformed
/// frames never reach this point.
pub fn handle_cc_message(client: &mut UdpClient, status: &mut CombinedStatus, msg: Message, size: usize)
    requires
        old(client).wf(),
    ensures
        final(client).wf(),
        final(status)@ == apply_message(old(status)@, msg@),
        final(client).active == active_after(msg@),
        final(client).rx_message_tally@ == old(client).rx_message_tally@.update(
            msg@.kind().spec_index(),
            tally_bump(old(client).rx_message_tally@[msg@.kind().spec_index()], size),
        ),
        final(client).local == old(client).local,
        final(client).connected == old(client).connected,
        final(client).loop_running == old(client).loop_running,
        final(client).shutdown_synthesized == old(client).shutdown_synthesized,
        final(client).last_ping_ms == old(client).last_ping_ms,
        final(client).last_recv_ms == old(client).last_recv_ms,
        final(client).tx_message_tally@ == old(client).tx_message_tally@,
        channel_contents(final(client).channel) == channel_contents(old(client).channel),
{
    client.active = true;
    let idx = msg.to_type().index();
    client.rx_message_tally.record(idx, size);
    let ghost st0 = status@;
    match msg {
        Message::Small(SmallMessage::TransportData(ts)) => {
            status.time_source = AudioSourceState::TimeStatus(ts.ltc);
            status.transport = ts;
        },
        Message::Small(SmallMessage::TimecodeData(_)) => {},
        Message::Small(SmallMessage::BeatData(b)) => {
            status.beat_source = AudioSourceState::BeatStatus(b);
        },
        Message::Small(SmallMessage::ShutdownOccured) => {
            client.active = false;
        },
        Message::Small(SmallMessage::Heartbeat(h)) => {
            status.heartbeat = h;
        },
        Message::Large(LargeMessage::CueData(c)) => {
            status.cue = c;
        },
        Message::Large(LargeMessage::ShowData(v)) => {
            status.show = v;
        },
        Message::Large(LargeMessage::NetworkChanged(n)) => {
            status.network_status = n;
        },
        Message::Large(LargeMessage::JACKStateChanged(j)) => {
            status.jack_status = j;
        },
        Message::Large(LargeMessage::ConfigurationChanged(config)) => {
            let mut gains: Vec<u16> = Vec::new();
            let cfg_len = config.len();
            let mut k: usize = 0;
            while k < MAX_CHANNELS
                invariant
                    k <= MAX_CHANNELS,
                    gains@.len() == k,
                    cfg_len == config@.len(),
                    forall|i: int| 0 <= i < k ==> gains@[i] == derived_gains(config@)[i],
                decreases MAX_CHANNELS - k,
            {
                if k < cfg_len {
                    let g = *config.channel_gains().get(k).unwrap();
                    gains.push(g);
                } else {
                    gains.push(0);
                }
                k = k + 1;
            }
            proof {
                assert(gains@ =~= derived_gains(config@));
            }
            status.sources_gains = gains;
            status.system_config = config;
        },
    }
    proof {
        assert(status@ =~= apply_message(st0, msg@));
    }
}

/// One update tick: drains the Delivery Channel. If more than
/// `BACKLOG_LIMIT` entries already wait, the whole backlog is discarded
/// unprocessed and the overflow is reported, so the caller can surface a
/// warning instead of replaying stale traffic; otherwise every entry is
/// applied in arrival order. Either way the channel ends empty.
pub fn update_tick(client: &mut UdpClient, status: &mut CombinedStatus) -> (overflowed: bool)
    requires
        old(client).wf(),
    ensures
        final(client).wf(),
        channel_contents(final(client).channel).len() == 0,
        overflowed == (channel_contents(old(client).channel).len() > BACKLOG_LIMIT),
        overflowed ==> {
            &&& final(status)@ == old(status)@
            &&& final(client).active == old(client).active
            &&& final(client).rx_message_tally@ == old(client).rx_message_tally@
        },
        !overflowed ==> {
            let out = reduce_all(
                old(status)@,
                old(client).active,
                old(client).rx_message_tally@,
                channel_contents(old(client).channel),
            );
            &&& final(status)@ == out.0
            &&& final(client).active == out.1
            &&& final(client).rx_message_tally@ == out.2
        },
        final(client).local == old(client).local,
        final(client).connected == old(client).connected,
        final(client).loop_running == old(client).loop_running,
        final(client).shutdown_synthesized == old(client).shutdown_synthesized,
        final(client).last_ping_ms == old(client).last_ping_ms,
        final(client).last_recv_ms == old(client).last_recv_ms,
        final(client).tx_message_tally@ == old(client).tx_message_tally@,
{
    let ghost q0 = channel_contents(client.channel);
    let n = client.channel.len();
    proof {
        assert(q0.skip(0) =~= q0);
    }
    if n > BACKLOG_LIMIT {
        let mut t: usize = 0;
        while t < n
            invariant
                t <= n,
                n == q0.len(),
                client.wf(),
                channel_contents(client.channel) == q0.skip(t as int),
                client.active == old(client).active,
                client.rx_message_tally@ == old(client).rx_message_tally@,
                client.tx_message_tally@ == old(client).tx_message_tally@,
                client.local == old(client).local,
                client.connected == old(client).connected,
                client.loop_running == old(client).loop_running,
                client.shutdown_synthesized == old(client).shutdown_synthesized,
                client.last_ping_ms == old(client).last_ping_ms,
                client.last_recv_ms == old(client).last_recv_ms,
            decreases n - t,
        {
            let ghost before = channel_contents(client.channel);
            let item = client.channel.try_pop();
            proof {
                assert(before.len() == q0.len() - t);
                assert(before.drop_first() =~= q0.skip(t + 1));
            }
            t = t + 1;
        }
        proof {
            assert(q0.skip(n as int) =~= Seq::<(Message, usize)>::empty());
        }
        true
    } else {
        let ghost st0 = status@;
        let ghost a0 = old(client).active;
        let ghost t0 = old(client).rx_message_tally@;
        let mut t: usize = 0;
        while t < n
            invariant
                t <= n,
                n == q0.len(),
                client.wf(),
                channel_contents(client.channel) == q0.skip(t as int),
                reduce_all(st0, a0, t0, q0) == reduce_all(
                    status@,
                    client.active,
                    client.rx_message_tally@,
                    q0.skip(t as int),
                ),
                client.tx_message_tally@ == old(client).tx_message_tally@,
                client.local == old(client).local,
                client.connected == old(client).connected,
                client.loop_running == old(client).loop_running,
                client.shutdown_synthesized == old(client).shutdown_synthesized,
                client.last_ping_ms == old(client).last_ping_ms,
                client.last_recv_ms == old(client).last_recv_ms,
            decreases n - t,
        {
            let ghost remaining = q0.skip(t as int);
            let item = client.channel.try_pop();
            match item {
                Some((m, size)) => {
                    proof {
                        assert(remaining.len() == q0.len() - t);
                        assert((m, size) == remaining[0]);
                        assert(remaining.drop_first() =~= q0.skip(t + 1));
                    }
                    handle_cc_message(client, status, m, size);
                },
                None => {
                    proof {
                        assert(remaining.len() == q0.len() - t);
                        assert(false);
                    }
                },
            }
            t = t + 1;
        }
        proof {
            assert(q0.skip(n as int) =~= Seq::<(Message, usize)>::empty());
        }
        false
    }
}

} // verus!
