//! The Transport: owner of the link state. It resolves the local address,
//! applies the liveness and keep-alive policy, classifies and decodes
//! inbound datagrams, forwards decoded messages through the Delivery
//! Channel, and tallies outbound requests by kind.
//!
//! The socket itself lives outside this library: every method here is a
//! step of the state machine, taking the event (a datagram, the time) as
//! plain values and handing back the datagrams to transmit.

use vstd::prelude::*;

use crate::channel::{channel_contents, DeliveryChannel};
use crate::codec::{decode, encode_request, spec_decode, spec_enc_request, DecodeError};
use crate::net::{ConnectionEnd, ConnectionInfo, ConnectionInfoView, Identifier, IpAddress};
use crate::net::{SubscriberInfo, SubscriberInfoView};
use crate::protocol::{
    Message, Request, RequestType, RequestView, SmallMessage, ALL_MESSAGE_KINDS_MASK,
    MESSAGE_KIND_COUNT, REQUEST_KIND_COUNT,
};
use crate::sys::{device_name_bytes, local_ip_text, unix_time_seconds};
use crate::tally::{tally_bump, Tally};

verus! {

/// How long the peer may stay silent before a shutdown is presumed,
/// in milliseconds.
pub const LIVENESS_TIMEOUT_MS: u64 = 10_000;

/// How long the transport lets the link idle before it sends a keep-alive
/// ping, in milliseconds.
pub const PING_INTERVAL_MS: u64 = 600_000;

/// The transport and its state: the local endpoint, the link flags, the
/// two traffic tallies, the Delivery Channel, and the policy timers.
///
/// `active` belongs to the consumer side: it is set while decoded traffic
/// arrives and cleared by a shutdown message. `connected` says whether a
/// peer has been associated; `loop_running` whether the background receive
/// loop was started. The timers hold the time of the last keep-alive ping
/// and of the last received datagram; `shutdown_synthesized` remembers that
/// the current silence was already reported, so one sustained timeout
/// synthesizes exactly one shutdown message.
pub struct UdpClient {
    pub local: ConnectionInfo,
    pub active: bool,
    pub connected: bool,
    pub loop_running: bool,
    pub rx_message_tally: Tally,
    pub tx_message_tally: Tally,
    pub channel: DeliveryChannel,
    pub last_ping_ms: u64,
    pub last_recv_ms: u64,
    pub shutdown_synthesized: bool,
}

/// Whether the keep-alive ping is due at `now_ms`.
pub open spec fn ping_due(c: UdpClient, now_ms: u64) -> bool {
    now_ms > c.last_ping_ms + PING_INTERVAL_MS
}

/// Whether the peer has been silent past the liveness threshold at `now_ms`.
pub open spec fn silent_past_threshold(c: UdpClient, now_ms: u64) -> bool {
    now_ms > c.last_recv_ms + LIVENESS_TIMEOUT_MS
}

/// Whether a shutdown message is synthesized at `now_ms`: the peer is
/// silent past the threshold and this silence was not reported yet.
pub open spec fn synth_due(c: UdpClient, now_ms: u64) -> bool {
    silent_past_threshold(c, now_ms) && !c.shutdown_synthesized
}

impl UdpClient {
    /// Both tallies have one slot per kind.
    pub open spec fn wf(self) -> bool {
        &&& self.rx_message_tally@.len() == MESSAGE_KIND_COUNT
        &&& self.tx_message_tally@.len() == REQUEST_KIND_COUNT
    }

    /// A fresh transport: not connected, no loop, empty channel, zeroed
    /// tallies, a local endpoint with the unspecified address and the
    /// machine's device name as identifier.
    pub fn new() -> (c: UdpClient)
        ensures
            c.wf(),
            !c.active,
            !c.connected,
            !c.loop_running,
            !c.shutdown_synthesized,
            c.last_ping_ms == 0,
            c.last_recv_ms == 0,
            channel_contents(c.channel) == Seq::<(Message, usize)>::empty(),
            forall|i: int|
                0 <= i < MESSAGE_KIND_COUNT ==> c.rx_message_tally@[i] == (0usize, 0usize),
            forall|i: int|
                0 <= i < REQUEST_KIND_COUNT ==> c.tx_message_tally@[i] == (0usize, 0usize),
            c.local.end == ConnectionEnd::Local,
            c.local.address.addr == [0u8, 0u8, 0u8, 0u8],
            c.local.address.port == 0u16,
    {
        let identifier = match device_name_bytes() {
            Some(bytes) => Identifier::new(bytes),
            None => Identifier::empty(),
        };
        UdpClient {
            local: ConnectionInfo {
                end: ConnectionEnd::Local,
                address: IpAddress::new([0, 0, 0, 0], 0),
                identifier,
            },
            active: false,
            connected: false,
            loop_running: false,
            rx_message_tally: Tally::new(MESSAGE_KIND_COUNT),
            tx_message_tally: Tally::new(REQUEST_KIND_COUNT),
            channel: DeliveryChannel::new(),
            last_ping_ms: 0,
            last_recv_ms: 0,
            shutdown_synthesized: false,
        }
    }

    /// Starts the background receive loop, idempotently: on a transport
    /// that already has an associated peer this is a no-op and nothing
    /// changes. Otherwise the local address is re-resolved with an
    /// unspecified port, the policy timers start at `now_ms`, and the
    /// caller is told to bind the socket and spawn the loop.
    pub fn start(&mut self, now_ms: u64) -> (started: bool)
        requires
            old(self).wf(),
        ensures
            final(self).wf(),
            started == !old(self).connected,
            old(self).connected ==> *final(self) == *old(self),
            !old(self).connected ==> {
                &&& final(self).loop_running
                &&& final(self).last_ping_ms == now_ms
                &&& final(self).last_recv_ms == now_ms
                &&& !final(self).shutdown_synthesized
                &&& final(self).local.end == old(self).local.end
                &&& final(self).local.identifier == old(self).local.identifier
                &&& final(self).local.address.port == 0u16
                &&& final(self).active == old(self).active
                &&& final(self).connected == old(self).connected
                &&& final(self).rx_message_tally@ == old(self).rx_message_tally@
                &&& final(self).tx_message_tally@ == old(self).tx_message_tally@
                &&& channel_contents(final(self).channel) == channel_contents(old(self).channel)
            },
    {
        if self.connected {
            return false;
        }
        let discovered = match local_ip_text() {
            Some(text) => match crate::net::parse_ipv4(text.as_slice()) {
                Some(octets) => IpAddress::new(octets, 0),
                None => IpAddress::new([0, 0, 0, 0], 0),
            },
            None => IpAddress::new([0, 0, 0, 0], 0),
        };
        self.local.address = discovered;
        self.loop_running = true;
        self.last_ping_ms = now_ms;
        self.last_recv_ms = now_ms;
        self.shutdown_synthesized = false;
        true
    }

    /// After the socket is bound, records the port the system picked.
    pub fn set_local_port(&mut self, port: u16)
        requires
            old(self).wf(),
        ensures
            final(self).wf(),
            final(self).local.address.port == port,
            final(self).local.address.addr == old(self).local.address.addr,
            final(self).local.end == old(self).local.end,
            final(self).local.identifier == old(self).local.identifier,
            final(self).active == old(self).active,
            final(self).connected == old(self).connected,
            final(self).loop_running == old(self).loop_running,
            final(self).shutdown_synthesized == old(self).shutdown_synthesized,
            final(self).last_ping_ms == old(self).last_ping_ms,
            final(self).last_recv_ms == old(self).last_recv_ms,
            final(self).rx_message_tally@ == old(self).rx_message_tally@,
            final(self).tx_message_tally@ == old(self).tx_message_tally@,
            channel_contents(final(self).channel) == channel_contents(old(self).channel),
    {
        self.local.address.port = port;
    }

    /// Encodes an outbound request and tallies it: the sent-tally slot of
    /// the request's kind is bumped by (one item, the encoded byte length)
    /// and no other slot moves. The returned datagram is what the caller
    /// transmits over the connected socket.
    pub fn send_msg(&mut self, msg: Request) -> (datagram: Vec<u8>)
        requires
            old(self).wf(),
        ensures
            final(self).wf(),
            datagram@ == spec_enc_request(msg@),
            final(self).tx_message_tally@ == old(self).tx_message_tally@.update(
                msg@.kind().spec_index(),
                tally_bump(
                    old(self).tx_message_tally@[msg@.kind().spec_index()],
                    datagram@.len() as usize,
                ),
            ),
            final(self).local == old(self).local,
            final(self).active == old(self).active,
            final(self).connected == old(self).connected,
            final(self).loop_running == old(self).loop_running,
            final(self).shutdown_synthesized == old(self).shutdown_synthesized,
            final(self).last_ping_ms == old(self).last_ping_ms,
            final(self).last_recv_ms == old(self).last_recv_ms,
            final(self).rx_message_tally@ == old(self).rx_message_tally@,
            channel_contents(final(self).channel) == channel_contents(old(self).channel),
    {
        let datagram = encode_request(&msg);
        let idx = msg.to_type().index();
        self.tx_message_tally.record(idx, datagram.len());
        datagram
    }

    /// Associates the remote peer and prepares the opening `Subscribe`
    /// request, stamped `now_secs`, asking for every message kind on behalf
    /// of the local endpoint. Returns the remote endpoint's record and the
    /// datagram to transmit; the subscription is tallied as sent.
    pub fn connect_at(&mut self, identifier: Identifier, address: IpAddress, now_secs: u64) -> (r: (
        ConnectionInfo,
        Vec<u8>,
    ))
        requires
            old(self).wf(),
        ensures
            final(self).wf(),
            final(self).connected,
            r.0@ == (ConnectionInfoView {
                end: ConnectionEnd::Remote,
                address: address,
                identifier: Seq::<u8>::empty(),
            }),
            r.1@ == spec_enc_request(
                RequestView::Subscribe(
                    SubscriberInfoView {
                        identifier: identifier@,
                        address: old(self).local.address,
                        message_kinds: ALL_MESSAGE_KINDS_MASK,
                        last_contact: now_secs,
                    },
                ),
            ),
            final(self).tx_message_tally@ == old(self).tx_message_tally@.update(
                RequestType::Subscribe.spec_index(),
                tally_bump(
                    old(self).tx_message_tally@[RequestType::Subscribe.spec_index()],
                    r.1@.len() as usize,
                ),
            ),
            final(self).local == old(self).local,
            final(self).active == old(self).active,
            final(self).loop_running == old(self).loop_running,
            final(self).shutdown_synthesized == old(self).shutdown_synthesized,
            final(self).last_ping_ms == old(self).last_ping_ms,
            final(self).last_recv_ms == old(self).last_recv_ms,
            final(self).rx_message_tally@ == old(self).rx_message_tally@,
            channel_contents(final(self).channel) == channel_contents(old(self).channel),
    {
        self.connected = true;
        let subscription = SubscriberInfo {
            identifier,
            address: self.local.address,
            message_kinds: ALL_MESSAGE_KINDS_MASK,
            last_contact: now_secs,
        };
        let datagram = self.send_msg(Request::Subscribe(subscription));
        let remote = ConnectionInfo {
            end: ConnectionEnd::Remote,
            address,
            identifier: Identifier::empty(),
        };
        (remote, datagram)
    }

    /// `connect_at` stamped with the clock: the subscription carries the
    /// current time, whatever the clock returns.
    pub fn connect(&mut self, identifier: Identifier, address: IpAddress) -> (r: (
        ConnectionInfo,
        Vec<u8>,
    ))
        requires
            old(self).wf(),
        ensures
            final(self).wf(),
            final(self).connected,
            r.0@ == (ConnectionInfoView {
                end: ConnectionEnd::Remote,
                address: address,
                identifier: Seq::<u8>::empty(),
            }),
            exists|now_secs: u64|
                r.1@ == #[trigger] spec_enc_request(
                    RequestView::Subscribe(
                        SubscriberInfoView {
                            identifier: identifier@,
                            address: old(self).local.address,
                            message_kinds: ALL_MESSAGE_KINDS_MASK,
                            last_contact: now_secs,
                        },
                    ),
                ),
            final(self).tx_message_tally@ == old(self).tx_message_tally@.update(
                RequestType::Subscribe.spec_index(),
                tally_bump(
                    old(self).tx_message_tally@[RequestType::Subscribe.spec_index()],
                    r.1@.len() as usize,
                ),
            ),
            final(self).local == old(self).local,
            final(self).active == old(self).active,
            final(self).loop_running == old(self).loop_running,
            final(self).shutdown_synthesized == old(self).shutdown_synthesized,
            final(self).last_ping_ms == old(self).last_ping_ms,
            final(self).last_recv_ms == old(self).last_recv_ms,
            final(self).rx_message_tally@ == old(self).rx_message_tally@,
            channel_contents(final(self).channel) == channel_contents(old(self).channel),
    {
        let now_secs = unix_time_seconds();
        self.connect_at(identifier, address, now_secs)
    }

    /// One pass of the receive loop's policy checks, taken before each
    /// blocking receive.
    ///
    /// If the link has idled past the keep-alive interval, the ping timer
    /// resets and a `Ping` datagram is returned for anonymous transmission;
    /// by design that send bypasses the tallies. If the peer has been
    /// silent past the liveness threshold and this silence was not yet
    /// reported, exactly one synthesized shutdown message is enqueued, with
    /// a nominal wire size of one byte; the loop keeps running either way.
    pub fn loop_tick(&mut self, now_ms: u64) -> (ping: Option<Vec<u8>>)
        requires
            old(self).wf(),
        ensures
            final(self).wf(),
            ping is Some <==> ping_due(*old(self), now_ms),
            (match ping {
                Some(d) => d@ == spec_enc_request(RequestView::Ping),
                None => true,
            }),
            final(self).last_ping_ms == if ping_due(*old(self), now_ms) {
                now_ms
            } else {
                old(self).last_ping_ms
            },
            channel_contents(final(self).channel) == if synth_due(*old(self), now_ms) {
                channel_contents(old(self).channel).push(
                    (Message::Small(SmallMessage::ShutdownOccured), 1usize),
                )
            } else {
                channel_contents(old(self).channel)
            },
            final(self).shutdown_synthesized == (old(self).shutdown_synthesized
                || silent_past_threshold(*old(self), now_ms)),
            final(self).last_recv_ms == old(self).last_recv_ms,
            final(self).local == old(self).local,
            final(self).active == old(self).active,
            final(self).connected == old(self).connected,
            final(self).loop_running == old(self).loop_running,
            final(self).rx_message_tally@ == old(self).rx_message_tally@,
            final(self).tx_message_tally@ == old(self).tx_message_tally@,
    {
        let ping = if now_ms > PING_INTERVAL_MS && now_ms - PING_INTERVAL_MS > self.last_ping_ms {
            self.last_ping_ms = now_ms;
            Some(encode_request(&Request::Ping))
        } else {
            None
        };
        if now_ms > LIVENESS_TIMEOUT_MS && now_ms - LIVENESS_TIMEOUT_MS > self.last_recv_ms {
            if !self.shutdown_synthesized {
                self.channel.push(Message::Small(SmallMessage::ShutdownOccured), 1);
                self.shutdown_synthesized = true;
            }
        }
        ping
    }

    /// Takes one received datagram: the receive timestamp refreshes and any
    /// reported silence is forgotten, whatever the bytes hold. A decoded
    /// message is enqueued with the datagram's byte length; an unrecognized
    /// tag or a malformed payload leaves the channel and every tally
    /// untouched and reports the reason, so the loop can log and drop the
    /// frame and keep running.
    pub fn on_datagram(&mut self, datagram: &[u8], packet_len: usize, now_ms: u64) -> (r: Result<
        (),
        DecodeError,
    >)
        requires
            old(self).wf(),
        ensures
            final(self).wf(),
            final(self).last_recv_ms == now_ms,
            !final(self).shutdown_synthesized,
            (match spec_decode(datagram@) {
                Ok(mv) => {
                    &&& r is Ok
                    &&& channel_contents(final(self).channel).len() == channel_contents(
                        old(self).channel,
                    ).len() + 1
                    &&& channel_contents(final(self).channel).drop_last() == channel_contents(
                        old(self).channel,
                    )
                    &&& channel_contents(final(self).channel).last().0@ == mv
                    &&& channel_contents(final(self).channel).last().1 == packet_len
                },
                Err(e) => r == Err::<(), DecodeError>(e) && channel_contents(final(self).channel)
                    == channel_contents(old(self).channel),
            }),
            final(self).local == old(self).local,
            final(self).active == old(self).active,
            final(self).connected == old(self).connected,
            final(self).loop_running == old(self).loop_running,
            final(self).last_ping_ms == old(self).last_ping_ms,
            final(self).rx_message_tally@ == old(self).rx_message_tally@,
            final(self).tx_message_tally@ == old(self).tx_message_tally@,
    {
        self.last_recv_ms = now_ms;
        self.shutdown_synthesized = false;
        match decode(datagram) {
            Ok(m) => {
                let ghost before = channel_contents(self.channel);
                self.channel.push(m, packet_len);
                proof {
                    assert(channel_contents(self.channel).drop_last() =~= before);
                }
                Ok(())
            },
            Err(e) => Err(e),
        }
    }
}

/// After a tick that synthesized the shutdown message, a later tick with no
/// datagram received in between synthesizes nothing: one sustained-timeout
/// period yields exactly one synthesized shutdown.
pub proof fn lemma_one_shutdown_per_outage(before: UdpClient, after: UdpClient, t1: u64, t2: u64)
    requires
        synth_due(before, t1),
        after.shutdown_synthesized == (before.shutdown_synthesized || silent_past_threshold(
            before,
            t1,
        )),
        after.last_recv_ms == before.last_recv_ms,
    ensures
        !synth_due(after, t2),
{
}

} // verus!
