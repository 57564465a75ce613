//! The in-memory protocol model: the two payload categories routed by the
//! transport, the outbound request sum type, and the kind enums that key the
//! traffic tallies.

use vstd::prelude::*;

use crate::net::{ConnectionInfo, Identifier, SubscriberInfo, SubscriberInfoView};

verus! {

/// How many message kinds exist; message-kind indices lie below this.
pub const MESSAGE_KIND_COUNT: usize = 10;

/// How many request kinds exist; request-kind indices lie below this.
pub const REQUEST_KIND_COUNT: usize = 9;

/// Bitmask with one bit set per message kind (bits 0 through 9).
pub const ALL_MESSAGE_KINDS_MASK: u16 = 0x3FF;

/// Most channels a configuration can carry.
pub const MAX_CHANNELS: usize = 32;

/// Most subscribers a network status report can carry.
pub const MAX_SUBSCRIBERS: usize = 255;

/// A position on the timecode clock.
#[derive(Debug, Clone, Copy, PartialEq, Eq, Structural)]
pub struct Timecode {
    pub hours: u8,
    pub minutes: u8,
    pub seconds: u8,
    pub frames: u8,
}

/// Transport (playback) state of the remote host.
#[derive(Debug, Clone, Copy, PartialEq, Eq, Structural)]
pub struct TransportStatus {
    pub running: bool,
    pub vlt: bool,
    pub playrate_percent: u8,
    pub ltc: Timecode,
}

/// Musical position of the remote host.
#[derive(Debug, Clone, Copy, PartialEq, Eq, Structural)]
pub struct BeatStatus {
    pub bar: u32,
    pub beat: u8,
}

/// Periodic liveness report carrying the sender's clock
/// (seconds since the Unix epoch).
#[derive(Debug, Clone, Copy, PartialEq, Eq, Structural)]
pub struct Heartbeat {
    pub timestamp: u64,
}

/// The currently loaded cue.
#[derive(Debug, Clone, PartialEq, Eq)]
pub struct CueData {
    pub index: u32,
    pub name: Identifier,
}

/// The currently loaded show.
#[derive(Debug, Clone, PartialEq, Eq)]
pub struct ShowData {
    pub name: Identifier,
    pub cue_count: u32,
}

/// State of the remote audio engine.
#[derive(Debug, Clone, Copy, PartialEq, Eq, Structural)]
pub struct JackStatus {
    pub running: bool,
    pub sample_rate: u32,
    pub xruns: u32,
}

/// The subscribers currently known to the remote host.
#[derive(Debug, PartialEq, Eq)]
pub struct NetworkStatus {
    subscribers: Vec<SubscriberInfo>,
}

impl View for NetworkStatus {
    type V = Seq<SubscriberInfoView>;

    closed spec fn view(&self) -> Seq<SubscriberInfoView> {
        Seq::new(self.subscribers@.len(), |i: int| self.subscribers@[i]@)
    }
}

impl NetworkStatus {
    /// Type invariant: the subscriber list stays within the declared bound.
    #[verifier::type_invariant]
    pub open spec fn wf(self) -> bool {
        self@.len() <= MAX_SUBSCRIBERS
    }

    /// Builds a report from a subscriber list, keeping only the first
    /// `MAX_SUBSCRIBERS` entries of longer lists.
    pub fn new(subscribers: Vec<SubscriberInfo>) -> (r: NetworkStatus)
        ensures
            r@.len() == if subscribers@.len() <= MAX_SUBSCRIBERS {
                subscribers@.len()
            } else {
                MAX_SUBSCRIBERS as nat
            },
            forall|i: int| 0 <= i < r@.len() ==> r@[i] == subscribers@[i]@,
    {
        let mut subscribers = subscribers;
        subscribers.truncate(MAX_SUBSCRIBERS);
        NetworkStatus { subscribers }
    }

    pub fn subscribers(&self) -> (r: &Vec<SubscriberInfo>)
        ensures
            r@.len() == self@.len(),
            forall|i: int| 0 <= i < r@.len() ==> r@[i]@ == self@[i],
    {
        &self.subscribers
    }

    pub fn len(&self) -> (r: usize)
        ensures
            r == self@.len(),
    {
        proof {
            use_type_invariant(self);
        }
        self.subscribers.len()
    }
}

/// Channel configuration of the remote host: one gain value per channel,
/// index-aligned to the channel index.
#[derive(Debug, PartialEq, Eq)]
pub struct Configuration {
    channel_gains: Vec<u16>,
}

impl View for Configuration {
    type V = Seq<u16>;

    closed spec fn view(&self) -> Seq<u16> {
        self.channel_gains@
    }
}

impl Configuration {
    /// Type invariant: the gain list stays within the declared channel bound.
    #[verifier::type_invariant]
    pub open spec fn wf(self) -> bool {
        self@.len() <= MAX_CHANNELS
    }

    /// Builds a configuration from per-channel gains, keeping only the first
    /// `MAX_CHANNELS` entries of longer lists.
    pub fn new(channel_gains: Vec<u16>) -> (r: Configuration)
        ensures
            r@ == if channel_gains@.len() <= MAX_CHANNELS {
                channel_gains@
            } else {
                channel_gains@.subrange(0, MAX_CHANNELS as int)
            },
    {
        let mut channel_gains = channel_gains;
        channel_gains.truncate(MAX_CHANNELS);
        Configuration { channel_gains }
    }

    pub fn channel_gains(&self) -> (r: &Vec<u16>)
        ensures
            r@ == self@,
    {
        &self.channel_gains
    }

    pub fn len(&self) -> (r: usize)
        ensures
            r == self@.len(),
    {
        proof {
            use_type_invariant(self);
        }
        self.channel_gains.len()
    }
}

/// Payloads of the large category: infrequent, larger state snapshots.
#[derive(Debug, PartialEq, Eq)]
pub enum LargeMessage {
    CueData(CueData),
    ShowData(ShowData),
    NetworkChanged(NetworkStatus),
    JACKStateChanged(JackStatus),
    ConfigurationChanged(Configuration),
}

/// Payloads of the small category: frequent, compact deltas and heartbeats.
/// `ShutdownOccured` can also be synthesized locally on a liveness timeout.
#[derive(Debug, Clone, Copy, PartialEq, Eq)]
pub enum SmallMessage {
    TransportData(TransportStatus),
    TimecodeData(Timecode),
    BeatData(BeatStatus),
    ShutdownOccured,
    Heartbeat(Heartbeat),
}

/// A decoded inbound message: one of the two payload categories.
#[derive(Debug, PartialEq, Eq)]
pub enum Message {
    Large(LargeMessage),
    Small(SmallMessage),
}

/// Mathematical model of a `CueData`.
pub struct CueDataView {
    pub index: u32,
    pub name: Seq<u8>,
}

impl View for CueData {
    type V = CueDataView;

    open spec fn view(&self) -> CueDataView {
        CueDataView { index: self.index, name: self.name@ }
    }
}

/// Mathematical model of a `ShowData`.
pub struct ShowDataView {
    pub name: Seq<u8>,
    pub cue_count: u32,
}

impl View for ShowData {
    type V = ShowDataView;

    open spec fn view(&self) -> ShowDataView {
        ShowDataView { name: self.name@, cue_count: self.cue_count }
    }
}

/// Mathematical model of a `LargeMessage`.
pub enum LargeMessageView {
    CueData(CueDataView),
    ShowData(ShowDataView),
    NetworkChanged(Seq<SubscriberInfoView>),
    JACKStateChanged(JackStatus),
    ConfigurationChanged(Seq<u16>),
}

impl View for LargeMessage {
    type V = LargeMessageView;

    open spec fn view(&self) -> LargeMessageView {
        match self {
            LargeMessage::CueData(c) => LargeMessageView::CueData(c@),
            LargeMessage::ShowData(s) => LargeMessageView::ShowData(s@),
            LargeMessage::NetworkChanged(n) => LargeMessageView::NetworkChanged(n@),
            LargeMessage::JACKStateChanged(j) => LargeMessageView::JACKStateChanged(*j),
            LargeMessage::ConfigurationChanged(c) => LargeMessageView::ConfigurationChanged(c@),
        }
    }
}

/// Mathematical model of a `Message`. Small payloads carry no hidden
/// state, so they stand for themselves.
pub enum MessageView {
    Large(LargeMessageView),
    Small(SmallMessage),
}

impl View for Message {
    type V = MessageView;

    open spec fn view(&self) -> MessageView {
        match self {
            Message::Large(l) => MessageView::Large(l@),
            Message::Small(s) => MessageView::Small(*s),
        }
    }
}

/// Mathematical model of a `Request`.
pub enum RequestView {
    Subscribe(crate::net::SubscriberInfoView),
    Unsubscribe(crate::net::ConnectionInfoView),
    Ping,
    Shutdown,
    Initialize,
    ControlAction(ControlAction),
    ChangeConfiguration(Seq<u16>),
    ChangeRouting(RoutingChange),
}

impl View for Request {
    type V = RequestView;

    open spec fn view(&self) -> RequestView {
        match self {
            Request::Subscribe(s) => RequestView::Subscribe(s@),
            Request::Unsubscribe(c) => RequestView::Unsubscribe(c@),
            Request::Ping => RequestView::Ping,
            Request::Shutdown => RequestView::Shutdown,
            Request::Initialize => RequestView::Initialize,
            Request::ControlAction(a) => RequestView::ControlAction(*a),
            Request::ChangeConfiguration(c) => RequestView::ChangeConfiguration(c@),
            Request::ChangeRouting(r) => RequestView::ChangeRouting(*r),
        }
    }
}

impl LargeMessageView {
    /// Bounds that every value decoded from or encoded to the wire satisfies.
    pub open spec fn wf(self) -> bool {
        match self {
            LargeMessageView::CueData(c) => crate::net::identifier_wf(c.name),
            LargeMessageView::ShowData(s) => crate::net::identifier_wf(s.name),
            LargeMessageView::NetworkChanged(subs) => subs.len() <= MAX_SUBSCRIBERS
                && forall|i: int| 0 <= i < subs.len() ==> (#[trigger] subs[i]).wf(),
            LargeMessageView::JACKStateChanged(_) => true,
            LargeMessageView::ConfigurationChanged(gains) => gains.len() <= MAX_CHANNELS,
        }
    }
}

impl MessageView {
    /// Bounds that every value decoded from or encoded to the wire satisfies.
    pub open spec fn wf(self) -> bool {
        match self {
            MessageView::Large(l) => l.wf(),
            MessageView::Small(_) => true,
        }
    }

    /// The kind of the modeled message; agrees with `Message::to_type`.
    pub open spec fn kind(self) -> MessageType {
        match self {
            MessageView::Large(LargeMessageView::CueData(_)) => MessageType::CueData,
            MessageView::Large(LargeMessageView::ShowData(_)) => MessageType::ShowData,
            MessageView::Large(LargeMessageView::NetworkChanged(_)) => MessageType::NetworkChanged,
            MessageView::Large(LargeMessageView::JACKStateChanged(_)) => MessageType::JACKStateChanged,
            MessageView::Large(LargeMessageView::ConfigurationChanged(_)) => MessageType::ConfigurationChanged,
            MessageView::Small(SmallMessage::TransportData(_)) => MessageType::TransportData,
            MessageView::Small(SmallMessage::TimecodeData(_)) => MessageType::TimecodeData,
            MessageView::Small(SmallMessage::BeatData(_)) => MessageType::BeatData,
            MessageView::Small(SmallMessage::ShutdownOccured) => MessageType::ShutdownOccured,
            MessageView::Small(SmallMessage::Heartbeat(_)) => MessageType::Heartbeat,
        }
    }
}

impl RequestView {
    /// Bounds that every encodable request satisfies.
    pub open spec fn wf(self) -> bool {
        match self {
            RequestView::Subscribe(s) => s.wf(),
            RequestView::Unsubscribe(c) => c.wf(),
            RequestView::ChangeConfiguration(gains) => gains.len() <= MAX_CHANNELS,
            _ => true,
        }
    }

    /// The kind of the modeled request; agrees with `Request::to_type`.
    pub open spec fn kind(self) -> RequestType {
        match self {
            RequestView::Subscribe(_) => RequestType::Subscribe,
            RequestView::Unsubscribe(_) => RequestType::Unsubscribe,
            RequestView::Ping => RequestType::Ping,
            RequestView::Shutdown => RequestType::Shutdown,
            RequestView::Initialize => RequestType::Initialize,
            RequestView::ControlAction(_) => RequestType::ControlCommand,
            RequestView::ChangeConfiguration(_) => RequestType::SetConfiguration,
            RequestView::ChangeRouting(_) => RequestType::RoutingChange,
        }
    }
}

/// The kind of an inbound message, used to key the received-traffic tally
/// and the subscription bitmask.
#[derive(Debug, Clone, Copy, PartialEq, Eq, Hash, Structural)]
pub enum MessageType {
    CueData,
    ShowData,
    TransportData,
    TimecodeData,
    BeatData,
    NetworkChanged,
    JACKStateChanged,
    ConfigurationChanged,
    ShutdownOccured,
    Heartbeat,
}

impl MessageType {
    /// The tally slot and bitmask bit of this kind.
    pub open spec fn spec_index(self) -> int {
        match self {
            MessageType::CueData => 0,
            MessageType::ShowData => 1,
            MessageType::TransportData => 2,
            MessageType::TimecodeData => 3,
            MessageType::BeatData => 4,
            MessageType::NetworkChanged => 5,
            MessageType::JACKStateChanged => 6,
            MessageType::ConfigurationChanged => 7,
            MessageType::ShutdownOccured => 8,
            MessageType::Heartbeat => 9,
        }
    }

    pub fn index(self) -> (r: usize)
        ensures
            r == self.spec_index(),
            r < MESSAGE_KIND_COUNT,
    {
        match self {
            MessageType::CueData => 0,
            MessageType::ShowData => 1,
            MessageType::TransportData => 2,
            MessageType::TimecodeData => 3,
            MessageType::BeatData => 4,
            MessageType::NetworkChanged => 5,
            MessageType::JACKStateChanged => 6,
            MessageType::ConfigurationChanged => 7,
            MessageType::ShutdownOccured => 8,
            MessageType::Heartbeat => 9,
        }
    }
}

impl Message {
    /// The kind of this message.
    pub open spec fn spec_to_type(self) -> MessageType {
        match self {
            Message::Large(LargeMessage::CueData(_)) => MessageType::CueData,
            Message::Large(LargeMessage::ShowData(_)) => MessageType::ShowData,
            Message::Large(LargeMessage::NetworkChanged(_)) => MessageType::NetworkChanged,
            Message::Large(LargeMessage::JACKStateChanged(_)) => MessageType::JACKStateChanged,
            Message::Large(LargeMessage::ConfigurationChanged(_)) => MessageType::ConfigurationChanged,
            Message::Small(SmallMessage::TransportData(_)) => MessageType::TransportData,
            Message::Small(SmallMessage::TimecodeData(_)) => MessageType::TimecodeData,
            Message::Small(SmallMessage::BeatData(_)) => MessageType::BeatData,
            Message::Small(SmallMessage::ShutdownOccured) => MessageType::ShutdownOccured,
            Message::Small(SmallMessage::Heartbeat(_)) => MessageType::Heartbeat,
        }
    }

    pub fn to_type(&self) -> (r: MessageType)
        ensures
            r == self.spec_to_type(),
    {
        match self {
            Message::Large(LargeMessage::CueData(_)) => MessageType::CueData,
            Message::Large(LargeMessage::ShowData(_)) => MessageType::ShowData,
            Message::Large(LargeMessage::NetworkChanged(_)) => MessageType::NetworkChanged,
            Message::Large(LargeMessage::JACKStateChanged(_)) => MessageType::JACKStateChanged,
            Message::Large(LargeMessage::ConfigurationChanged(_)) => MessageType::ConfigurationChanged,
            Message::Small(SmallMessage::TransportData(_)) => MessageType::TransportData,
            Message::Small(SmallMessage::TimecodeData(_)) => MessageType::TimecodeData,
            Message::Small(SmallMessage::BeatData(_)) => MessageType::BeatData,
            Message::Small(SmallMessage::ShutdownOccured) => MessageType::ShutdownOccured,
            Message::Small(SmallMessage::Heartbeat(_)) => MessageType::Heartbeat,
        }
    }
}

/// How the jump ("variable-length transport") mode should change.
#[derive(Debug, Clone, Copy, PartialEq, Eq, Structural)]
pub enum JumpModeChange {
    Toggle,
    On,
    Off,
}

/// A transport or cue control command.
#[derive(Debug, Clone, Copy, PartialEq, Eq, Structural)]
pub enum ControlAction {
    TransportStart,
    TransportStop,
    TransportZero,
    LoadNextCue,
    LoadPreviousCue,
    ChangeJumpMode(JumpModeChange),
    ChangePlayrate(u8),
}

/// One edit of the audio routing matrix.
#[derive(Debug, Clone, Copy, PartialEq, Eq, Structural)]
pub struct RoutingChange {
    pub source: u8,
    pub destination: u8,
    pub connected: bool,
}

/// An outbound request to the remote host.
#[derive(Debug, PartialEq, Eq)]
pub enum Request {
    Subscribe(SubscriberInfo),
    Unsubscribe(ConnectionInfo),
    Ping,
    Shutdown,
    Initialize,
    ControlAction(ControlAction),
    ChangeConfiguration(Configuration),
    ChangeRouting(RoutingChange),
}

/// The kind of an outbound request, used to key the sent-traffic tally.
/// `NotifySubscribers` is a host-side kind: no request of this client maps
/// to it, but the tally keeps a slot for it.
#[derive(Debug, Clone, Copy, PartialEq, Eq, Hash, Structural)]
pub enum RequestType {
    ControlCommand,
    Initialize,
    NotifySubscribers,
    Ping,
    RoutingChange,
    SetConfiguration,
    Shutdown,
    Subscribe,
    Unsubscribe,
}

impl RequestType {
    /// The tally slot of this kind.
    pub open spec fn spec_index(self) -> int {
        match self {
            RequestType::ControlCommand => 0,
            RequestType::Initialize => 1,
            RequestType::NotifySubscribers => 2,
            RequestType::Ping => 3,
            RequestType::RoutingChange => 4,
            RequestType::SetConfiguration => 5,
            RequestType::Shutdown => 6,
            RequestType::Subscribe => 7,
            RequestType::Unsubscribe => 8,
        }
    }

    pub fn index(self) -> (r: usize)
        ensures
            r == self.spec_index(),
            r < REQUEST_KIND_COUNT,
    {
        match self {
            RequestType::ControlCommand => 0,
            RequestType::Initialize => 1,
            RequestType::NotifySubscribers => 2,
            RequestType::Ping => 3,
            RequestType::RoutingChange => 4,
            RequestType::SetConfiguration => 5,
            RequestType::Shutdown => 6,
            RequestType::Subscribe => 7,
            RequestType::Unsubscribe => 8,
        }
    }
}

impl Request {
    /// The kind of this request.
    pub open spec fn spec_to_type(self) -> RequestType {
        match self {
            Request::Subscribe(_) => RequestType::Subscribe,
            Request::Unsubscribe(_) => RequestType::Unsubscribe,
            Request::Ping => RequestType::Ping,
            Request::Shutdown => RequestType::Shutdown,
            Request::Initialize => RequestType::Initialize,
            Request::ControlAction(_) => RequestType::ControlCommand,
            Request::ChangeConfiguration(_) => RequestType::SetConfiguration,
            Request::ChangeRouting(_) => RequestType::RoutingChange,
        }
    }

    pub fn to_type(&self) -> (r: RequestType)
        ensures
            r == self.spec_to_type(),
    {
        match self {
            Request::Subscribe(_) => RequestType::Subscribe,
            Request::Unsubscribe(_) => RequestType::Unsubscribe,
            Request::Ping => RequestType::Ping,
            Request::Shutdown => RequestType::Shutdown,
            Request::Initialize => RequestType::Initialize,
            Request::ControlAction(_) => RequestType::ControlCommand,
            Request::ChangeConfiguration(_) => RequestType::SetConfiguration,
            Request::ChangeRouting(_) => RequestType::RoutingChange,
        }
    }
}

} // verus!
