//! The decisions of the task that talks to one host.
//!
//! The task holds a control connection, over which requests go out and rare
//! updates come in, and a datagram socket for the frequent updates. It waits
//! for whichever has something, and hands the updates on through a bounded
//! channel. What to do with each thing that happens is decided here.

use crate::channel::{SendOutcome, WarnLimiter};
use crate::telemetry::{FieldDimensions, TeamInfo, VisualizationUpdate, WorldState};
use vstd::prelude::*;
use vstd::std_specs::convert::FromSpecImpl;

verus! {

/// The name of one overlay.
#[derive(Debug, PartialEq, Eq)]
pub struct VisMapping {
    pub id: u32,
    pub name: String,
}

/// The overlays that a host offers.
#[derive(Debug, PartialEq, Eq)]
pub struct VisMappings {
    pub mapping: Vec<VisMapping>,
}

/// The teams as a host reports them.
#[derive(Debug, PartialEq, Eq)]
pub struct GameStateUpdate {
    pub yellow_team: Option<TeamInfo>,
    pub blue_team: Option<TeamInfo>,
}

/// What a message of the control connection holds.
#[derive(Debug, PartialEq, Eq)]
pub enum WsContent {
    Geom(FieldDimensions),
    GameState(GameStateUpdate),
    VisMappings(VisMappings),
}

/// What a datagram holds.
#[derive(Debug, PartialEq, Eq)]
pub enum UdpContent {
    WorldState(WorldState),
    VisUpdate(VisualizationUpdate),
}

/// An update from a host, whichever way it came.
#[derive(Debug, PartialEq, Eq)]
pub enum UpdatePacket {
    FieldGeom(FieldDimensions),
    GameState(GameStateUpdate),
    VisMappings(VisMappings),
    WorldState(WorldState),
    VisualizationUpdate(VisualizationUpdate),
}

/// The update that a message of the control connection holds.
pub open spec fn control_update(packet: WsContent) -> UpdatePacket {
    match packet {
        WsContent::Geom(inner) => UpdatePacket::FieldGeom(inner),
        WsContent::GameState(inner) => UpdatePacket::GameState(inner),
        WsContent::VisMappings(inner) => UpdatePacket::VisMappings(inner),
    }
}

/// The update that a datagram holds.
pub open spec fn datagram_update(packet: UdpContent) -> UpdatePacket {
    match packet {
        UdpContent::WorldState(inner) => UpdatePacket::WorldState(inner),
        UdpContent::VisUpdate(inner) => UpdatePacket::VisualizationUpdate(inner),
    }
}

impl From<WsContent> for UpdatePacket {
    fn from(packet: WsContent) -> (r: UpdatePacket) {
        match packet {
            WsContent::Geom(inner) => UpdatePacket::FieldGeom(inner),
            WsContent::GameState(inner) => UpdatePacket::GameState(inner),
            WsContent::VisMappings(inner) => UpdatePacket::VisMappings(inner),
        }
    }
}

impl FromSpecImpl<WsContent> for UpdatePacket {
    open spec fn obeys_from_spec() -> bool {
        true
    }

    open spec fn from_spec(packet: WsContent) -> UpdatePacket {
        control_update(packet)
    }
}

impl From<UdpContent> for UpdatePacket {
    fn from(packet: UdpContent) -> (r: UpdatePacket) {
        match packet {
            UdpContent::WorldState(inner) => UpdatePacket::WorldState(inner),
            UdpContent::VisUpdate(inner) => UpdatePacket::VisualizationUpdate(inner),
        }
    }
}

impl FromSpecImpl<UdpContent> for UpdatePacket {
    open spec fn obeys_from_spec() -> bool {
        true
    }

    open spec fn from_spec(packet: UdpContent) -> UpdatePacket {
        datagram_update(packet)
    }
}

/// The request to stream updates to a datagram port.
#[derive(Clone, Copy, Debug, PartialEq, Eq)]
pub struct UdpStreamRequest {
    pub port: u32,
}

/// The request for the overlays with the given ids.
#[derive(Debug, PartialEq, Eq)]
pub struct DataRequest {
    pub visualization_id: Vec<u32>,
}

/// What a request to a host holds.
#[derive(Debug, PartialEq, Eq)]
pub enum RequestContent {
    UdpStreamReq(UdpStreamRequest),
    DataReq(DataRequest),
}

/// What came out of decoding a payload.
#[derive(Debug, PartialEq, Eq)]
pub enum Decoded<T> {
    /// The payload does not follow the schema.
    Malformed,
    /// The payload follows the schema and holds nothing.
    Empty,
    /// The payload holds this.
    Content(T),
}

/// A message of the control connection, by its kind.
#[derive(Debug, PartialEq, Eq)]
pub enum WsFrame {
    Text,
    Binary(Decoded<WsContent>),
    Ping,
    Pong,
    Close,
}

/// What happened while the task waited.
#[derive(Debug, PartialEq, Eq)]
pub enum IoEvent {
    /// The consumer asks for a request to be sent.
    Request(RequestContent),
    /// A message came in over the control connection.
    Control(WsFrame),
    /// The control connection failed.
    ControlFailed,
    /// A datagram came in.
    Datagram(Decoded<UdpContent>),
    /// A receive on the datagram socket failed.
    ReceiveFailed,
    /// The channel was given an update at time `now`.
    Forwarded { outcome: SendOutcome, now: u64 },
}

/// Something that is worth a line in the log and nothing else.
#[derive(Clone, Copy, Debug, PartialEq, Eq)]
pub enum Notice {
    /// The host sent text, which this protocol has no use for.
    UnexpectedText,
    /// The host answered a ping that nobody sent.
    UnexpectedPong,
    /// The host wants to close the connection.
    CloseRequested,
    /// A payload followed the schema and held nothing.
    EmptyPacket,
    /// A payload did not follow the schema: it is dropped.
    MalformedPacket,
    /// A receive failed: the next one may succeed.
    ReceiveFailed,
    /// The consumer does not keep up: an update was dropped.
    ChannelFull,
}

/// Why a task ends.
#[derive(Clone, Copy, Debug, PartialEq, Eq)]
pub enum StopReason {
    /// The control connection failed.
    NetworkError,
    /// The consumer is gone.
    ReceiverDropped,
}

/// What the task is to do next.
#[derive(Debug, PartialEq, Eq)]
pub enum IoAction {
    /// Wait for the next thing to happen.
    Wait,
    /// Write the notice to the log, then wait.
    Note(Notice),
    /// Send the request over the control connection, then wait.
    Send(RequestContent),
    /// Hand the update to the channel without waiting.
    Forward(UpdatePacket),
    /// End the task.
    Stop(StopReason),
}

/// The request as it goes out: a request for a datagram stream names the
/// port of the task's own socket, whatever port the consumer wrote; any other
/// request goes out as it is.
pub open spec fn outgoing(request: RequestContent, udp_port: u16) -> RequestContent {
    match request {
        RequestContent::UdpStreamReq(req) => RequestContent::UdpStreamReq(
            UdpStreamRequest { port: udp_port as u32 },
        ),
        other => other,
    }
}

/// What to do with a decoded payload: an update is handed on; an empty
/// payload and a malformed one are noted and dropped, and the task goes on.
pub open spec fn on_decoded<T>(payload: Decoded<T>, wrap: spec_fn(T) -> UpdatePacket) -> IoAction {
    match payload {
        Decoded::Malformed => IoAction::Note(Notice::MalformedPacket),
        Decoded::Empty => IoAction::Note(Notice::EmptyPacket),
        Decoded::Content(c) => IoAction::Forward(wrap(c)),
    }
}

/// What an `IoSession` holds: the port of the task's datagram socket, the
/// limiter of overflow warnings, and whether the task has ended.
pub struct IoSessionView {
    pub udp_port: u16,
    pub limiter: WarnLimiter,
    pub stopped: bool,
}

impl IoSessionView {
    /// What the task is to do after the event.
    ///
    /// A request goes out. An update is handed on. A payload that is empty
    /// or malformed, a message that this protocol has no use for and a
    /// receive that failed are noted, and the task waits on. The task ends
    /// when the control connection fails or the consumer is gone, and on
    /// nothing else.
    pub open spec fn action(self, event: IoEvent) -> IoAction {
        if self.stopped {
            IoAction::Stop(StopReason::ReceiverDropped)
        } else {
            match event {
                IoEvent::Request(request) => IoAction::Send(outgoing(request, self.udp_port)),
                IoEvent::Control(frame) => match frame {
                    WsFrame::Text => IoAction::Note(Notice::UnexpectedText),
                    WsFrame::Binary(payload) => on_decoded(
                        payload,
                        |c: WsContent| control_update(c),
                    ),
                    WsFrame::Ping => IoAction::Wait,
                    WsFrame::Pong => IoAction::Note(Notice::UnexpectedPong),
                    WsFrame::Close => IoAction::Note(Notice::CloseRequested),
                },
                IoEvent::ControlFailed => IoAction::Stop(StopReason::NetworkError),
                IoEvent::Datagram(payload) => on_decoded(
                    payload,
                    |c: UdpContent| datagram_update(c),
                ),
                IoEvent::ReceiveFailed => IoAction::Note(Notice::ReceiveFailed),
                IoEvent::Forwarded { outcome, now } => match outcome {
                    SendOutcome::Sent => IoAction::Wait,
                    SendOutcome::Full => if self.limiter.due(now) {
                        IoAction::Note(Notice::ChannelFull)
                    } else {
                        IoAction::Wait
                    },
                    SendOutcome::Closed => IoAction::Stop(StopReason::ReceiverDropped),
                },
            }
        }
    }

    /// The session after the event: an overflow may start the cooldown of
    /// the warnings, and whatever ends the task leaves it ended.
    pub open spec fn next(self, event: IoEvent) -> IoSessionView {
        if self.stopped {
            self
        } else {
            IoSessionView {
                udp_port: self.udp_port,
                limiter: match event {
                    IoEvent::Forwarded {
                        outcome: SendOutcome::Full,
                        now,
                    } => self.limiter.after_overflow(now),
                    _ => self.limiter,
                },
                stopped: self.action(event) is Stop,
            }
        }
    }
}

/// An update that finds the channel full never ends the task.
pub proof fn lemma_full_channel_goes_on(s: IoSessionView, now: u64)
    requires
        !s.stopped,
    ensures
        !s.next(IoEvent::Forwarded { outcome: SendOutcome::Full, now }).stopped,
        !(s.action(IoEvent::Forwarded { outcome: SendOutcome::Full, now }) is Stop),
{
}

/// A payload that does not follow the schema never ends the task, whichever
/// way it came: it is noted and nothing is handed on for it.
pub proof fn lemma_malformed_payload_is_dropped(s: IoSessionView)
    requires
        !s.stopped,
    ensures
        s.action(IoEvent::Datagram(Decoded::Malformed)) == IoAction::Note(Notice::MalformedPacket),
        s.action(IoEvent::Control(WsFrame::Binary(Decoded::Malformed))) == IoAction::Note(
            Notice::MalformedPacket,
        ),
        s.next(IoEvent::Datagram(Decoded::Malformed)) == s,
        s.next(IoEvent::Control(WsFrame::Binary(Decoded::Malformed))) == s,
{
}

/// A receive that failed never ends the task.
pub proof fn lemma_failed_receive_goes_on(s: IoSessionView)
    requires
        !s.stopped,
    ensures
        s.action(IoEvent::ReceiveFailed) == IoAction::Note(Notice::ReceiveFailed),
        s.next(IoEvent::ReceiveFailed) == s,
{
}

/// Once the task has ended every event is answered with a stop.
pub proof fn lemma_stopped_stays_stopped(s: IoSessionView, event: IoEvent)
    requires
        s.stopped,
    ensures
        s.next(event) == s,
        s.action(event) is Stop,
{
}

/// The state of the task between two waits.
#[derive(Debug)]
pub struct IoSession {
    udp_port: u16,
    limiter: WarnLimiter,
    stopped: bool,
}

impl View for IoSession {
    type V = IoSessionView;

    closed spec fn view(&self) -> IoSessionView {
        IoSessionView { udp_port: self.udp_port, limiter: self.limiter, stopped: self.stopped }
    }
}

impl IoSession {
    /// The session of a task that starts at time `now` and receives
    /// datagrams on the port `udp_port`.
    pub fn new(udp_port: u16, now: u64) -> (r: IoSession)
        ensures
            r@ == (IoSessionView {
                udp_port,
                limiter: WarnLimiter { quiet_until: now },
                stopped: false,
            }),
    {
        IoSession { udp_port, limiter: WarnLimiter::new(now), stopped: false }
    }

    /// Whether the task has ended.
    pub fn is_stopped(&self) -> (r: bool)
        ensures
            r == self@.stopped,
    {
        self.stopped
    }

    /// Takes in what happened and tells what to do next.
    pub fn step(&mut self, event: IoEvent) -> (r: IoAction)
        ensures
            final(self)@ == old(self)@.next(event),
            r == old(self)@.action(event),
    {
        if self.stopped {
            return IoAction::Stop(StopReason::ReceiverDropped);
        }
        let action = match event {
            IoEvent::Request(request) => IoAction::Send(
                match request {
                    RequestContent::UdpStreamReq(req) => RequestContent::UdpStreamReq(
                        UdpStreamRequest { port: self.udp_port as u32 },
                    ),
                    other => other,
                },
            ),
            IoEvent::Control(frame) => match frame {
                WsFrame::Text => IoAction::Note(Notice::UnexpectedText),
                WsFrame::Binary(payload) => match payload {
                    Decoded::Malformed => IoAction::Note(Notice::MalformedPacket),
                    Decoded::Empty => IoAction::Note(Notice::EmptyPacket),
                    Decoded::Content(c) => IoAction::Forward(UpdatePacket::from(c)),
                },
                WsFrame::Ping => IoAction::Wait,
                WsFrame::Pong => IoAction::Note(Notice::UnexpectedPong),
                WsFrame::Close => IoAction::Note(Notice::CloseRequested),
            },
            IoEvent::ControlFailed => IoAction::Stop(StopReason::NetworkError),
            IoEvent::Datagram(payload) => match payload {
                Decoded::Malformed => IoAction::Note(Notice::MalformedPacket),
                Decoded::Empty => IoAction::Note(Notice::EmptyPacket),
                Decoded::Content(c) => IoAction::Forward(UpdatePacket::from(c)),
            },
            IoEvent::ReceiveFailed => IoAction::Note(Notice::ReceiveFailed),
            IoEvent::Forwarded { outcome, now } => match outcome {
                SendOutcome::Sent => IoAction::Wait,
                SendOutcome::Full => {
                    if self.limiter.on_overflow(now) {
                        IoAction::Note(Notice::ChannelFull)
                    } else {
                        IoAction::Wait
                    }
                },
                SendOutcome::Closed => IoAction::Stop(StopReason::ReceiverDropped),
            },
        };
        match &action {
            IoAction::Stop(_) => {
                self.stopped = true;
            },
            _ => {},
        }
        action
    }
}

} // verus!
