//! The decisions of the task that receives the status messages of one host.
//!
//! The task waits for a datagram, hands the status on through a bounded
//! channel, and waits again. What to do with each thing that happens is
//! decided here.

use crate::channel::{SendOutcome, WarnLimiter};
use crate::io_session::{Notice, StopReason};
use crate::telemetry::Status;
use vstd::prelude::*;

verus! {

/// What happened while the task waited.
#[derive(Debug, PartialEq, Eq)]
pub enum StatusEvent {
    /// A datagram came in. A payload that does not follow the schema comes
    /// without a status.
    Datagram(Option<Status>),
    /// The receive failed.
    ReceiveFailed,
    /// The channel was given a status at time `now`.
    Forwarded { outcome: SendOutcome, now: u64 },
}

/// What the task is to do next.
#[derive(Debug, PartialEq, Eq)]
pub enum StatusAction {
    /// Wait for the next datagram.
    Receive,
    /// Write the notice to the log, then wait for the next datagram.
    Note(Notice),
    /// Hand the status to the channel without waiting.
    Forward(Status),
    /// End the task.
    Stop(StopReason),
}

/// What a `StatusSession` holds: the limiter of overflow warnings and
/// whether the task has ended.
pub struct StatusSessionView {
    pub limiter: WarnLimiter,
    pub stopped: bool,
}

impl StatusSessionView {
    /// What the task is to do after the event.
    ///
    /// A status is handed on. A payload that does not follow the schema and
    /// a receive that failed are noted, and the task receives on. A status
    /// that found the channel full is lost, with a warning once per
    /// cooldown. The task ends when the consumer is gone, and on nothing
    /// else.
    pub open spec fn action(self, event: StatusEvent) -> StatusAction {
        if self.stopped {
            StatusAction::Stop(StopReason::ReceiverDropped)
        } else {
            match event {
                StatusEvent::Datagram(Some(status)) => StatusAction::Forward(status),
                StatusEvent::Datagram(None) => StatusAction::Note(Notice::MalformedPacket),
                StatusEvent::ReceiveFailed => StatusAction::Note(Notice::ReceiveFailed),
                StatusEvent::Forwarded { outcome, now } => match outcome {
                    SendOutcome::Sent => StatusAction::Receive,
                    SendOutcome::Full => if self.limiter.due(now) {
                        StatusAction::Note(Notice::ChannelFull)
                    } else {
                        StatusAction::Receive
                    },
                    SendOutcome::Closed => StatusAction::Stop(StopReason::ReceiverDropped),
                },
            }
        }
    }

    /// The session after the event: an overflow may start the cooldown of
    /// the warnings, and a channel whose receiving side is gone ends the
    /// task.
    pub open spec fn next(self, event: StatusEvent) -> StatusSessionView {
        if self.stopped {
            self
        } else {
            StatusSessionView {
                limiter: match event {
                    StatusEvent::Forwarded {
                        outcome: SendOutcome::Full,
                        now,
                    } => self.limiter.after_overflow(now),
                    _ => self.limiter,
                },
                stopped: self.action(event) is Stop,
            }
        }
    }
}

/// A datagram that does not follow the schema is dropped: nothing is handed
/// on for it, and the task receives on as if it had not come.
pub proof fn lemma_malformed_status_is_dropped(s: StatusSessionView)
    requires
        !s.stopped,
    ensures
        s.action(StatusEvent::Datagram(None)) == StatusAction::Note(Notice::MalformedPacket),
        s.next(StatusEvent::Datagram(None)) == s,
{
}

/// Nothing but a channel whose receiving side is gone ends the task.
pub proof fn lemma_status_task_ends_with_its_consumer(s: StatusSessionView, event: StatusEvent)
    requires
        !s.stopped,
    ensures
        s.next(event).stopped <==> (event matches StatusEvent::Forwarded {
            outcome: SendOutcome::Closed,
            ..
        }),
{
}

/// The state of the task between two waits.
#[derive(Debug)]
pub struct StatusSession {
    limiter: WarnLimiter,
    stopped: bool,
}

impl View for StatusSession {
    type V = StatusSessionView;

    closed spec fn view(&self) -> StatusSessionView {
        StatusSessionView { limiter: self.limiter, stopped: self.stopped }
    }
}

impl StatusSession {
    /// The session of a task that starts at time `now`.
    pub fn new(now: u64) -> (r: StatusSession)
        ensures
            r@ == (StatusSessionView { limiter: WarnLimiter { quiet_until: now }, stopped: false }),
    {
        StatusSession { limiter: WarnLimiter::new(now), stopped: false }
    }

    /// Whether the task has ended.
    pub fn is_stopped(&self) -> (r: bool)
        ensures
            r == self@.stopped,
    {
        self.stopped
    }

    /// Takes in what happened and tells what to do next.
    pub fn step(&mut self, event: StatusEvent) -> (r: StatusAction)
        ensures
            final(self)@ == old(self)@.next(event),
            r == old(self)@.action(event),
    {
        if self.stopped {
            return StatusAction::Stop(StopReason::ReceiverDropped);
        }
        match event {
            StatusEvent::Datagram(Some(status)) => StatusAction::Forward(status),
            StatusEvent::Datagram(None) => StatusAction::Note(Notice::MalformedPacket),
            StatusEvent::ReceiveFailed => StatusAction::Note(Notice::ReceiveFailed),
            StatusEvent::Forwarded { outcome, now } => match outcome {
                SendOutcome::Sent => StatusAction::Receive,
                SendOutcome::Full => {
                    if self.limiter.on_overflow(now) {
                        StatusAction::Note(Notice::ChannelFull)
                    } else {
                        StatusAction::Receive
                    }
                },
                SendOutcome::Closed => {
                    self.stopped = true;
                    StatusAction::Stop(StopReason::ReceiverDropped)
                },
            },
        }
    }
}

} // verus!
