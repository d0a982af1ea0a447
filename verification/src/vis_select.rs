//! The decisions of the task that tells a host which overlays are wanted.
//!
//! The host multicasts the list of the overlays it offers. The task hands
//! each list on, looks whether the consumer has changed its selection, and
//! answers the host with the selection that stands.

use crate::channel::{continues_after, goes_on, SendOutcome};
use crate::io_session::DataRequest;
use vstd::prelude::*;

verus! {

/// What happened while the task waited.
#[derive(Debug, PartialEq, Eq)]
pub enum SelectEvent {
    /// The host has sent the list of its overlays.
    Advertised,
    /// A datagram came in that does not follow the schema of the list.
    Malformed,
    /// The receive failed.
    ReceiveFailed,
    /// The channel was given the list.
    Forwarded(SendOutcome),
    /// The consumer was asked for a new selection and had one, or had none.
    Selection(Option<Vec<u32>>),
}

/// What the task is to do next.
#[derive(Debug, PartialEq, Eq)]
pub enum SelectAction {
    /// Wait for the next list of the host.
    Receive,
    /// Hand the list to the channel without waiting.
    Forward,
    /// Ask the consumer for a new selection without waiting.
    PollSelection,
    /// Send the request to the host, then wait for its next list.
    Reply(DataRequest),
    /// End the task.
    Stop,
}

/// What a `VisSelectSession` holds: the overlays that are wanted and whether
/// the task has ended.
pub struct VisSelectSessionView {
    pub selected: Seq<u32>,
    pub stopped: bool,
}

impl VisSelectSessionView {
    /// The session of a task that starts: nothing is wanted yet.
    pub open spec fn started() -> VisSelectSessionView {
        VisSelectSessionView { selected: Seq::empty(), stopped: false }
    }

    /// The session after the event: a new selection takes the place of the
    /// old one, and a channel whose receiving side is gone ends the task.
    /// A datagram that is no list and a receive that failed change nothing.
    pub open spec fn next(self, event: SelectEvent) -> VisSelectSessionView {
        if self.stopped {
            self
        } else {
            match event {
                SelectEvent::Forwarded(outcome) => VisSelectSessionView {
                    stopped: !goes_on(outcome),
                    ..self
                },
                SelectEvent::Selection(Some(selected)) => VisSelectSessionView {
                    selected: selected@,
                    ..self
                },
                _ => self,
            }
        }
    }

    /// The overlays that the host is asked for after the event.
    pub open spec fn requested(self, event: SelectEvent) -> Seq<u32> {
        self.next(event).selected
    }

    /// Whether the session answers the event with a stop.
    pub open spec fn stops(self, event: SelectEvent) -> bool {
        self.next(event).stopped
    }
}

/// The state of the task between two waits.
#[derive(Debug)]
pub struct VisSelectSession {
    selected: Vec<u32>,
    stopped: bool,
}

impl View for VisSelectSession {
    type V = VisSelectSessionView;

    closed spec fn view(&self) -> VisSelectSessionView {
        VisSelectSessionView { selected: self.selected@, stopped: self.stopped }
    }
}

impl Default for VisSelectSession {
    fn default() -> (r: VisSelectSession)
        ensures
            r@ == VisSelectSessionView::started(),
    {
        VisSelectSession::new()
    }
}

impl VisSelectSession {
    /// The session of a task that starts.
    pub fn new() -> (r: VisSelectSession)
        ensures
            r@ == VisSelectSessionView::started(),
    {
        VisSelectSession { selected: Vec::new(), stopped: false }
    }

    /// Whether the task has ended.
    pub fn is_stopped(&self) -> (r: bool)
        ensures
            r == self@.stopped,
    {
        self.stopped
    }

    /// Takes in what happened and tells what to do next.
    ///
    /// A list from the host is handed on. Once the channel has taken or
    /// dropped it, the consumer is asked for a new selection. Whatever the
    /// consumer says, the host is answered with the selection that stands.
    /// A datagram that is no list is dropped, and after a receive that
    /// failed the task receives on; the task ends only when the consumer
    /// of the lists is gone.
    pub fn step(&mut self, event: SelectEvent) -> (r: SelectAction)
        ensures
            final(self)@ == old(self)@.next(event),
            old(self)@.stops(event) <==> r is Stop,
            !old(self)@.stops(event) ==> (match event {
                SelectEvent::Advertised => r is Forward,
                SelectEvent::Malformed => r is Receive,
                SelectEvent::ReceiveFailed => r is Receive,
                SelectEvent::Forwarded(_) => r is PollSelection,
                SelectEvent::Selection(_) => r matches SelectAction::Reply(request)
                    && request.visualization_id@ == old(self)@.requested(event),
            }),
    {
        if self.stopped {
            return SelectAction::Stop;
        }
        match event {
            SelectEvent::Advertised => SelectAction::Forward,
            SelectEvent::Malformed => SelectAction::Receive,
            SelectEvent::ReceiveFailed => SelectAction::Receive,
            SelectEvent::Forwarded(outcome) => {
                if continues_after(outcome) {
                    SelectAction::PollSelection
                } else {
                    self.stopped = true;
                    SelectAction::Stop
                }
            },
            SelectEvent::Selection(new_selected) => {
                match new_selected {
                    Some(selected) => {
                        self.selected = selected;
                    },
                    None => {},
                }
                SelectAction::Reply(DataRequest { visualization_id: self.selected.clone() })
            },
        }
    }
}

} // verus!
