use sslgame::channel::SendOutcome;
use sslgame::io_session::{Notice, StopReason};
use sslgame::status_session::{StatusAction, StatusEvent, StatusSession};
use sslgame::telemetry::Status;

fn status(timestamp: u64) -> Status {
    Status {
        timestamp,
        world_state: None,
        field_geometry: None,
        yellow_team: None,
        blue_team: None,
        visualization_group: None,
        visualization: vec![],
    }
}

fn forwarded(outcome: SendOutcome, now: u64) -> StatusEvent {
    StatusEvent::Forwarded { outcome, now }
}

#[test]
fn status_is_handed_on() {
    let mut session = StatusSession::new(0);
    assert_eq!(session.step(StatusEvent::Datagram(Some(status(7)))), StatusAction::Forward(status(7)));
    assert_eq!(session.step(forwarded(SendOutcome::Sent, 5)), StatusAction::Receive);
    assert!(!session.is_stopped());
}

#[test]
fn malformed_datagram_is_dropped_and_the_task_receives_on() {
    let mut session = StatusSession::new(0);
    assert_eq!(session.step(StatusEvent::Datagram(None)), StatusAction::Note(Notice::MalformedPacket));
    assert_eq!(session.step(StatusEvent::Datagram(None)), StatusAction::Note(Notice::MalformedPacket));
    assert!(!session.is_stopped());
    assert_eq!(session.step(StatusEvent::Datagram(Some(status(9)))), StatusAction::Forward(status(9)));
}

#[test]
fn failed_receive_does_not_end_the_status_task() {
    let mut session = StatusSession::new(0);
    assert_eq!(session.step(StatusEvent::ReceiveFailed), StatusAction::Note(Notice::ReceiveFailed));
    assert!(!session.is_stopped());
    assert_eq!(session.step(StatusEvent::Datagram(Some(status(1)))), StatusAction::Forward(status(1)));
}

#[test]
fn full_status_channel_is_warned_of_once_in_five_seconds() {
    let mut session = StatusSession::new(1000);
    assert_eq!(session.step(forwarded(SendOutcome::Full, 1000)), StatusAction::Receive);
    assert_eq!(session.step(forwarded(SendOutcome::Full, 1001)), StatusAction::Note(Notice::ChannelFull));
    assert_eq!(session.step(forwarded(SendOutcome::Full, 5_001_001)), StatusAction::Receive);
    assert_eq!(session.step(forwarded(SendOutcome::Full, 5_001_002)), StatusAction::Note(Notice::ChannelFull));
    assert!(!session.is_stopped());
}

#[test]
fn closed_status_channel_ends_the_task() {
    let mut session = StatusSession::new(0);
    assert_eq!(
        session.step(forwarded(SendOutcome::Closed, 3)),
        StatusAction::Stop(StopReason::ReceiverDropped)
    );
    assert!(session.is_stopped());
    assert_eq!(
        session.step(StatusEvent::Datagram(Some(status(1)))),
        StatusAction::Stop(StopReason::ReceiverDropped)
    );
    assert_eq!(session.step(StatusEvent::ReceiveFailed), StatusAction::Stop(StopReason::ReceiverDropped));
}
