use sslgame::channel::SendOutcome;
use sslgame::io_session::DataRequest;
use sslgame::vis_select::{SelectAction, SelectEvent, VisSelectSession};

fn reply(ids: &[u32]) -> SelectAction {
    SelectAction::Reply(DataRequest { visualization_id: ids.to_vec() })
}

#[test]
fn each_list_is_handed_on_and_answered() {
    let mut session = VisSelectSession::default();
    assert_eq!(session.step(SelectEvent::Advertised), SelectAction::Forward);
    assert_eq!(session.step(SelectEvent::Forwarded(SendOutcome::Sent)), SelectAction::PollSelection);
    assert_eq!(session.step(SelectEvent::Selection(None)), reply(&[]));
    assert_eq!(session.step(SelectEvent::Advertised), SelectAction::Forward);
    assert_eq!(session.step(SelectEvent::Forwarded(SendOutcome::Full)), SelectAction::PollSelection);
    assert_eq!(session.step(SelectEvent::Selection(Some(vec![4, 2]))), reply(&[4, 2]));
    assert!(!session.is_stopped());
}

#[test]
fn selection_stands_until_it_is_replaced() {
    let mut session = VisSelectSession::new();
    assert_eq!(session.step(SelectEvent::Selection(Some(vec![1, 2, 3]))), reply(&[1, 2, 3]));
    assert_eq!(session.step(SelectEvent::Selection(None)), reply(&[1, 2, 3]));
    assert_eq!(session.step(SelectEvent::Selection(Some(vec![]))), reply(&[]));
    assert_eq!(session.step(SelectEvent::Selection(None)), reply(&[]));
    assert_eq!(session.step(SelectEvent::Selection(Some(vec![9]))), reply(&[9]));
}

#[test]
fn closed_channel_ends_the_selection_task() {
    let mut session = VisSelectSession::new();
    assert_eq!(session.step(SelectEvent::Advertised), SelectAction::Forward);
    assert_eq!(session.step(SelectEvent::Forwarded(SendOutcome::Closed)), SelectAction::Stop);
    assert!(session.is_stopped());
    assert_eq!(session.step(SelectEvent::Advertised), SelectAction::Stop);
    assert_eq!(session.step(SelectEvent::Selection(Some(vec![1]))), SelectAction::Stop);
}

#[test]
fn failed_receive_and_malformed_list_are_passed_over() {
    let mut session = VisSelectSession::new();
    assert_eq!(session.step(SelectEvent::Selection(Some(vec![5]))), reply(&[5]));
    assert_eq!(session.step(SelectEvent::ReceiveFailed), SelectAction::Receive);
    assert_eq!(session.step(SelectEvent::Malformed), SelectAction::Receive);
    assert!(!session.is_stopped());
    assert_eq!(session.step(SelectEvent::Advertised), SelectAction::Forward);
    assert_eq!(session.step(SelectEvent::Forwarded(SendOutcome::Sent)), SelectAction::PollSelection);
    assert_eq!(session.step(SelectEvent::Selection(None)), reply(&[5]));
}
