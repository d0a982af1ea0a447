use sslgame::channel::SendOutcome;
use sslgame::io_session::{
    DataRequest, Decoded, GameStateUpdate, IoAction, IoEvent, IoSession, Notice, RequestContent,
    StopReason, UdpContent, UdpStreamRequest, UpdatePacket, VisMapping, VisMappings, WsContent,
    WsFrame,
};
use sslgame::telemetry::{
    FieldDimensions, TeamInfo, VisualizationUpdate, WorldState,
};

fn dimensions() -> FieldDimensions {
    FieldDimensions {
        field_size_x: 1,
        field_size_y: 2,
        boundary_width: None,
        defense_size_x: 3,
        defense_size_y: 4,
        goal_width: 5,
    }
}

fn world() -> WorldState {
    WorldState { timestamp: 5, ball: vec![], yellow_robot: vec![], blue_robot: vec![] }
}

#[test]
fn updates_are_wrapped_by_kind() {
    assert_eq!(UpdatePacket::from(WsContent::Geom(dimensions())), UpdatePacket::FieldGeom(dimensions()));
    let game = || GameStateUpdate {
        yellow_team: Some(TeamInfo { name: "y".to_string() }),
        blue_team: None,
    };
    assert_eq!(UpdatePacket::from(WsContent::GameState(game())), UpdatePacket::GameState(game()));
    let mappings = || VisMappings { mapping: vec![VisMapping { id: 1, name: "n".to_string() }] };
    assert_eq!(
        UpdatePacket::from(WsContent::VisMappings(mappings())),
        UpdatePacket::VisMappings(mappings())
    );
    assert_eq!(UpdatePacket::from(UdpContent::WorldState(world())), UpdatePacket::WorldState(world()));
    let update = || VisualizationUpdate { visualization_group: None, visualization_set: vec![] };
    assert_eq!(
        UpdatePacket::from(UdpContent::VisUpdate(update())),
        UpdatePacket::VisualizationUpdate(update())
    );
}

#[test]
fn stream_request_names_the_port_of_the_task() {
    let mut session = IoSession::new(40_000, 0);
    assert_eq!(
        session.step(IoEvent::Request(RequestContent::UdpStreamReq(UdpStreamRequest { port: 1 }))),
        IoAction::Send(RequestContent::UdpStreamReq(UdpStreamRequest { port: 40_000 }))
    );
    assert_eq!(
        session.step(IoEvent::Request(RequestContent::DataReq(DataRequest { visualization_id: vec![1, 2] }))),
        IoAction::Send(RequestContent::DataReq(DataRequest { visualization_id: vec![1, 2] }))
    );
    assert!(!session.is_stopped());
}

#[test]
fn control_messages_are_sorted_by_kind() {
    let mut session = IoSession::new(1, 0);
    assert_eq!(session.step(IoEvent::Control(WsFrame::Text)), IoAction::Note(Notice::UnexpectedText));
    assert_eq!(session.step(IoEvent::Control(WsFrame::Ping)), IoAction::Wait);
    assert_eq!(session.step(IoEvent::Control(WsFrame::Pong)), IoAction::Note(Notice::UnexpectedPong));
    assert_eq!(session.step(IoEvent::Control(WsFrame::Close)), IoAction::Note(Notice::CloseRequested));
    assert_eq!(
        session.step(IoEvent::Control(WsFrame::Binary(Decoded::Empty))),
        IoAction::Note(Notice::EmptyPacket)
    );
    assert_eq!(
        session.step(IoEvent::Control(WsFrame::Binary(Decoded::Content(WsContent::Geom(dimensions()))))),
        IoAction::Forward(UpdatePacket::FieldGeom(dimensions()))
    );
    assert_eq!(
        session.step(IoEvent::Control(WsFrame::Binary(Decoded::Malformed))),
        IoAction::Note(Notice::MalformedPacket)
    );
    assert!(!session.is_stopped());
    assert_eq!(
        session.step(IoEvent::Control(WsFrame::Binary(Decoded::Content(WsContent::Geom(dimensions()))))),
        IoAction::Forward(UpdatePacket::FieldGeom(dimensions()))
    );
}

#[test]
fn datagrams_are_handed_on() {
    let mut session = IoSession::new(1, 0);
    assert_eq!(
        session.step(IoEvent::Datagram(Decoded::Content(UdpContent::WorldState(world())))),
        IoAction::Forward(UpdatePacket::WorldState(world()))
    );
    assert_eq!(session.step(IoEvent::Datagram(Decoded::Empty)), IoAction::Note(Notice::EmptyPacket));
    assert_eq!(
        session.step(IoEvent::Datagram(Decoded::Malformed)),
        IoAction::Note(Notice::MalformedPacket)
    );
    assert!(!session.is_stopped());
    assert_eq!(
        session.step(IoEvent::Datagram(Decoded::Content(UdpContent::WorldState(world())))),
        IoAction::Forward(UpdatePacket::WorldState(world()))
    );
}

#[test]
fn failed_receive_is_noted_and_the_task_goes_on() {
    let mut session = IoSession::new(1, 0);
    assert_eq!(session.step(IoEvent::ReceiveFailed), IoAction::Note(Notice::ReceiveFailed));
    assert_eq!(session.step(IoEvent::ReceiveFailed), IoAction::Note(Notice::ReceiveFailed));
    assert!(!session.is_stopped());
    assert_eq!(session.step(IoEvent::Control(WsFrame::Ping)), IoAction::Wait);
}

#[test]
fn failed_control_connection_ends_the_task() {
    let mut session = IoSession::new(1, 0);
    assert_eq!(session.step(IoEvent::ControlFailed), IoAction::Stop(StopReason::NetworkError));
    assert!(session.is_stopped());
    assert_eq!(session.step(IoEvent::Control(WsFrame::Ping)), IoAction::Stop(StopReason::ReceiverDropped));
    assert_eq!(session.step(IoEvent::ReceiveFailed), IoAction::Stop(StopReason::ReceiverDropped));
}

#[test]
fn full_channel_is_warned_of_once_in_five_seconds() {
    let mut session = IoSession::new(1, 1000);
    let full = |now| IoEvent::Forwarded { outcome: SendOutcome::Full, now };
    assert_eq!(session.step(full(1000)), IoAction::Wait);
    assert_eq!(session.step(full(1001)), IoAction::Note(Notice::ChannelFull));
    assert_eq!(session.step(full(1002)), IoAction::Wait);
    assert_eq!(session.step(full(5_001_001)), IoAction::Wait);
    assert_eq!(session.step(full(5_001_002)), IoAction::Note(Notice::ChannelFull));
    assert_eq!(session.step(full(5_001_003)), IoAction::Wait);
    assert_eq!(
        session.step(IoEvent::Forwarded { outcome: SendOutcome::Sent, now: 20_000_000 }),
        IoAction::Wait
    );
    assert!(!session.is_stopped());
}

#[test]
fn closed_channel_ends_the_task() {
    let mut session = IoSession::new(1, 0);
    assert_eq!(
        session.step(IoEvent::Forwarded { outcome: SendOutcome::Closed, now: 5 }),
        IoAction::Stop(StopReason::ReceiverDropped)
    );
    assert!(session.is_stopped());
    assert_eq!(
        session.step(IoEvent::Request(RequestContent::UdpStreamReq(UdpStreamRequest { port: 1 }))),
        IoAction::Stop(StopReason::ReceiverDropped)
    );
}
