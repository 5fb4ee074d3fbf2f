use quackbox_backend::player_slots_socket::{
    process_message, send_loop_action, snapshot_frame, ConnectionAction, ConnectionEvent,
    ConnectionState, Frame, PlayerSlotConnection, SendLoopAction, SendLoopEvent,
};
use quackbox_backend::slot_table::FrontendControllerSlotConnection;
use std::ops::ControlFlow;

use FrontendControllerSlotConnection::{Connected, Disconnected, Stale};

#[test]
fn only_close_ends_the_receive_loop() {
    assert_eq!(process_message(Frame::Text), ControlFlow::Continue(()));
    assert_eq!(process_message(Frame::Binary), ControlFlow::Continue(()));
    assert_eq!(process_message(Frame::Ping), ControlFlow::Continue(()));
    assert_eq!(process_message(Frame::Pong), ControlFlow::Continue(()));
    assert_eq!(process_message(Frame::Close(None)), ControlFlow::Break(()));
    assert_eq!(process_message(Frame::Close(Some(1000))), ControlFlow::Break(()));
}

#[test]
fn session_from_ping_to_client_close() {
    let mut c = PlayerSlotConnection::new();
    assert_eq!(c.state(), ConnectionState::Upgrading);
    assert_eq!(c.step(ConnectionEvent::PingSent), ConnectionAction::AwaitFirstFrame);
    assert_eq!(c.state(), ConnectionState::Handshaking);
    assert_eq!(c.step(ConnectionEvent::FirstFrame(Frame::Pong)), ConnectionAction::StartStreaming);
    assert_eq!(c.state(), ConnectionState::Streaming);
    // the client sends Close: the receive loop ends and the send loop is aborted
    assert_eq!(c.step(ConnectionEvent::ReceiveLoopEnded), ConnectionAction::AbortSendLoop);
    assert_eq!(c.state(), ConnectionState::Closed);
    assert_eq!(c.step(ConnectionEvent::SendLoopEnded), ConnectionAction::Ignore);
    assert_eq!(c.state(), ConnectionState::Closed);
}

#[test]
fn send_loop_end_aborts_receive_loop() {
    let mut c = PlayerSlotConnection::new();
    c.step(ConnectionEvent::PingSent);
    c.step(ConnectionEvent::StreamEnded);
    assert_eq!(c.state(), ConnectionState::Streaming);
    assert_eq!(c.step(ConnectionEvent::SendLoopEnded), ConnectionAction::AbortReceiveLoop);
    assert_eq!(c.state(), ConnectionState::Closed);
}

#[test]
fn failed_ping_closes_at_once() {
    let mut c = PlayerSlotConnection::new();
    assert_eq!(c.step(ConnectionEvent::PingFailed), ConnectionAction::Close);
    assert_eq!(c.state(), ConnectionState::Closed);
}

#[test]
fn close_or_error_during_handshake_closes() {
    let mut c = PlayerSlotConnection::new();
    c.step(ConnectionEvent::PingSent);
    assert_eq!(c.step(ConnectionEvent::FirstFrame(Frame::Close(None))), ConnectionAction::Close);
    assert_eq!(c.state(), ConnectionState::Closed);

    let mut d = PlayerSlotConnection::new();
    d.step(ConnectionEvent::PingSent);
    assert_eq!(d.step(ConnectionEvent::ReceiveFailed), ConnectionAction::Close);
    assert_eq!(d.state(), ConnectionState::Closed);
}

#[test]
fn events_out_of_order_are_ignored() {
    let mut c = PlayerSlotConnection::new();
    assert_eq!(c.step(ConnectionEvent::SendLoopEnded), ConnectionAction::Ignore);
    assert_eq!(c.state(), ConnectionState::Upgrading);
}

#[test]
fn snapshot_is_a_json_array_of_names() {
    let frame = snapshot_frame(&vec![
        Connected, Disconnected, Stale, Disconnected, Disconnected, Disconnected, Disconnected,
        Connected,
    ]);
    assert_eq!(
        frame,
        "[\"Connected\",\"Disconnected\",\"Stale\",\"Disconnected\",\"Disconnected\",\"Disconnected\",\"Disconnected\",\"Connected\"]"
    );
    assert_eq!(snapshot_frame(&vec![]), "[]");
    assert_eq!(snapshot_frame(&vec![Stale]), "[\"Stale\"]");
}

#[test]
fn slot_state_names() {
    assert_eq!(Connected.name(), "Connected");
    assert_eq!(Disconnected.name(), "Disconnected");
    assert_eq!(Stale.name(), "Stale");
}

#[test]
fn send_loop_decisions() {
    assert_eq!(send_loop_action(SendLoopEvent::Snapshot), SendLoopAction::WriteFrame);
    assert_eq!(send_loop_action(SendLoopEvent::Written), SendLoopAction::ReceiveNext);
    assert_eq!(send_loop_action(SendLoopEvent::Lagged), SendLoopAction::ReceiveNext);
    assert_eq!(send_loop_action(SendLoopEvent::ChannelClosed), SendLoopAction::Stop);
    assert_eq!(send_loop_action(SendLoopEvent::WriteFailed), SendLoopAction::Stop);
}
