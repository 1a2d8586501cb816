use std::sync::mpsc::sync_channel;
use wake_relay::lifecycle::{claimed_id, ConnectionLifecycle, ControlAction, InboundFrame, LinkState};
use wake_relay::registry::ConnectionRegistry;

fn s(t: &str) -> String {
    String::from(t)
}

#[test]
fn claimed_id_defaults_to_empty() {
    assert_eq!(claimed_id(None), "");
    assert_eq!(claimed_id(Some(s("esp1"))), "esp1");
}

#[test]
fn lifecycle_registers_and_deregisters() {
    let mut reg = ConnectionRegistry::new();
    let h = reg.issue_handle().unwrap();
    let (tx, _rx) = sync_channel::<String>(4);
    let mut conn = ConnectionLifecycle::new(s("A"), h);
    assert_eq!(conn.state(), LinkState::Connecting);
    conn.establish(&mut reg, tx);
    assert_eq!(conn.state(), LinkState::Established);
    assert_eq!(reg.lookup(&s("A")), Some(h));
    conn.close(&mut reg);
    assert_eq!(conn.state(), LinkState::Closed);
    assert_eq!(reg.lookup(&s("A")), None);
}

#[test]
fn superseded_connection_close_keeps_newer() {
    let mut reg = ConnectionRegistry::new();
    let (tx1, _rx1) = sync_channel::<String>(4);
    let (tx2, _rx2) = sync_channel::<String>(4);
    let mut first = ConnectionLifecycle::new(s("A"), reg.issue_handle().unwrap());
    let mut second = ConnectionLifecycle::new(s("A"), reg.issue_handle().unwrap());
    first.establish(&mut reg, tx1);
    second.establish(&mut reg, tx2);
    first.close(&mut reg);
    assert_eq!(reg.lookup(&s("A")), Some(second.handle()));
}

#[test]
fn control_frames() {
    let mut reg = ConnectionRegistry::new();
    let (tx, _rx) = sync_channel::<String>(4);
    let mut conn = ConnectionLifecycle::new(s("A"), reg.issue_handle().unwrap());
    assert_eq!(conn.on_frame(InboundFrame::Ping(vec![1, 2])), ControlAction::Idle);
    conn.establish(&mut reg, tx);
    assert_eq!(conn.on_frame(InboundFrame::Ping(vec![1, 2])), ControlAction::Pong(vec![1, 2]));
    assert_eq!(conn.on_frame(InboundFrame::Text(s("hello"))), ControlAction::Idle);
    assert_eq!(conn.on_frame(InboundFrame::Pong(vec![3])), ControlAction::Idle);
    assert_eq!(conn.on_command(s("{\"type\":\"wake\"}")), ControlAction::Write(s("{\"type\":\"wake\"}")));
    assert_eq!(conn.on_frame(InboundFrame::Close), ControlAction::Close);
    assert_eq!(conn.state(), LinkState::Closing);
    assert_eq!(conn.on_command(s("late")), ControlAction::Idle);
    conn.close(&mut reg);
    assert_eq!(reg.lookup(&s("A")), None);
}

#[test]
fn failure_starts_shutdown() {
    let mut reg = ConnectionRegistry::new();
    let (tx, _rx) = sync_channel::<String>(4);
    let mut conn = ConnectionLifecycle::new(s("A"), reg.issue_handle().unwrap());
    assert_eq!(conn.on_failure(), ControlAction::Idle);
    conn.establish(&mut reg, tx);
    assert_eq!(conn.on_failure(), ControlAction::Close);
    assert_eq!(conn.state(), LinkState::Closing);
    assert_eq!(conn.id(), "A");
}

#[test]
fn closing_unestablished_connection_leaves_registry() {
    let mut reg = ConnectionRegistry::new();
    let (tx, _rx) = sync_channel::<String>(4);
    let mut other = ConnectionLifecycle::new(s("A"), reg.issue_handle().unwrap());
    other.establish(&mut reg, tx);
    let mut pending = ConnectionLifecycle::new(s("A"), reg.issue_handle().unwrap());
    pending.close(&mut reg);
    assert_eq!(reg.lookup(&s("A")), Some(other.handle()));
}
