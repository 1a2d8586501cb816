use std::sync::mpsc::sync_channel;
use wake_relay::catalog::{DeviceCatalog, DeviceRecord};
use wake_relay::dispatch::{
    deliver, dispatch, outcome_of_report, prepare_wake, wake_frame, wake_frame_from_quoted,
    WakeOutcome, WakeRequest,
};
use wake_relay::registry::{ConnectionHandle, ConnectionRegistry, SendReport};

fn s(t: &str) -> String {
    String::from(t)
}

fn catalog_with_a() -> DeviceCatalog {
    let mut cat = DeviceCatalog::new();
    cat.upsert(DeviceRecord::new(s("A"), s("AA:BB:CC:DD:EE:FF"), s("pc"), s("foo")));
    cat
}

fn req(id: &str, secret: &str) -> WakeRequest {
    WakeRequest { id: s(id), secret: s(secret) }
}

#[test]
fn dispatch_unknown_device() {
    let cat = DeviceCatalog::new();
    let reg = ConnectionRegistry::new();
    assert_eq!(dispatch(&cat, &reg, &req("A", "x")), WakeOutcome::DeviceNotFound);
}

#[test]
fn dispatch_offline_device() {
    let cat = catalog_with_a();
    let reg = ConnectionRegistry::new();
    assert_eq!(dispatch(&cat, &reg, &req("A", "foo")), WakeOutcome::DeviceOffline);
}

#[test]
fn dispatch_wrong_secret() {
    let cat = catalog_with_a();
    let mut reg = ConnectionRegistry::new();
    let (tx, rx) = sync_channel::<String>(4);
    reg.register(s("A"), ConnectionHandle { token: 0 }, tx);
    assert_eq!(dispatch(&cat, &reg, &req("A", "wrong")), WakeOutcome::Unauthorized);
    assert!(rx.try_recv().is_err());
}

#[test]
fn dispatch_sends_wake_frame() {
    let cat = catalog_with_a();
    let mut reg = ConnectionRegistry::new();
    let (tx, rx) = sync_channel::<String>(4);
    reg.register(s("A"), ConnectionHandle { token: 0 }, tx);
    assert_eq!(dispatch(&cat, &reg, &req("A", "foo")), WakeOutcome::Dispatched);
    assert_eq!(rx.try_recv().unwrap(), "{\"type\":\"wake\",\"mac_address\":\"AA:BB:CC:DD:EE:FF\"}");
    assert!(rx.try_recv().is_err());
}

#[test]
fn dispatch_to_closed_channel_fails() {
    let cat = catalog_with_a();
    let mut reg = ConnectionRegistry::new();
    let (tx, rx) = sync_channel::<String>(4);
    reg.register(s("A"), ConnectionHandle { token: 0 }, tx);
    drop(rx);
    assert_eq!(dispatch(&cat, &reg, &req("A", "foo")), WakeOutcome::DeliveryFailed);
}

#[test]
fn wake_frame_quotes_the_mac() {
    assert_eq!(
        wake_frame(&s("AA:BB:CC:DD:EE:FF")),
        "{\"type\":\"wake\",\"mac_address\":\"AA:BB:CC:DD:EE:FF\"}"
    );
    assert_eq!(wake_frame(&s("a\"b")), "{\"type\":\"wake\",\"mac_address\":\"a\\\"b\"}");
    assert_eq!(wake_frame(&s("")), "{\"type\":\"wake\",\"mac_address\":\"\"}");
}

#[test]
fn wake_frame_from_quoted_literal() {
    assert_eq!(wake_frame_from_quoted("\"x\""), "{\"type\":\"wake\",\"mac_address\":\"x\"}");
}

#[test]
fn prepare_wake_results() {
    let cat = catalog_with_a();
    assert_eq!(prepare_wake(&cat, &req("B", "foo")), Err(WakeOutcome::DeviceNotFound));
    assert_eq!(prepare_wake(&cat, &req("A", "bar")), Err(WakeOutcome::Unauthorized));
    assert_eq!(
        prepare_wake(&cat, &req("A", "foo")),
        Ok(s("{\"type\":\"wake\",\"mac_address\":\"AA:BB:CC:DD:EE:FF\"}"))
    );
}

#[test]
fn deliver_and_report_mapping() {
    let reg = ConnectionRegistry::new();
    assert_eq!(deliver(&reg, &s("A"), s("f")), WakeOutcome::DeviceOffline);
    assert_eq!(outcome_of_report(SendReport::NoConnection), WakeOutcome::DeviceOffline);
    assert_eq!(outcome_of_report(SendReport::Sent), WakeOutcome::Dispatched);
    assert_eq!(outcome_of_report(SendReport::Failed), WakeOutcome::DeliveryFailed);
}
