use notify_relay_core::context::CoreContext;
use base64::Engine;
use notify_relay_core::dedup::DedupState;
use notify_relay_core::mdns::{resolve_service, txt_properties, MdnsState};
use notify_relay_core::network::{connect_step, ConnectStep};

#[test]
fn advertiser_rebuilds_on_battery_change() {
    let mut m = MdnsState::new();
    assert!(m.start_advertiser("me", "Me", 23333, "pk", "pc", 50));
    m.advertiser_started(true);
    assert!(m.is_advertising());
    assert!(!m.start_advertiser("me", "Me", 23333, "pk", "pc", 60));
    assert!(m.update_battery(50).is_none());
    assert!(m.update_battery(101).is_none());
    let p = m.update_battery(40).unwrap();
    assert_eq!(p.battery, 40);
    assert!(!m.is_advertising());
    m.battery_updated(40);
    assert!(m.is_advertising());
    assert_eq!(m.advertise_params.as_ref().unwrap().battery, 40);
    let txt = txt_properties(&p);
    assert_eq!(txt[1], ("name".to_string(), "TWU=".to_string()));
    assert_eq!(txt[4], ("battery".to_string(), "40".to_string()));
    assert!(m.start_browser());
    assert!(!m.start_browser());
    m.stop_browser();
    m.stop_advertiser();
    assert!(!m.is_advertising());
}

#[test]
fn resolved_services() {
    assert!(resolve_service("", "TWU=", "pc", None, "1.2.3.4", 1, "me").is_none());
    assert!(resolve_service("me", "TWU=", "pc", None, "1.2.3.4", 1, "me").is_none());
    let d = resolve_service("peer", "UGVlcg==", "phone", Some("77"), "1.2.3.4", 5, "me").unwrap();
    assert_eq!(d.name, "Peer");
    assert_eq!(d.battery, 77);
    let e = resolve_service("peer", "***", "phone", Some("x"), "", 5, "").unwrap();
    assert_eq!(e.name, "");
    assert_eq!(e.battery, -101);
    let f = resolve_service("peer", "/w==", "phone", None, "", 5, "").unwrap();
    assert_eq!(f.name, "/w==");
}

#[test]
fn device_list_marks_paired_and_online() {
    let mut c = CoreContext::new();
    c.registry.upsert_at("a", "Ay", "10.0.0.1", 23333, 80, "pc", 100);
    c.discovery.add_known_device("k", "10.0.0.9");
    c.crypto.set_device_key("p".to_string(), "pk".to_string(), base64::engine::general_purpose::STANDARD.encode(&[1u8; 32]));
    c.crypto.set_device_key("a".to_string(), "pk".to_string(), base64::engine::general_purpose::STANDARD.encode(&[2u8; 32]));
    let list = c.device_list_json(110, 20_000, 5_000);
    let v: serde_json::Value = serde_json::from_str(&list).unwrap();
    let arr = v.as_array().unwrap();
    assert_eq!(arr.len(), 3);
    assert_eq!(arr[0]["uuid"], "a");
    assert_eq!(arr[0]["paired"], true);
    assert_eq!(arr[0]["online"], true);
    assert_eq!(arr[1]["uuid"], "k");
    assert_eq!(arr[1]["port"], 23333);
    assert_eq!(arr[1]["battery"], -101);
    assert_eq!(arr[1]["online"], false);
    assert_eq!(arr[2]["uuid"], "p");
    assert_eq!(arr[2]["ip"], "");
    assert_eq!(arr[2]["port"], 0);
    assert!(list.starts_with(r#"[{"battery":80,"connected":false,"deviceType":"pc","ip":"10.0.0.1","lastSeen":100,"name":"Ay","online":true,"paired":true,"port":23333,"uuid":"a"}"#));
    let late = c.device_list_json(115, 20_000, 5_000);
    let w: serde_json::Value = serde_json::from_str(&late).unwrap();
    assert_eq!(w[0]["online"], true);
    let later = c.device_list_json(200, 20_000, 5_000);
    let x: serde_json::Value = serde_json::from_str(&later).unwrap();
    assert_eq!(x[0]["online"], false);
}

#[test]
fn dedup_actions() {
    let mut d = DedupState::new();
    assert_eq!(d.apply_action(0, "", 1000, 0, 0), 0);
    assert_eq!(d.apply_action(0, "k", 1000, 0, 0), 1);
    assert_eq!(d.apply_action(0, "k", 1000, 0, 1), 0);
    assert_eq!(d.apply_action(1, "k", 0, 0, 5), 0);
    assert_eq!(d.apply_action(0, "k", 1000, 0, 10), 0);
    assert_eq!(d.apply_action(3, "", 5000, 1000, 0), 0);
    assert_eq!(d.apply_action(0, "k", 1000, 0, 6000), 1);
    assert_eq!(d.apply_action(2, "k", 0, 0, 0), 0);
    assert_eq!(d.apply_action(9, "k", 0, 0, 0), -1);
}

#[test]
fn connection_answers() {
    assert_eq!(connect_step(Some(244)), ConnectStep::Accepted);
    assert_eq!(connect_step(Some(245)), ConnectStep::Rejected);
    assert_eq!(connect_step(Some(0)), ConnectStep::Retry);
    assert_eq!(connect_step(None), ConnectStep::Retry);
}
