use notify_relay_core::context::{read_discovery_datagram, CoreContext, BROADCAST_INTERVAL_MS};
use notify_relay_core::crypto::aes::encrypt_with_aad;
use base64::Engine;
use notify_relay_core::crypto::ecdh::generate_keypair;
use notify_relay_core::crypto::keys::CryptoState;
use notify_relay_core::persistence::PersistedDevice;
use notify_relay_core::processing::{finish_pairing_initiator, open_data_frame, reject_events, DataError};
use notify_relay_core::protocol::binary_codec::{encode_data_frame, encode_handshake_frame, read_frame};
use notify_relay_core::protocol::json_frames::{decode_handshake_frame, decode_heartbeat_frame};
use notify_relay_core::protocol::version::data_aad;

#[test]
fn data_frame_opens_with_the_device_key() {
    let mut crypto = CryptoState::new();
    let key = [5u8; 32];
    crypto.set_device_key("dev1".to_string(), "pk".to_string(), base64::engine::general_purpose::STANDARD.encode(&key));
    let enc = encrypt_with_aad(&key, br#"{"title":"hi"}"#, &data_aad()).unwrap();
    let frame = encode_data_frame("DATA_NOTIFICATION", 10, "dev1", "pk", &enc);
    let (t, payload) = read_frame(&frame).unwrap();
    let ev = open_data_frame(&crypto, t, &payload).ok().unwrap();
    assert_eq!(ev.uuid, "dev1");
    assert_eq!(ev.plaintext, r#"{"title":"hi"}"#);
    let frame2 = encode_data_frame("DATA_NOTIFICATION", 10, "stranger", "pk", &enc);
    let (t2, p2) = read_frame(&frame2).unwrap();
    assert_eq!(open_data_frame(&crypto, t2, &p2).err(), Some(DataError::NoKey));
    assert_eq!(open_data_frame(&crypto, 10, b"garbage").err(), Some(DataError::Malformed));
}

#[test]
fn handshake_and_heartbeat_payloads_decode() {
    let frame = encode_handshake_frame("u1", "pk", "Name", "pc", 42, &["a", "b"]);
    let (_, payload) = read_frame(&frame).unwrap();
    let h = decode_handshake_frame(&payload).unwrap();
    assert_eq!(h.uuid, "u1");
    assert_eq!(h.pub_key, "pk");
    assert_eq!(h.device_name, "Name");
    assert_eq!(h.battery, 42);
    assert_eq!(h.feature_flag, Some(vec!["a".to_string(), "b".to_string()]));
    assert_eq!(h.core_version, Some("0.2.0".to_string()));
    assert!(decode_handshake_frame(br#"{"uuid":"u"}"#).is_none());
    assert!(decode_handshake_frame(br#"{"uuid":"u","pubKey":"k","deviceName":"n","deviceType":"t","battery":1.5}"#).is_none());
    let hb = decode_heartbeat_frame(br#"{"uuid":"u","name":"n","port":80,"battery":-3,"deviceType":"t","x":1}"#).unwrap();
    assert_eq!(hb.port, 80);
    assert_eq!(hb.battery, -3);
    assert!(decode_heartbeat_frame(br#"{"uuid":"u","name":"n","port":70000,"battery":1,"deviceType":"t"}"#).is_none());
}

#[test]
fn initiator_finish_stores_derived_key() {
    let (mine, mine_pub) = generate_keypair();
    let (_, peer_pub) = generate_keypair();
    let mut crypto = CryptoState::new();
    crypto.local_key = Some(mine);
    crypto.local_pub_key_b64 = Some(mine_pub);
    let out = finish_pairing_initiator(&mut crypto, "peer", [3u8; 32], &peer_pub, "me", "10.0.0.1", 50, "pc");
    assert!(!out.fallback);
    assert!(crypto.has_device_key("peer"));
    assert_eq!(crypto.remote_pub_key("peer"), Some(peer_pub));
    assert_eq!(out.accept[0], 244);
    let mut bare = CryptoState::new();
    let out2 = finish_pairing_initiator(&mut bare, "peer", [3u8; 32], "bad", "me", "", 0, "pc");
    assert!(out2.fallback);
    assert_eq!(bare.get_aes_key("peer"), Some([3u8; 32]));
}

#[test]
fn reject_reports() {
    let (a, b) = reject_events("u");
    assert_eq!(a, r#"{"uuid":"u"}"#);
    assert_eq!(b, r#"{"error":"rejected","success":false,"uuid":"u"}"#);
}

#[test]
fn context_identity_and_addresses() {
    let mut c = CoreContext::new();
    assert!(c.needs_persistence_load());
    assert!(!c.ensure_persistence_loaded(false, false));
    assert!(!c.needs_persistence_load());
    assert!(!c.adopt_stored_uuid(None));
    c.adopt_local_uuid("local-1");
    assert_eq!(c.local_uuid, "local-1");
    assert!(c.persistence_dirty && c.persistence_activated);
    assert!(!c.set_broadcast_info("local-1", "Me", 101, "pc"));
    assert!(c.set_broadcast_info("local-1", "Me", 100, "pc"));
    assert_eq!(c.broadcast_uuid(), Some("local-1"));
    c.record_device_ip("peer", "10.0.0.7");
    assert_eq!(c.device_ip("peer"), "10.0.0.7");
    assert_eq!(c.pairing_target_ip("peer"), "10.0.0.7");
    c.record_device_ip("peer", "0.0.0.0");
    assert_eq!(c.pairing_target_ip("peer"), "");
    assert_eq!(c.device_ip("nobody"), "");
}

#[test]
fn context_discovery_and_broadcast() {
    let mut c = CoreContext::new();
    assert!(c.set_broadcast_info("me", "Me", 50, "pc"));
    assert_eq!(c.consume_discovered_device("me", "TWU=", 23333, 50, "pc", "10.0.0.1", 1), None);
    let name = c.consume_discovered_device("peer", "UGVlcg==", 23333, 70, "phone", "10.0.0.2", 2);
    assert_eq!(name, Some("Peer".to_string()));
    assert_eq!(c.registry.get("peer").unwrap().ip, "10.0.0.2");
    assert_eq!(c.device_ip("peer"), "10.0.0.2");
    let (msg, t) = c.broadcast_round(0, BROADCAST_INTERVAL_MS);
    assert_eq!(t, BROADCAST_INTERVAL_MS);
    assert!(msg.unwrap().starts_with("me:"));
    let (none, t2) = c.broadcast_round(1000, 1500);
    assert!(none.is_none());
    assert_eq!(t2, 1000);
    assert!(c.start_broadcast());
    assert!(!c.start_broadcast());
    assert!(c.broadcast_running());
    c.stop_broadcast();
    assert!(!c.broadcast_running());
    assert_eq!(c.broadcast_uuid(), Some("me"));
    assert_eq!(
        read_discovery_datagram(b"  peer:UGVlcg==:23333:+70:phone \n"),
        Some(("peer".to_string(), "UGVlcg==".to_string(), 23333, 70, "phone".to_string()))
    );
    assert_eq!(read_discovery_datagram(b":x:1:1:t"), None);
    assert_eq!(read_discovery_datagram(&[0xff, 0xfe]), None);
}

#[test]
fn flush_plan_lists_each_device_once_in_order() {
    let mut c = CoreContext::new();
    c.crypto.set_device_key("b".to_string(), "pk-b".to_string(), base64::engine::general_purpose::STANDARD.encode(&[1u8; 32]));
    c.crypto.set_device_key("a".to_string(), "pk-a".to_string(), base64::engine::general_purpose::STANDARD.encode(&[2u8; 32]));
    c.persisted_devices.push((
        "b".to_string(),
        PersistedDevice::from_row("b".to_string(), String::new(), String::new(), false, "Bee".to_string(), "1.1.1.1".to_string(), 99999, 5, 6),
    ));
    c.persisted_devices.push((
        "c".to_string(),
        PersistedDevice::from_row("c".to_string(), String::new(), String::new(), true, String::new(), String::new(), 80, 7, 8),
    ));
    let uuids = c.flush_uuids();
    assert_eq!(uuids, vec!["a".to_string(), "b".to_string(), "c".to_string()]);
    let rows = c.flush_rows(&uuids, 100);
    assert_eq!(rows.len(), 3);
    assert_eq!(rows[0].0.public_key, "pk-a");
    assert!(rows[0].1);
    assert_eq!(rows[1].0.display_name, "Bee");
    assert_eq!(rows[1].0.last_port, 65535);
    assert_eq!(rows[1].0.created_at, 5);
    assert!(!rows[2].1);
    assert!(rows[2].0.is_accepted);
    assert_eq!(rows[2].0.updated_at, 100);
    let tomb = c.tombstones(&vec!["a".to_string(), "z".to_string(), "c".to_string(), "y".to_string()]);
    assert_eq!(tomb, vec!["z".to_string(), "y".to_string()]);
    c.mark_persistence_dirty();
    c.adopt_local_uuid("me");
    assert!(c.flush_due());
    c.flush_succeeded();
    assert!(!c.flush_due());
}
