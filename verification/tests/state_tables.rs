use notify_relay_core::context::BroadcastInfo;
use notify_relay_core::network::{first_frame_action, FirstFrameAction};
use notify_relay_core::protocol::binary_codec::read_frame;
use notify_relay_core::audio_codec::jitter::JitterBuffer;
use notify_relay_core::audio_stream::AudioStats;
use notify_relay_core::dedup::DedupState;
use notify_relay_core::device_registry::DeviceRegistry;
use notify_relay_core::discovery::{scan_interval_secs, DiscoveryState};
use notify_relay_core::handle::HandleTable;
use notify_relay_core::heartbeat::{next_heartbeat_interval, parse_udp_heartbeat, HeartbeatState, MAX_HEARTBEAT_INTERVAL_MS};
use notify_relay_core::network::{is_self_connection, peer_of_first_frame, SessionTable};
use notify_relay_core::reconnect::ReconnectState;

#[test]
fn jitter_hands_out_in_sequence_order() {
    let mut j = JitterBuffer::new();
    j.push_at(3, vec![3], 0);
    j.push_at(1, vec![1], 0);
    j.push_at(2, vec![2], 0);
    assert_eq!(j.len(), 3);
    assert_eq!(j.pop_at(10), Some(vec![1]));
    assert_eq!(j.pop_at(10), Some(vec![2]));
    assert_eq!(j.pop_at(10), Some(vec![3]));
    assert!(j.is_empty());
    assert_eq!(j.pop_at(10), None);
}

#[test]
fn jitter_reports_and_skips_gaps() {
    let mut j = JitterBuffer::new();
    j.push_at(10, vec![10], 0);
    assert_eq!(j.pop_with_gap_at(5), (Some(vec![10]), 0));
    j.push_at(14, vec![14], 0);
    assert_eq!(j.pop_with_gap_at(5), (None, 3));
    assert_eq!(j.pop_with_gap_at(5), (Some(vec![14]), 0));
}

#[test]
fn jitter_drops_stale_packets() {
    let mut j = JitterBuffer::new();
    j.push_at(1, vec![1], 0);
    assert_eq!(j.pop_at(1_000_000_000), None);
    assert!(j.is_empty());
    j.push_at(2, vec![2], 1_000);
    j.reset();
    assert!(j.is_empty());
}

#[test]
fn dedup_pending_then_sent_within_ttl() {
    let mut d = DedupState::new();
    assert!(d.check_and_pend_at("k", 1000, 0));
    assert!(!d.check_and_pend_at("k", 1000, 1));
    d.mark_sent_at("k", 10);
    assert!(!d.check_and_pend_at("k", 1000, 500));
    assert!(d.check_and_pend_at("k", 1000, 2000));
    d.clear_pending("k");
    assert!(d.check_and_pend_at("other", 1000, 0));
}

#[test]
fn registry_upsert_and_connect() {
    let mut r = DeviceRegistry::new();
    r.upsert_at("b", "Bee", "10.0.0.2", 23333, 50, "phone", 100);
    r.upsert_at("a", "Ay", "10.0.0.1", 23333, 80, "pc", 101);
    let snap = r.snapshot();
    assert_eq!(snap.len(), 2);
    assert_eq!(snap[0].uuid, "a");
    assert_eq!(snap[1].uuid, "b");
    r.mark_connected_at("a", "10.0.0.9", 200);
    let a = r.get("a").unwrap();
    assert!(a.connected);
    assert_eq!(a.ip, "10.0.0.9");
    assert_eq!(a.last_seen, 200);
    r.mark_disconnected("a");
    assert!(!r.get("a").unwrap().connected);
    r.remove("a");
    assert!(r.get("a").is_none());
    assert_eq!(r.snapshot().len(), 1);
}

#[test]
fn heartbeat_timeouts_and_backoff() {
    let mut h = HeartbeatState::new();
    h.record_at("a", 100);
    h.record_at("b", 150);
    assert_eq!(h.check_timeouts_at(30, 170), vec!["a".to_string()]);
    assert!(h.is_recently_seen("b", 170, 30));
    assert!(!h.is_recently_seen("a", 170, 30));
    h.remove("a");
    // A device never heard from counts as recently seen.
    assert!(h.is_recently_seen("a", 170, 30));
    assert_eq!(next_heartbeat_interval(5000, 5000, true), 5000);
    assert_eq!(next_heartbeat_interval(5000, 5000, false), 10000);
    assert_eq!(next_heartbeat_interval(40000, 5000, false), MAX_HEARTBEAT_INTERVAL_MS);
}

#[test]
fn udp_heartbeat_lines() {
    assert_eq!(
        parse_udp_heartbeat("u1:TmFtZQ==:23333:+80:phone"),
        Some(("u1".to_string(), "TmFtZQ==".to_string(), 23333, 80, "phone".to_string()))
    );
    assert_eq!(
        parse_udp_heartbeat("u1:n:70000:x:t"),
        Some(("u1".to_string(), "n".to_string(), 23333, 0, "t".to_string()))
    );
    assert_eq!(parse_udp_heartbeat("u1:n:1"), None);
}

#[test]
fn discovery_known_devices() {
    let mut d = DiscoveryState::new();
    d.add_known_device("a", "1.2.3.4");
    d.add_known_device("a", "1.2.3.5");
    d.add_known_device("b", "");
    let k = d.get_known_devices();
    assert_eq!(k.len(), 2);
    d.remove_known_device("a");
    assert_eq!(d.get_known_devices().len(), 1);
    assert!(d.start_known_device_scanner());
    assert!(!d.start_known_device_scanner());
    d.stop_scanner();
    assert_eq!(scan_interval_secs(true), 5);
    assert_eq!(scan_interval_secs(false), 15);
}

#[test]
fn reconnect_first_attempt_is_immediate() {
    let mut r = ReconnectState::new();
    r.add_target("a", "10.0.0.1");
    let mut hb = HeartbeatState::new();
    hb.record_at("a", 0);
    let round = r.plan_round(Some("self"), &hb, 1000, 1_000_000);
    assert_eq!(round, vec![("a".to_string(), "10.0.0.1".to_string())]);
    // Until the attempt is recorded the target stays due.
    assert_eq!(r.plan_round(Some("self"), &hb, 1000, 1_000_001).len(), 1);
    r.record_attempt("a", 1_000_001);
    let again = r.plan_round(Some("self"), &hb, 1000, 1_000_002);
    assert!(again.is_empty());
    r.remove_target("a");
    assert!(r.plan_round(Some("self"), &hb, 5000, 9_000_000).is_empty());
    // A device heard from recently is online: it is dropped from the targets.
    r.add_target("b", "10.0.0.2");
    hb.record_at("b", 4995);
    assert!(r.plan_round(Some("self"), &hb, 5000, 9_000_000).is_empty());
    hb.remove("b");
    assert!(r.plan_round(Some("self"), &hb, 5000, 9_000_000).is_empty());
}

#[test]
fn handle_table_round_trip() {
    let mut t = HandleTable::new();
    assert_eq!(t.put(0), 0);
    let h1 = t.put(0x1000);
    let h2 = t.put(0x2000);
    assert_eq!(h1, 1);
    assert_eq!(h2, 2);
    assert_eq!(t.count(), 2);
    assert_eq!(t.get(h1), 0x1000);
    assert_eq!(t.get(0), 0);
    assert_eq!(t.take(h1), 0x1000);
    assert_eq!(t.get(h1), 0);
    assert_eq!(t.take(h1), 0);
    assert_eq!(t.count(), 1);
}

#[test]
fn audio_stats_count() {
    let mut s = AudioStats::new(7);
    s.record_sent(100, 60);
    s.record_received(90);
    s.record_lost(2);
    assert_eq!(s.packets_sent, 1);
    assert_eq!(s.bytes_sent, 100);
    assert_eq!(s.opus_bytes_sent, 60);
    assert_eq!(s.packets_received, 1);
    assert_eq!(s.packets_lost, 2);
    assert_eq!(s.start_ms, 7);
}

#[test]
fn sessions_belong_to_their_connection() {
    let mut t = SessionTable::new();
    assert_eq!(t.connected_count(), 0);
    assert!(!t.is_connected("test-uuid"));
    t.remove_session("test-uuid");
    let c1 = t.register("a", "10.0.0.1");
    let c2 = t.register("a", "10.0.0.2");
    assert_ne!(c1, c2);
    assert!(!t.release("a", c1));
    assert!(t.is_connected("a"));
    assert!(t.release("a", c2));
    assert!(!t.is_connected("a"));
}

#[test]
fn first_frames_name_their_peer() {
    assert_eq!(peer_of_first_frame(10, b"DATA_NOTIFICATION:dev1:0.2.0:pk:enc"), Some("dev1".to_string()));
    assert_eq!(peer_of_first_frame(10, b"no-colon"), None);
    assert_eq!(peer_of_first_frame(240, b"dev2:0.2.0:x"), Some("dev2".to_string()));
    assert_eq!(peer_of_first_frame(240, b":x"), None);
    assert_eq!(peer_of_first_frame(244, b"  dev3\n"), Some("dev3".to_string()));
    assert_eq!(peer_of_first_frame(246, b"dev4"), None);
    let hs = br#"{"uuid":"dev5","pubKey":"k","deviceName":"n","deviceType":"pc","battery":50}"#;
    assert_eq!(peer_of_first_frame(1, hs), Some("dev5".to_string()));
    let hb = br#"{"uuid":"dev6","name":"n","port":23333,"battery":-1,"deviceType":"pc"}"#;
    assert_eq!(peer_of_first_frame(0, hb), Some("dev6".to_string()));
    assert!(is_self_connection("me", "me"));
    assert!(!is_self_connection("", ""));
}

#[test]
fn first_frame_discovery_request_is_answered() {
    let info = Some(BroadcastInfo {
        uuid: "me".to_string(),
        name_b64: "bmFtZQ==".to_string(),
        battery: 50,
        device_type: "pc".to_string(),
    });
    match first_frame_action(242, b"peer:bmFtZQ==:23333:80:phone", &info) {
        FirstFrameAction::AnswerDiscovery(frame) => {
            let (t, payload) = read_frame(&frame).unwrap();
            assert_eq!(t, 243);
            assert!(String::from_utf8(payload).unwrap().starts_with("me:bmFtZQ==:"));
        }
        _ => panic!("expected an answer"),
    }
    assert!(matches!(first_frame_action(242, b"x", &None), FirstFrameAction::Close));
    assert!(matches!(first_frame_action(242, &[0xff, 0xfe], &info), FirstFrameAction::Close));
    assert!(matches!(first_frame_action(244, b"dev3", &info), FirstFrameAction::Peer(ref u) if u == "dev3"));
    assert!(matches!(first_frame_action(246, b"dev4", &info), FirstFrameAction::NoPeer));
}
