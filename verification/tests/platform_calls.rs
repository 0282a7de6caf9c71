use notify_relay_core::context::CoreContext;
use notify_relay_core::crypto::ecdh::generate_keypair;
use notify_relay_core::crypto::keys::CryptoState;
use notify_relay_core::dedup::DedupState;
use notify_relay_core::persistence::{apply_keystore_data, export_keystore, PersistedDevice};
use notify_relay_core::processing::derive_device_key;
use notify_relay_core::reconnect::ReconnectState;
use notify_relay_core::sender_queue::{message_item, settle_dedup, SendOutcome};
use notify_relay_core::utils::generate_pairing_code;

#[test]
fn notification_items_get_their_time_and_duplicates_are_refused() {
    let mut dedup = DedupState::new();
    let item = message_item(&mut dedup, "dev1", "DATA_NOTIFICATION", r#"{"title":"a"}"#, "k1", 5000).unwrap();
    assert_eq!(item.device_uuid, "dev1");
    assert_eq!(item.header, "DATA_NOTIFICATION");
    assert_eq!(item.plaintext, r#"{"title":"a","ts":5000}"#);
    assert_eq!(item.dedup_key.as_deref(), Some("k1"));
    assert_eq!(item.retries_left, 0);
    assert!(item.coalesce_key.is_none());
    // The same key is pending: refused.
    assert!(message_item(&mut dedup, "dev1", "DATA_NOTIFICATION", r#"{"title":"a"}"#, "k1", 5001).is_none());
    // Other headers keep their payload; no key, no de-duplication.
    let other = message_item(&mut dedup, "dev1", "DATA_CLIPBOARD", r#"{"content":"x"}"#, "", 5002).unwrap();
    assert_eq!(other.plaintext, r#"{"content":"x"}"#);
    assert!(other.dedup_key.is_none());
}

#[test]
fn sent_key_blocks_for_three_seconds() {
    let mut dedup = DedupState::new();
    assert!(message_item(&mut dedup, "d", "DATA_FTP", "{}", "k", 1000).is_some());
    dedup.mark_sent_at("k", 1000);
    assert!(message_item(&mut dedup, "d", "DATA_FTP", "{}", "k", 3999).is_none());
    assert!(message_item(&mut dedup, "d", "DATA_FTP", "{}", "k", 4001).is_some());
}

#[test]
fn device_key_derived_from_public_key_matches_on_both_sides() {
    let (a_secret, a_pub) = generate_keypair();
    let (b_secret, b_pub) = generate_keypair();
    let mut a = CryptoState::new();
    a.local_key = Some(a_secret);
    let mut b = CryptoState::new();
    b.local_key = Some(b_secret);
    assert!(derive_device_key(&mut a, "b", &b_pub));
    assert!(derive_device_key(&mut b, "a", &a_pub));
    assert_eq!(a.get_aes_key("b"), b.get_aes_key("a"));
    assert_eq!(a.remote_pub_key("b").as_deref(), Some(b_pub.as_str()));
    // A bad public key or no local key changes nothing.
    assert!(!derive_device_key(&mut a, "c", "not-a-key"));
    assert!(!a.has_device_key("c"));
    let mut none = CryptoState::new();
    assert!(!derive_device_key(&mut none, "b", &b_pub));
    assert!(!none.has_device_key("b"));
}

#[test]
fn forgetting_a_device_drops_its_keys_and_schedules_its_row() {
    let mut ctx = CoreContext::new();
    ctx.crypto.set_device_key("dev1".to_string(), "pk".to_string(), "a2V5".to_string());
    ctx.registry.upsert_at("dev1", "Phone", "10.0.0.2", 23333, 50, "phone", 100);
    ctx.discovery.add_known_device("dev1", "10.0.0.2");
    let row = PersistedDevice::from_row(
        "dev1".to_string(), "pk".to_string(), "a2V5".to_string(), true,
        "Phone".to_string(), "10.0.0.2".to_string(), 23333, 1, 2,
    );
    ctx.persisted_devices.push(("dev1".to_string(), row));
    ctx.forget_device("dev1");
    assert!(!ctx.crypto.has_device_key("dev1"));
    assert!(ctx.registry.get("dev1").is_none());
    assert!(ctx.discovery.get_known_devices().is_empty());
    assert!(ctx.persisted_devices.is_empty());
    assert_eq!(ctx.pending_device_deletions, vec!["dev1".to_string()]);
    assert!(ctx.persistence_dirty);
}

#[test]
fn pairing_codes_are_six_digits_and_expire() {
    let code = generate_pairing_code();
    assert_eq!(code.chars().count(), 6);
    assert!(code.chars().all(|c| c.is_ascii_digit()));
    let mut ctx = CoreContext::new();
    ctx.set_pairing_code(code.clone(), 1_000, 0);
    assert_eq!(ctx.pairing_code.as_deref(), Some(code.as_str()));
    assert_eq!(ctx.pairing_code_expiry_ms, Some(301_000));
    ctx.set_pairing_code("123456".to_string(), 1_000, 10);
    assert_eq!(ctx.pairing_code_expiry_ms, Some(11_000));
    ctx.set_pairing_code("123456".to_string(), u64::MAX - 5, 10);
    assert_eq!(ctx.pairing_code_expiry_ms, Some(u64::MAX));
    ctx.clear_pairing_code();
    assert!(ctx.pairing_code.is_none());
    assert!(ctx.pairing_code_expiry_ms.is_none());
}

#[test]
fn reconnect_worker_runs_between_start_and_stop() {
    let mut r = ReconnectState::new();
    assert!(!r.running());
    assert!(r.start());
    assert!(r.running());
    assert!(!r.start());
    r.stop();
    assert!(!r.running());
}

#[test]
fn finished_sends_settle_their_keys() {
    let mut dedup = DedupState::new();
    assert!(dedup.check_and_pend_at("a", 3000, 100));
    assert!(dedup.check_and_pend_at("b", 3000, 100));
    assert!(dedup.check_and_pend_at("c", 3000, 100));
    settle_dedup(&mut dedup, &Some("a".to_string()), SendOutcome::Sent, 200);
    settle_dedup(&mut dedup, &Some("b".to_string()), SendOutcome::Dropped, 200);
    settle_dedup(&mut dedup, &Some("c".to_string()), SendOutcome::Requeued, 200);
    // Sent: blocked for the time-to-live; dropped: free again; requeued: still pending.
    assert!(!dedup.check_and_pend_at("a", 3000, 300));
    assert!(dedup.check_and_pend_at("a", 3000, 3300));
    assert!(dedup.check_and_pend_at("b", 3000, 300));
    assert!(!dedup.check_and_pend_at("c", 3000, 300));
}

#[test]
fn raw_keys_are_taken_over_only_at_32_bytes() {
    let mut c = CryptoState::new();
    assert!(!c.import_raw_key("d", &[1u8; 16]));
    assert!(!c.has_device_key("d"));
    assert!(c.import_raw_key("d", &[1u8; 32]));
    assert_eq!(c.get_aes_key("d"), Some([1u8; 32]));
    assert_eq!(c.remote_pub_key("d").as_deref(), Some(""));
}

#[test]
fn exported_key_store_loads_back() {
    let (secret, public) = generate_keypair();
    let mut c = CryptoState::new();
    c.local_key = Some(secret);
    c.local_pub_key_b64 = Some(public.clone());
    assert!(c.import_raw_key("a", &[3u8; 32]));
    let data = export_keystore(&c);
    assert!(data.local_private_key_pem.is_some());
    assert_eq!(data.local_public_key_b64.as_deref(), Some(public.as_str()));
    let mut d = CryptoState::new();
    apply_keystore_data(&mut d, &data);
    assert_eq!(d.local_key, Some(secret));
    assert_eq!(d.get_aes_key("a"), Some([3u8; 32]));
}
