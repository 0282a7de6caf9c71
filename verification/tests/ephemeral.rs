use base64::Engine;
use notify_relay_core::context::CoreContext;
use notify_relay_core::crypto::aes::encrypt;
use notify_relay_core::crypto::ecdh::generate_keypair;
use notify_relay_core::crypto::keys::CryptoState;
use notify_relay_core::ephemeral::{decrypt_payload, local_keypair_json, EphemeralPairing};
use notify_relay_core::persistence::export_keystore;

#[test]
fn pairing_code_travels_between_ephemeral_keys() {
    let mut a = EphemeralPairing::new();
    let mut b = EphemeralPairing::new();
    assert!(!a.has_keypair());
    assert!(a.encrypt_code("123456").is_none());
    assert!(!a.derive_pairing_key("x"));
    a.generate();
    b.generate();
    assert!(a.has_keypair());
    let pa = a.pub_b64.clone().unwrap();
    let pb = b.pub_b64.clone().unwrap();
    assert!(a.derive_pairing_key(&pb));
    assert!(b.derive_pairing_key(&pa));
    let enc = a.encrypt_code("123456").unwrap();
    assert_eq!(b.decrypt_code(&enc).as_deref(), Some("123456"));
    assert_eq!(b.decrypt_code("garbage"), None);
    a.clear();
    assert!(!a.has_keypair());
    assert!(a.pairing_key.is_none());
}

#[test]
fn payloads_decrypt_with_the_device_key() {
    let mut c = CryptoState::new();
    let key = [5u8; 32];
    let b64 = base64::engine::general_purpose::STANDARD.encode(key);
    c.set_device_key("dev".to_string(), "pk".to_string(), b64);
    let enc = encrypt(&key, b"hello").unwrap();
    assert_eq!(decrypt_payload(&c, "dev", &enc).as_deref(), Some("hello"));
    assert_eq!(decrypt_payload(&c, "other", &enc), None);
    assert_eq!(decrypt_payload(&c, "dev", "not-it"), None);
}

#[test]
fn key_pair_report_and_export_carry_the_pem() {
    let mut c = CryptoState::new();
    assert_eq!(local_keypair_json(&c), r#"{"private_key_pem":null,"public_key_b64":null}"#);
    let (secret, public) = generate_keypair();
    c.local_key = Some(secret);
    c.local_pub_key_b64 = Some(public.clone());
    let j: serde_json::Value = serde_json::from_str(&local_keypair_json(&c)).unwrap();
    assert!(j["private_key_pem"].as_str().unwrap().contains("BEGIN EC PRIVATE KEY"));
    assert_eq!(j["public_key_b64"].as_str().unwrap(), public);
    let data = export_keystore(&c);
    assert!(data.local_private_key_pem.is_some());
    c.local_key = Some([0u8; 32]);
    assert!(export_keystore(&c).local_private_key_pem.is_none());
}

#[test]
fn rename_device_updates_row_and_registry() {
    let mut ctx = CoreContext::new();
    assert!(!ctx.rename_device("", "name", 10));
    assert!(!ctx.rename_device("dev", "", 10));
    assert!(ctx.rename_device("dev", "Phone A", 10));
    let row = &ctx.persisted_devices.iter().rev().find(|(k, _)| k == "dev").unwrap().1;
    assert_eq!(row.display_name, "Phone A");
    assert_eq!(row.created_at, 10);
    assert_eq!(row.updated_at, 10);
    assert!(ctx.rename_device("dev", "Phone B", 20));
    let row = &ctx.persisted_devices.iter().rev().find(|(k, _)| k == "dev").unwrap().1;
    assert_eq!(row.display_name, "Phone B");
    assert_eq!(row.created_at, 10);
    assert_eq!(row.updated_at, 20);
    assert_eq!(ctx.registry.get("dev").unwrap().name, "Phone B");
}
