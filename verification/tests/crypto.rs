use notify_relay_core::crypto::aes::{decrypt, decrypt_with_aad, encrypt, encrypt_with_aad};
use base64::Engine;
use notify_relay_core::crypto::b64::{b64_encode, decode_key};
use notify_relay_core::crypto::digest::{hex_lower, sha1_hex, sha256_hex};
use notify_relay_core::crypto::ecdh::{compute_shared_secret, generate_keypair, public_key_to_b64, secret_from_pem, secret_to_pem};
use notify_relay_core::crypto::hkdf::{derive_pairing_key, derive_session_key};
use notify_relay_core::crypto::spake2::{generate_prover_session, generate_verifier_session, prover_complete, verifier_complete};

const KEY: [u8; 32] = [9u8; 32];
const SAMPLE_LT_PUB: &str = "BASE64_LT_PUB_KEY_SAMPLE_VALUE_AAAA";

#[test]
fn aad_roundtrip_with_matching_aad() {
    let enc = encrypt_with_aad(&KEY, b"hello", b"aad-v0.2").unwrap();
    let dec = decrypt_with_aad(&KEY, &enc, b"aad-v0.2").unwrap();
    assert_eq!(dec, b"hello");
}

#[test]
fn mismatched_aad_fails_decryption() {
    let enc = encrypt_with_aad(&KEY, b"hello", b"aad-v0.2").unwrap();
    assert!(decrypt_with_aad(&KEY, &enc, b"aad-v0.3").is_err());
    assert!(decrypt(&KEY, &enc).is_err());
}

#[test]
fn aad_encrypted_payload_is_not_plaintext() {
    let enc = encrypt_with_aad(&KEY, b"secret", b"aad").unwrap();
    assert_ne!(enc, "secret");
}

#[test]
fn spake2_ks_symmetric_and_ltpub_encrypted_not_plaintext() {
    let code = "123456";
    let (prover, prover_pub) = generate_prover_session(code);
    let (verifier, verifier_pub) = generate_verifier_session(code);
    let shared_p = prover_complete(prover, &verifier_pub).expect("prover");
    let shared_v = verifier_complete(verifier, &prover_pub).expect("verifier");
    assert_eq!(shared_p, shared_v);
    let ks_p = derive_session_key(&shared_p);
    let ks_v = derive_session_key(&shared_v);
    assert_eq!(ks_p, ks_v);
    let enc = encrypt(&ks_v, SAMPLE_LT_PUB.as_bytes()).expect("encrypt");
    assert_ne!(enc, SAMPLE_LT_PUB);
    let dec = decrypt(&ks_p, &enc).expect("decrypt");
    assert_eq!(dec, SAMPLE_LT_PUB.as_bytes());
}

#[test]
fn spake2_wrong_code_gives_different_keys() {
    let (prover, prover_pub) = generate_prover_session("123456");
    let (verifier, verifier_pub) = generate_verifier_session("654321");
    let shared_p = prover_complete(prover, &verifier_pub).unwrap();
    let shared_v = verifier_complete(verifier, &prover_pub).unwrap();
    assert_ne!(shared_p, shared_v);
}

#[test]
fn encrypt_decrypt_roundtrip_and_tamper() {
    let enc = encrypt(&KEY, b"payload").unwrap();
    assert_eq!(decrypt(&KEY, &enc).unwrap(), b"payload");
    let other = [1u8; 32];
    assert!(decrypt(&other, &enc).is_err());
    assert!(decrypt(&KEY, "!!!not base64").is_err());
    assert!(decrypt(&KEY, "AAAA").is_err());
}

#[test]
fn base64_roundtrip_and_key_decoding() {
    assert_eq!(b64_encode("hello"), "aGVsbG8=");
    assert_eq!(b64_encode("\u{ff}"), "w78=");
    assert_eq!(decode_key("***"), None);
    let k = base64::engine::general_purpose::STANDARD.encode([7u8; 32]);
    assert_eq!(decode_key(&k), Some([7u8; 32]));
    assert_eq!(decode_key("aGVsbG8="), None);
}

#[test]
fn ecdh_both_sides_agree() {
    let (a, a_pub) = generate_keypair();
    let (b, b_pub) = generate_keypair();
    assert_eq!(public_key_to_b64(&a), Some(a_pub.clone()));
    let s1 = compute_shared_secret(&a, &b_pub).unwrap();
    let s2 = compute_shared_secret(&b, &a_pub).unwrap();
    assert_eq!(s1, s2);
    assert_eq!(derive_session_key(&s1), derive_session_key(&s2));
    assert_ne!(derive_session_key(&s1), derive_pairing_key(&s1));
    assert!(compute_shared_secret(&a, "not a key").is_err());
}

#[test]
fn pem_roundtrip() {
    let (a, _) = generate_keypair();
    let pem = secret_to_pem(&a).unwrap();
    assert!(pem.contains("PRIVATE KEY"));
    assert_eq!(secret_from_pem(&pem).unwrap(), a);
    assert!(secret_from_pem("garbage").is_err());
}

#[test]
fn digests_in_hex() {
    assert_eq!(hex_lower(&[0u8, 15, 16, 255]), "000f10ff");
    assert_eq!(sha256_hex(""), "e3b0c44298fc1c149afbf4c8996fb92427ae41e4649b934ca495991b7852b855");
    assert_eq!(sha1_hex("abc"), "a9993e364706816aba3e25717850c26c9cd0d89d");
}

#[test]
fn public_key_only_for_scalars_below_the_order() {
    assert_eq!(public_key_to_b64(&[0u8; 32]), None);
    assert_eq!(public_key_to_b64(&[0xffu8; 32]), None);
    let order: [u8; 32] = [
        0xff, 0xff, 0xff, 0xff, 0x00, 0x00, 0x00, 0x00, 0xff, 0xff, 0xff, 0xff, 0xff, 0xff, 0xff, 0xff,
        0xbc, 0xe6, 0xfa, 0xad, 0xa7, 0x17, 0x9e, 0x84, 0xf3, 0xb9, 0xca, 0xc2, 0xfc, 0x63, 0x25, 0x51,
    ];
    assert_eq!(public_key_to_b64(&order), None);
    let mut below = order;
    below[31] = 0x50;
    assert!(public_key_to_b64(&below).is_some());
    let mut one = [0u8; 32];
    one[31] = 1;
    let pk = public_key_to_b64(&one).unwrap();
    let bytes = base64::engine::general_purpose::STANDARD.decode(pk).unwrap();
    assert_eq!(bytes.len(), 65);
}

#[test]
fn spake2_messages_carry_their_side() {
    let (_p, prover_pub) = generate_prover_session("123456");
    let (_v, verifier_pub) = generate_verifier_session("123456");
    let pm = base64::engine::general_purpose::STANDARD.decode(&prover_pub).unwrap();
    let vm = base64::engine::general_purpose::STANDARD.decode(&verifier_pub).unwrap();
    assert_eq!(pm.len(), 33);
    assert_eq!(vm.len(), 33);
    assert_eq!(pm[0], 0x41);
    assert_eq!(vm[0], 0x42);
}

#[test]
fn spake2_refuses_a_message_from_the_same_side() {
    let (prover, _) = generate_prover_session("123456");
    let (_other, other_pub) = generate_prover_session("123456");
    assert!(prover_complete(prover, &other_pub).is_err());
    let (verifier, _) = generate_verifier_session("123456");
    assert!(verifier_complete(verifier, "not base64!").is_err());
}

#[test]
fn spake2_key_is_32_bytes() {
    let (prover, prover_pub) = generate_prover_session("000000");
    let (verifier, verifier_pub) = generate_verifier_session("000000");
    assert_eq!(prover_complete(prover, &verifier_pub).unwrap().len(), 32);
    assert_eq!(verifier_complete(verifier, &prover_pub).unwrap().len(), 32);
}
