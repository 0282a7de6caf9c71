use notify_relay_core::processing::answer_pairing_init;
use notify_relay_core::processing::{heartbeat_address, pairing_outcome_json};
use notify_relay_core::protocol::binary_codec::read_frame;
use notify_relay_core::protocol::inbound::decode_pairing_resp;
use notify_relay_core::crypto::aes::encrypt;
use notify_relay_core::crypto::hkdf::derive_session_key;
use notify_relay_core::crypto::spake2::{generate_prover_session, generate_verifier_session};
use notify_relay_core::processing::{complete_pairing_resp, finish_pairing_resp};
use notify_relay_core::protocol::inbound::PairingResp;

fn resp(spake2_pub: &str, enc_lt_pub: &str) -> PairingResp {
    PairingResp {
        uuid: "peer-1".to_string(),
        version: "0.2.0".to_string(),
        spake2_pub: spake2_pub.to_string(),
        enc_lt_pub: enc_lt_pub.to_string(),
        ip: "10.0.0.2".to_string(),
        battery: 80,
        device_type: "phone".to_string(),
    }
}

#[test]
fn finish_pairing_resp_derives_key_and_opens_lt_pub() {
    let shared = [7u8; 32];
    let k = derive_session_key(&shared);
    let enc = encrypt(&k, b"LT_PUB_OF_PEER").unwrap();
    let out = finish_pairing_resp(&resp("x", &enc), &shared);
    assert_eq!(out.session_key, Some(k));
    assert_eq!(out.lt_pub.as_deref(), Some("LT_PUB_OF_PEER"));
    assert!(out.data.contains("\"lt_pub\":\"LT_PUB_OF_PEER\""));
}

#[test]
fn finish_pairing_resp_keeps_key_when_lt_pub_does_not_open() {
    let shared = [7u8; 32];
    let other = derive_session_key(&[8u8; 32]);
    let enc = encrypt(&other, b"LT_PUB_OF_PEER").unwrap();
    let out = finish_pairing_resp(&resp("x", &enc), &shared);
    assert_eq!(out.session_key, Some(derive_session_key(&shared)));
    assert_eq!(out.lt_pub, None);
    assert!(out.data.contains("\"lt_pub\":\"\""));
}

#[test]
fn complete_pairing_resp_without_session_or_with_bad_message() {
    let out = complete_pairing_resp(&resp("x", "y"), None);
    assert_eq!(out.session_key, None);
    assert_eq!(out.lt_pub, None);
    let (prover, _) = generate_prover_session("111111");
    let out = complete_pairing_resp(&resp("not base64!", "y"), Some(prover));
    assert_eq!(out.session_key, None);
}

#[test]
fn complete_pairing_resp_with_verifier_message() {
    let (prover, _) = generate_prover_session("111111");
    let (_verifier, verifier_pub) = generate_verifier_session("111111");
    let out = complete_pairing_resp(&resp(&verifier_pub, "garbage"), Some(prover));
    assert!(out.session_key.is_some());
    assert_eq!(out.lt_pub, None);
}

#[test]
fn responder_reply_opens_at_the_initiator() {
    let (prover, prover_pub) = generate_prover_session("424242");
    let (verifier, verifier_pub) = generate_verifier_session("424242");
    let reply = answer_pairing_init(verifier, &prover_pub, "RESPONDER_LT", "resp-1", &verifier_pub, "10.0.0.9", 77, "pc")
        .expect("reply");
    let (t, payload) = read_frame(&reply.frame).unwrap();
    assert_eq!(t, 241);
    let f = decode_pairing_resp(&payload).expect("decodes");
    assert_eq!(f.uuid, "resp-1");
    assert_eq!(f.battery, 77);
    let out = complete_pairing_resp(&f, Some(prover));
    assert_eq!(out.session_key, Some(reply.session_key));
    assert_eq!(out.lt_pub.as_deref(), Some("RESPONDER_LT"));
}

#[test]
fn responder_refuses_a_bad_message() {
    let (verifier, verifier_pub) = generate_verifier_session("424242");
    assert!(answer_pairing_init(verifier, "not base64!", "LT", "r", &verifier_pub, "ip", 1, "pc").is_none());
}

#[test]
fn outcome_report_and_heartbeat_address() {
    assert_eq!(pairing_outcome_json("u1", false, "no_target_ip"), r#"{"error":"no_target_ip","success":false,"uuid":"u1"}"#);
    assert_eq!(heartbeat_address("10.0.0.1", "10.0.0.2"), "10.0.0.1");
    assert_eq!(heartbeat_address("", "10.0.0.2"), "10.0.0.2");
}
