use notify_relay_core::protocol::codec::{
    decode_discovery_request, encode_accept, encode_data_message, encode_discovery_request, encode_handshake,
    encode_pairing_init, encode_pairing_resp, encode_reject_with_reason, decode_reject_payload,
};
use notify_relay_core::protocol::version;
use notify_relay_core::protocol::binary_codec::{read_frame, write_frame, FrameError};

fn payload(frame: &[u8]) -> String {
    String::from_utf8_lossy(&frame[5..]).to_string()
}

#[test]
fn data_frame_carries_version_in_plaintext() {
    let frame = encode_data_message("DATA_NOTIFICATION", "uuid-1", "", "enc");
    let text = payload(&frame);
    let parts: Vec<&str> = text.splitn(5, ':').collect();
    assert_eq!(parts.len(), 5, "DATA 帧应为 5 段: {}", text);
    assert_eq!(parts[0], "DATA_NOTIFICATION");
    assert_eq!(parts[1], "uuid-1");
    assert_eq!(parts[2], version::CORE_VERSION);
    assert_eq!(parts[3], "");
    assert_eq!(parts[4], "enc");
}

#[test]
fn pairing_init_carries_version_as_second_field() {
    let frame = encode_pairing_init("uuid-a", "spake", "1.2.3.4", 50, "phone");
    let text = payload(&frame);
    assert_eq!(text.split(':').nth(1), Some(version::CORE_VERSION));
}

#[test]
fn pairing_resp_carries_version_as_second_field() {
    let frame = encode_pairing_resp("uuid-b", "spake", "enc", "1.2.3.4", 50, "pc");
    let text = payload(&frame);
    assert_eq!(text.split(':').nth(1), Some(version::CORE_VERSION));
}

#[test]
fn accept_carries_version_as_second_field() {
    let frame = encode_accept("uuid-a", "enc_lt", "", 0, "");
    let text = payload(&frame);
    assert_eq!(text.split(':').nth(1), Some(version::CORE_VERSION));
}

#[test]
fn handshake_carries_core_version() {
    let frame = encode_handshake("uuid-1", "127.0.0.1", 50, "desktop");
    let text = payload(&frame);
    assert!(
        text.contains(&format!("\"coreVersion\":\"{}\"", version::CORE_VERSION)),
        "HANDSHAKE 必须携带 coreVersion: {}",
        text
    );
}

#[test]
fn frame_roundtrip_and_short_buffer() {
    let f = write_frame(10, b"hello");
    assert_eq!(f.len(), 10);
    assert_eq!(read_frame(&f), Ok((10u8, b"hello".to_vec())));
    assert_eq!(read_frame(&f[..3]), Err(FrameError::Incomplete));
}

#[test]
fn discovery_request_roundtrip() {
    let line = encode_discovery_request("u1", "bmFtZQ==", 23333, -5, "pc");
    let decoded = decode_discovery_request(&line);
    assert_eq!(decoded, Some(("u1".to_string(), "bmFtZQ==".to_string(), 23333u16, -5i32, "pc".to_string())));
}

#[test]
fn reject_with_reason_roundtrip() {
    let frame = encode_reject_with_reason("uuid-z", "busy");
    let parsed = decode_reject_payload(&frame[5..]);
    assert_eq!(parsed, Some(("uuid-z".to_string(), "busy".to_string())));
}
