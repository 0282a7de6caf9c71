use notify_relay_core::audio_stream::{decoder_frame_size, encode_chunk_len};
use notify_relay_core::timestamp::{ms_of_reading, secs_of_reading, units_u64};
use base64::Engine;
use notify_relay_core::audio_codec::jitter::JitterBuffer;
use notify_relay_core::crypto::aes::{decrypt, encrypt};
use notify_relay_core::dedup::DedupState;
use notify_relay_core::device_registry::now_sec;
use notify_relay_core::heartbeat::HeartbeatState;
use notify_relay_core::protocol::codec::{decode_reject_payload, encode_reject, encode_reject_with_reason};
use notify_relay_core::protocol::header::DeviceType;
use notify_relay_core::timestamp::now_ms;

#[test]
fn jitter_missing_sequence_blocks_delivery() {
    let mut b = JitterBuffer::new();
    b.push_at(5, vec![5], 0);
    b.push_at(6, vec![6], 0);
    b.push_at(8, vec![8], 0);
    assert_eq!(b.pop_at(10), Some(vec![5]));
    assert_eq!(b.pop_at(10), Some(vec![6]));
    assert_eq!(b.pop_at(10), None);
    assert_eq!(b.len(), 1);
}

#[test]
fn jitter_gap_then_resume() {
    let mut b = JitterBuffer::new();
    b.push_at(1, vec![1], 0);
    assert_eq!(b.pop_at(1), Some(vec![1]));
    b.push_at(4, vec![4], 0);
    assert_eq!(b.pop_with_gap_at(1), (None, 2));
    assert_eq!(b.pop_with_gap_at(1), (Some(vec![4]), 0));
    assert_eq!(b.pop_with_gap_at(1), (None, 0));
}

#[test]
fn jitter_reset_restarts_at_smallest() {
    let mut b = JitterBuffer::new();
    b.push_at(10, vec![10], 0);
    assert_eq!(b.pop_at(1), Some(vec![10]));
    b.push_at(20, vec![20], 0);
    b.reset();
    assert!(b.is_empty());
    assert_eq!(b.len(), 0);
    b.push_at(3, vec![3], 5);
    assert_eq!(b.pop_at(6), Some(vec![3]));
}

#[test]
fn dedup_cleared_key_is_admitted_again() {
    let mut d = DedupState::new();
    assert!(d.check_and_pend_at("k", 3000, 100));
    assert!(!d.check_and_pend_at("k", 3000, 101));
    d.clear_pending("k");
    assert!(d.check_and_pend_at("k", 3000, 102));
    d.clear_pending("other");
    assert!(!d.check_and_pend_at("k", 3000, 103));
}

#[test]
fn reject_payloads_round_trip() {
    let frame = encode_reject_with_reason("dev-1", "version_mismatch");
    assert_eq!(decode_reject_payload(&frame[5..]), Some(("dev-1".to_string(), "version_mismatch".to_string())));
    let frame = encode_reject("dev-2");
    assert_eq!(decode_reject_payload(&frame[5..]), Some(("dev-2".to_string(), "rejected".to_string())));
    assert_eq!(decode_reject_payload(b""), None);
    assert_eq!(decode_reject_payload(b"   "), None);
    assert_eq!(decode_reject_payload(b":why"), None);
    assert_eq!(decode_reject_payload(&[0xff, 0xfe]), None);
}

#[test]
fn device_type_names_round_trip_and_ignore_case() {
    let all = [
        DeviceType::Phone,
        DeviceType::Pad,
        DeviceType::Tv,
        DeviceType::Laptop,
        DeviceType::Desktop,
        DeviceType::Speaker,
        DeviceType::Watch,
        DeviceType::Unknown,
    ];
    for d in all {
        assert_eq!(DeviceType::from_str(d.to_str()), d);
    }
    assert_eq!(DeviceType::from_str("PC"), DeviceType::Desktop);
    assert_eq!(DeviceType::from_str("Tablet"), DeviceType::Pad);
    assert_eq!(DeviceType::from_str("手机"), DeviceType::Phone);
    assert_eq!(DeviceType::from_str("desktop"), DeviceType::Desktop);
    assert_eq!(DeviceType::from_str(""), DeviceType::Unknown);
    assert_eq!(DeviceType::from_str("fridge"), DeviceType::Unknown);
}

#[test]
fn heartbeat_timeouts_name_each_device_once() {
    let mut h = HeartbeatState::new();
    h.record_at("a", 100);
    h.record_at("b", 100);
    h.record_at("a", 110);
    assert_eq!(h.check_timeouts_at(5, 200), vec!["b".to_string(), "a".to_string()]);
    h.record_at("a", 200);
    assert_eq!(h.check_timeouts_at(15, 200), vec!["b".to_string()]);
}

#[test]
fn clocks_are_not_negative() {
    assert!(now_ms() > 0);
    assert!(now_sec() > 0);
    assert!(now_ms() / 1000 >= now_sec() - 1);
}

#[test]
fn encryption_length_and_short_text_refused() {
    let key = [3u8; 32];
    let enc = encrypt(&key, b"hello").unwrap();
    let raw = base64::engine::general_purpose::STANDARD.decode(&enc).unwrap();
    assert_eq!(raw.len(), 28 + 5);
    let short = base64::engine::general_purpose::STANDARD.encode([0u8; 27]);
    assert!(decrypt(&key, &short).is_err());
}

#[test]
fn clock_readings_convert_exactly() {
    assert_eq!(ms_of_reading(None), 0);
    assert_eq!(ms_of_reading(Some(1_700_000_000_123)), 1_700_000_000_123);
    assert_eq!(ms_of_reading(Some(u128::MAX)), i64::MAX);
    assert_eq!(secs_of_reading(None), 0);
    assert_eq!(secs_of_reading(Some(1_700_000_000)), 1_700_000_000);
    assert_eq!(secs_of_reading(Some(u64::MAX)), i64::MAX);
    assert_eq!(units_u64(5), 5);
    assert_eq!(units_u64(u128::MAX), u64::MAX);
}

#[test]
fn jitter_clock_is_monotonic() {
    let b = JitterBuffer::new();
    let a = b.clock_ns();
    let c = b.clock_ns();
    assert!(c >= a);
    assert!(a < 1_000_000_000);
}

#[test]
fn jitter_depth_is_measured_to_the_nanosecond() {
    let mut b = JitterBuffer::new();
    b.push_at(1, vec![1], 0);
    b.push_at(2, vec![2], 0);
    assert_eq!(b.pop_at(100_000_000), Some(vec![1]));
    assert_eq!(b.pop_at(100_000_001), None);
    assert!(b.is_empty());
}

#[test]
fn audio_frame_arithmetic_at_its_bounds() {
    assert_eq!(decoder_frame_size(107_374_182), 2_147_483);
    assert_eq!(decoder_frame_size(-48_000), -960);
    assert_eq!(decoder_frame_size(-1), 0);
    assert_eq!(encode_chunk_len(10, 0, 5), 0);
    assert_eq!(encode_chunk_len(5_000_000, 960, 1000), 960_000);
}
