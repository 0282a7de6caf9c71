use notify_relay_core::timestamp::{extract_ts, inject_ts, is_stale, now_ms, STATE_MAX_AGE_MS};

#[test]
fn now_ms_is_positive() {
    assert!(now_ms() > 0);
}

#[test]
fn missing_timestamp_is_never_stale() {
    assert!(!is_stale(0, now_ms()));
    assert!(!is_stale(-1, now_ms()));
}

#[test]
fn fresh_timestamp_is_not_stale() {
    let now = now_ms();
    assert!(!is_stale(now, now));
    assert!(!is_stale(now - STATE_MAX_AGE_MS, now));
}

#[test]
fn old_timestamp_is_stale() {
    let now = now_ms();
    assert!(is_stale(now - STATE_MAX_AGE_MS - 1, now));
}

#[test]
fn extreme_times_do_not_overflow() {
    assert!(is_stale(1, i64::MAX));
    assert!(!is_stale(i64::MAX, i64::MIN));
}

#[test]
fn extract_ts_reads_integer_field() {
    assert_eq!(extract_ts(r#"{"ts":1234,"x":1}"#), Some(1234));
    assert_eq!(extract_ts("not json"), None);
    assert_eq!(extract_ts(r#"{"ts":"1"}"#), None);
}

#[test]
fn extract_and_inject_roundtrip() {
    let injected = inject_ts(r#"{"title":"t"}"#, 1234);
    assert_eq!(extract_ts(&injected), Some(1234));
    let kept = inject_ts(&injected, 9999);
    assert_eq!(extract_ts(&kept), Some(1234));
}

#[test]
fn inject_ts_passes_through_non_object() {
    assert_eq!(inject_ts("not json", 1), "not json");
    assert_eq!(inject_ts("[1,2]", 1), "[1,2]");
    assert_eq!(extract_ts("not json"), None);
}

#[test]
fn inject_ts_places_ts_in_name_order() {
    assert_eq!(inject_ts(r#"{"z":1,"a":"x"}"#, 7), r#"{"a":"x","ts":7,"z":1}"#);
    assert_eq!(inject_ts(r#"{"ts":3}"#, 7), r#"{"ts":3}"#);
}
