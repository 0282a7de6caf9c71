use notify_relay_core::app_sync::{parse_icon_response, prepare_icon_request, AppSyncState};
use notify_relay_core::clipboard::{on_changed_for_targets, on_received, ClipboardState};
use notify_relay_core::diff::{compute_superisland_diff, DiffDecision};
use notify_relay_core::filter::FilterState;
use notify_relay_core::network::SessionTable;
use notify_relay_core::sender_queue::SenderQueue;

#[test]
fn test_prepare_icon_request_ffi() {
    let mut state = AppSyncState::new();
    let packages = vec!["com.a".to_string(), "com.b".to_string()];
    let installed = vec!["com.b".to_string()];
    let out = prepare_icon_request(&mut state, &packages, &installed, &[], &Vec::new(), "dev1", 1000);
    assert!(out.contains("com.a"));
    assert!(!out.contains("com.b"));
}

#[test]
fn test_parse_icon_response_ffi() {
    let out = parse_icon_response(r#"{"icons":[{"packageName":"com.a","iconData":"A"}],"missing":["com.b"]}"#);
    assert!(out.contains("\"com.a\""));
    assert!(out.contains("\"com.b\""));
}

#[test]
fn test_clipboard_on_changed_no_targets() {
    let mut state = ClipboardState::new();
    let mut queue = SenderQueue::new();
    let s = on_changed_for_targets(&mut state, &mut queue, &[], "text/plain", "hello", 1000, false);
    assert!(s.contains("no targets"));
    assert_eq!(queue.pending_count(), 0);
    assert_eq!(state.last_content, "");
    // Empty ids do not count as targets.
    let s2 = on_changed_for_targets(&mut state, &mut queue, &[String::new()], "text/plain", "hello", 1000, false);
    assert_eq!(s2, r#"{"action":"skipped","reason":"no targets"}"#);
    // With a target the change is sent.
    let s3 = on_changed_for_targets(&mut state, &mut queue, &["dev1".to_string()], "text/plain", "hello", 1000, false);
    assert_eq!(s3, r#"{"action":"sent"}"#);
    assert_eq!(queue.pending_count(), 1);
}

#[test]
fn test_clipboard_on_received() {
    let mut state = ClipboardState::new();
    let s = on_received(&mut state, r#"{"clipboardType":"image/png","content":"AAA="}"#, 2000);
    assert!(s.contains("\"type\":\"image\""));
}

#[test]
fn test_diff_ffi_full() {
    assert_eq!(compute_superisland_diff("", "{}"), DiffDecision::Full);
}

#[test]
fn test_set_and_check_filter() {
    let mut state = FilterState::new();
    assert!(state.config.apply_json(r#"{"filterMode":1,"filterList":["com.allowed"]}"#));
    assert!(state.config.check_filter_mode("com.allowed", "", ""));
    assert!(!state.config.check_filter_mode("com.blocked", "", ""));
}

#[test]
fn test_get_connected_count_empty() {
    let t = SessionTable::new();
    assert_eq!(t.connected_count(), 0);
}

#[test]
fn test_is_device_connected_false() {
    let t = SessionTable::new();
    assert!(!t.is_connected("test-uuid"));
}

#[test]
fn test_test_remove_device_session_not_exists() {
    let mut t = SessionTable::new();
    t.remove_session("test-uuid");
    assert_eq!(t.connected_count(), 0);
}

#[test]
fn mod_test_remove_device_session_not_exists() {
    let mut t = SessionTable::new();
    t.remove_session("test-uuid");
    assert!(!t.is_connected("test-uuid"));
}
