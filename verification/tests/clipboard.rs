use notify_relay_core::clipboard::{normalize_content, normalize_type, on_changed, on_received, ClipboardState, LARGE_CONTENT_THRESHOLD};
use notify_relay_core::sender_queue::SenderQueue;

fn queue() -> SenderQueue {
    SenderQueue::new()
}

#[test]
fn test_normalize_type() {
    assert_eq!(normalize_type("text/plain"), "text");
    assert_eq!(normalize_type("text/html"), "text");
    assert_eq!(normalize_type("image/png"), "image");
    assert_eq!(normalize_type("application/pdf"), "application/pdf");
}

#[test]
fn test_normalize_content_data_url() {
    assert_eq!(normalize_content("data:image/png;base64,ABC="), "ABC=");
    assert_eq!(normalize_content("hello"), "hello");
}

#[test]
fn test_on_changed_sends_to_targets() {
    let mut state = ClipboardState::new();
    let mut q = queue();
    let targets = vec!["dev1".to_string(), "dev2".to_string()];
    let result = on_changed(&mut state, &mut q, &targets, "text/plain", "hello", 1000, false);
    assert_eq!(result, r#"{"action":"sent"}"#);
    assert_eq!(state.last_content, "hello");
    assert_eq!(q.pending_count(), 2);
}

#[test]
fn test_on_changed_skips_unchanged() {
    let mut state = ClipboardState::new();
    let mut q = queue();
    let targets = vec!["dev1".to_string()];
    let _ = on_changed(&mut state, &mut q, &targets, "text/plain", "hello", 1000, false);
    let result = on_changed(&mut state, &mut q, &targets, "text/plain", "hello", 2000, false);
    assert!(result.contains("skipped"));
    assert_eq!(q.pending_count(), 1);
}

#[test]
fn test_on_changed_force_resends() {
    let mut state = ClipboardState::new();
    let mut q = queue();
    let targets = vec!["dev1".to_string()];
    let _ = on_changed(&mut state, &mut q, &targets, "text/plain", "hello", 1000, false);
    let result = on_changed(&mut state, &mut q, &targets, "text/plain", "hello", 2000, true);
    assert_eq!(result, r#"{"action":"sent"}"#);
    assert_eq!(q.pending_count(), 2);
}

#[test]
fn test_on_changed_skips_loop() {
    let mut state = ClipboardState::new();
    state.last_received_content = "hello".to_string();
    state.last_received_type = "text".to_string();
    state.last_received_time = 900;
    let mut q = queue();
    let targets = vec!["dev1".to_string()];
    let result = on_changed(&mut state, &mut q, &targets, "text/plain", "hello", 1000, true);
    assert!(result.contains("skipped"));
    assert_eq!(q.pending_count(), 0);
}

#[test]
fn test_on_changed_frequency_limit() {
    let mut state = ClipboardState::new();
    let mut q = queue();
    let targets = vec!["dev1".to_string()];
    let _ = on_changed(&mut state, &mut q, &targets, "text/plain", "hello", 1000, false);
    let result = on_changed(&mut state, &mut q, &targets, "text/plain", "world", 1500, false);
    assert!(result.contains("skipped"));
}

#[test]
fn test_on_changed_large_image_returns_file_transfer() {
    let mut state = ClipboardState::new();
    let mut q = queue();
    let targets = vec!["dev1".to_string()];
    let big = "A".repeat(LARGE_CONTENT_THRESHOLD * 4 / 3 + 100);
    let result = on_changed(&mut state, &mut q, &targets, "image/png", &big, 1000, false);
    assert_eq!(result, r#"{"action":"file_transfer"}"#);
    assert_eq!(q.pending_count(), 0);
}

#[test]
fn test_on_received_normalizes() {
    let mut state = ClipboardState::new();
    let result = on_received(
        &mut state,
        r#"{"clipboardType":"image/png","content":"AAA=","time":1000}"#,
        2000,
    );
    assert!(result.contains("\"type\":\"image\""));
    assert!(result.contains("\"content\":\"AAA=\""));
    assert_eq!(state.last_received_content, "AAA=");
    assert_eq!(state.last_received_type, "image");
    assert_eq!(state.last_received_time, 2000);
}

#[test]
fn clipboard_empty_content_is_skipped_with_reason() {
    let mut state = ClipboardState::new();
    let mut q = queue();
    let targets = vec!["dev1".to_string()];
    let result = on_changed(&mut state, &mut q, &targets, "text/plain", "", 1000, false);
    assert_eq!(result, "{\"action\":\"skipped\",\"reason\":\"内容为空\"}");
    assert_eq!(q.pending_count(), 0);
}

#[test]
fn clipboard_empty_targets_are_not_queued() {
    let mut state = ClipboardState::new();
    let mut q = queue();
    let targets = vec!["".to_string(), "dev9".to_string()];
    let result = on_changed(&mut state, &mut q, &targets, "text/plain", "x", 5000, false);
    assert_eq!(result, r#"{"action":"sent"}"#);
    assert_eq!(q.pending_count(), 1);
    assert_eq!(q.items()[0].device_uuid, "dev9");
    assert_eq!(q.items()[0].header, "DATA_CLIPBOARD");
    assert_eq!(
        q.items()[0].plaintext,
        r#"{"clipboardType":"text","content":"x","time":5000,"type":"DATA_CLIPBOARD"}"#
    );
}

#[test]
fn clipboard_invalid_received_json_answers_default() {
    let mut state = ClipboardState::new();
    let result = on_received(&mut state, "not json", 1);
    assert_eq!(result, r#"{"type":"text","content":""}"#);
    assert_eq!(state.last_received_time, 0);
}
