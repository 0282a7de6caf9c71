use notify_relay_core::sender_queue::{SendItem, SendOutcome, SenderQueue};

fn item(uuid: &str, header: &str, text: &str) -> SendItem {
    SendItem {
        device_uuid: uuid.to_string(),
        header: header.to_string(),
        plaintext: text.to_string(),
        dedup_key: None,
        retries_left: 0,
        coalesce_key: None,
    }
}

#[test]
fn test_media_full_coalesce_keeps_latest() {
    let mut q = SenderQueue::new();
    q.enqueue(item("dev1", "DATA_MEDIAPLAY", r#"{"title":"a"}"#));
    q.enqueue(item("dev1", "DATA_MEDIAPLAY", r#"{"title":"b"}"#));
    q.enqueue(item("dev1", "DATA_MEDIAPLAY", r#"{"title":"c"}"#));
    let items = q.items();
    assert_eq!(items.len(), 1);
    assert!(items[0].plaintext.contains("\"c\""));
}

#[test]
fn test_media_retries_disabled() {
    let mut q = SenderQueue::new();
    q.enqueue(item("dev1", "DATA_MEDIAPLAY", r#"{"title":"a"}"#));
    q.enqueue(item("dev1", "DATA_NOTIFICATION", r#"{"title":"n"}"#));
    let items = q.items();
    assert_eq!(items[0].retries_left, 1);
    assert_eq!(items[1].retries_left, SenderQueue::MAX_RETRIES);
}

#[test]
fn test_media_end_packet_retries_enabled() {
    let mut q = SenderQueue::new();
    q.enqueue(item(
        "dev1",
        "DATA_MEDIAPLAY",
        r#"{"terminate":true,"terminateValue":"__END__"}"#,
    ));
    q.enqueue(item(
        "dev1",
        "DATA_SUPERISLAND",
        r#"{"terminateValue":"__END__"}"#,
    ));
    let items = q.items();
    assert_eq!(items[0].retries_left, SenderQueue::MAX_RETRIES);
    assert_eq!(items[1].retries_left, SenderQueue::MAX_RETRIES);
}

#[test]
fn test_media_delta_not_replaced() {
    let mut q = SenderQueue::new();
    q.enqueue(item("dev1", "DATA_MEDIAPLAY", r#"{"title":"a"}"#));
    q.enqueue(item(
        "dev1",
        "DATA_MEDIAPLAY",
        r#"{"changes":{"title":"b"}}"#,
    ));
    assert_eq!(q.items().len(), 2);
}

#[test]
fn test_full_removes_pending_deltas() {
    let mut q = SenderQueue::new();
    q.enqueue(item("dev1", "DATA_MEDIAPLAY", r#"{"title":"a"}"#));
    q.enqueue(item(
        "dev1",
        "DATA_MEDIAPLAY",
        r#"{"changes":{"title":"b"}}"#,
    ));
    q.enqueue(item("dev1", "DATA_MEDIAPLAY", r#"{"title":"c"}"#));
    let items = q.items();
    assert_eq!(items.len(), 1);
    assert!(items[0].plaintext.contains("\"c\""));
}

#[test]
fn test_different_devices_and_headers_not_coalesced() {
    let mut q = SenderQueue::new();
    q.enqueue(item("dev1", "DATA_MEDIAPLAY", r#"{"title":"a"}"#));
    q.enqueue(item("dev2", "DATA_MEDIAPLAY", r#"{"title":"b"}"#));
    q.enqueue(item("dev1", "DATA_SUPERISLAND", r#"{"features":[]}"#));
    assert_eq!(q.items().len(), 3);
}

#[test]
fn test_non_media_never_coalesced() {
    let mut q = SenderQueue::new();
    q.enqueue(item("dev1", "DATA_NOTIFICATION", r#"{"title":"a"}"#));
    q.enqueue(item("dev1", "DATA_NOTIFICATION", r#"{"title":"a"}"#));
    let items = q.items();
    assert_eq!(items.len(), 2);
    assert!(items[0].coalesce_key.is_none());
}

#[test]
fn media_state_gets_coalesce_key() {
    let mut q = SenderQueue::new();
    q.enqueue(item("dev1", "DATA_MEDIAPLAY", r#"{"title":"a"}"#));
    assert_eq!(q.items()[0].coalesce_key.as_deref(), Some("dev1|DATA_MEDIAPLAY"));
}

#[test]
fn same_device_is_served_one_at_a_time() {
    let mut q = SenderQueue::new();
    q.enqueue(item("dev1", "DATA_NOTIFICATION", "a"));
    q.enqueue(item("dev1", "DATA_NOTIFICATION", "b"));
    q.enqueue(item("dev2", "DATA_NOTIFICATION", "c"));
    let first = q.select_next(1000).unwrap();
    assert_eq!(first.plaintext, "a");
    let second = q.select_next(1000).unwrap();
    assert_eq!(second.device_uuid, "dev2");
    assert!(q.select_next(1000).is_none());
    assert_eq!(q.active_count(), 2);
    assert_eq!(q.complete(first, true, 1100), SendOutcome::Sent);
    let third = q.select_next(1200).unwrap();
    assert_eq!(third.plaintext, "b");
}

#[test]
fn failure_requeues_and_cools_down() {
    let mut q = SenderQueue::new();
    q.enqueue(item("dev1", "DATA_NOTIFICATION", "a"));
    let it = q.select_next(0).unwrap();
    assert_eq!(it.retries_left, 3);
    assert_eq!(q.complete(it, false, 10_000), SendOutcome::Requeued);
    assert_eq!(q.items()[0].retries_left, 2);
    assert!(q.select_next(10_500).is_none());
    let again = q.select_next(11_001).unwrap();
    assert_eq!(again.retries_left, 2);
    assert_eq!(q.complete(again, false, 12_000), SendOutcome::Requeued);
    assert!(q.select_next(13_500).is_none());
    let last = q.select_next(14_001).unwrap();
    assert_eq!(q.complete(last, false, 15_000), SendOutcome::Dropped);
    assert_eq!(q.pending_count(), 0);
}

#[test]
fn media_failure_is_dropped_at_once() {
    let mut q = SenderQueue::new();
    q.enqueue(item("dev1", "DATA_MEDIAPLAY", r#"{"title":"a"}"#));
    let it = q.select_next(0).unwrap();
    assert_eq!(q.complete(it, false, 1), SendOutcome::Dropped);
    assert_eq!(SenderQueue::send_timeout_ms("DATA_MEDIAPLAY"), 800);
    assert_eq!(SenderQueue::send_timeout_ms("DATA_NOTIFICATION"), 3000);
}
