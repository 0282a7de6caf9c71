use notify_relay_core::json_model::JsonLeaf;
use notify_relay_core::sender_queue::SenderQueue;
use notify_relay_core::state_merge::{
    build_full_wire, diff_island, encode_changes, island_from_text, merge_island, write_island, StateMerge,
};

fn si_members(title: &str, text: &str) -> Vec<(String, JsonLeaf)> {
    vec![
        ("appName".to_string(), JsonLeaf::Str("App".to_string())),
        ("isLocked".to_string(), JsonLeaf::Raw("false".to_string())),
        ("packageName".to_string(), JsonLeaf::Str("com.x".to_string())),
        ("param_v2_raw".to_string(), JsonLeaf::Str(String::new())),
        ("pics".to_string(), JsonLeaf::Raw("{}".to_string())),
        ("text".to_string(), JsonLeaf::Str(text.to_string())),
        ("time".to_string(), JsonLeaf::Raw("1".to_string())),
        ("title".to_string(), JsonLeaf::Str(title.to_string())),
    ]
}

fn si_full(title: &str, text: &str) -> String {
    format!(
        r#"{{"appName":"App","isLocked":false,"packageName":"com.x","param_v2_raw":"","pics":{{}},"text":"{}","time":1,"title":"{}"}}"#,
        text, title
    )
}

#[test]
fn test_diff_and_merge_roundtrip() {
    let mut q = SenderQueue::new();
    let mut sm = StateMerge::new();
    assert!(sm.push_state(&mut q, "devA", false, &si_full("t1", "c1"), false, 1_000_000));
    assert!(sm.push_state(&mut q, "devA", false, &si_full("t1", "c1"), false, 1_000_000));
    let full1 = si_full("t1", "c1");
    let merged1 = {
        let mut r = StateMerge::new();
        let wire = build_full_wire(&si_members("t1", "c1"), "fid", "h1", false);
        let (_, f, _) = r.merge_incoming("devA", false, &wire).unwrap();
        f
    };
    assert_eq!(merged1, full1);
}

#[test]
fn test_delta_merge_updates_fields() {
    let full_a = r#"{"device":"self","title":"a","text":"x","param_v2_raw":"","pics":{"k":"v"}}"#;
    let full_b = r#"{"device":"self","title":"b","text":"x","param_v2_raw":"","pics":{"k":"v","k2":"v2"}}"#;
    let a = island_from_text(full_a);
    let b = island_from_text(full_b);
    let delta = diff_island(&a, &b);
    let merged = write_island(&merge_island(&a, &delta));
    let merged_v: serde_json::Value = serde_json::from_str(&merged).unwrap();
    assert_eq!(merged_v["title"], "b");
    assert_eq!(merged_v["pics"]["k2"], "v2");
}

#[test]
fn first_push_is_full_then_unchanged_is_skipped_then_delta() {
    let mut q = SenderQueue::new();
    let mut sm = StateMerge::new();
    assert!(sm.push_state(&mut q, "devA", false, &si_full("t1", "c1"), false, 1_000_000));
    assert_eq!(q.pending_count(), 1);
    let first = q.items()[0].plaintext.clone();
    assert!(first.contains(r#""type":"SUPERISLAND""#));
    assert!(first.contains(r#""featureKeyValue":""#));
    assert_eq!(q.items()[0].header, "DATA_SUPERISLAND");
    assert!(sm.push_state(&mut q, "devA", false, &si_full("t1", "c1"), false, 1_000_100));
    assert_eq!(q.pending_count(), 1);
    // Without param_v2_raw the text is part of the feature id: a new text is a new feature.
    assert!(sm.push_state(&mut q, "devA", false, &si_full("t1", "c2"), false, 1_000_200));
    let last = q.items().last().unwrap().plaintext.clone();
    assert!(last.contains(r#""type":"SUPERISLAND""#));
    // A media state keeps its feature id, so a new text goes as a delta.
    assert!(sm.push_state(&mut q, "devB", true, r#"{"text":"a","title":"x"}"#, false, 1_000_300));
    assert!(sm.push_state(&mut q, "devB", true, r#"{"text":"b","title":"x"}"#, false, 1_000_400));
    let last = q.items().last().unwrap().plaintext.clone();
    assert!(last.starts_with(r#"{"changes":{"text":"b"},"featureKeyValue":"media_global","hash":""#));
    assert!(last.ends_with(r#","type":"delta"}"#));
}

#[test]
fn not_an_object_is_refused() {
    let mut q = SenderQueue::new();
    let mut sm = StateMerge::new();
    assert!(!sm.push_state(&mut q, "devA", false, "[1]", false, 5));
    assert!(!sm.push_state(&mut q, "devA", true, "oops", false, 5));
    assert_eq!(q.pending_count(), 0);
}

#[test]
fn receiver_rebuilds_full_state_from_delta() {
    let mut q = SenderQueue::new();
    let mut sender = StateMerge::new();
    let mut receiver = StateMerge::new();
    let a = r#"{"packageName":"com.x","pics":{"p1":"A","p2":"B"},"text":"x","title":"a"}"#;
    let b = r#"{"packageName":"com.x","pics":{"p1":"A","p3":"C"},"text":"y","title":"a"}"#;
    assert!(sender.push_state(&mut q, "devA", true, a, false, 1_000_000));
    assert!(sender.push_state(&mut q, "devA", true, b, false, 1_000_500));
    let items = q.items().clone();
    let full_packet = items.iter().find(|i| !i.plaintext.contains("\"changes\"")).unwrap().plaintext.clone();
    let delta_packet = items.iter().find(|i| i.plaintext.contains("\"changes\"")).unwrap().plaintext.clone();
    let (fid, full_a, end) = receiver.merge_incoming("devA", true, &full_packet).unwrap();
    assert_eq!(fid, "media_global");
    assert!(!end);
    assert_eq!(full_a, a);
    let (_, full_b, _) = receiver.merge_incoming("devA", true, &delta_packet).unwrap();
    assert_eq!(full_b, b);
}

#[test]
fn changes_are_written_in_name_order() {
    let a = island_from_text(r#"{"pics":{"x":"1","y":"2"},"title":"a"}"#);
    let b = island_from_text(r#"{"pics":{"y":"3"},"text":"t","title":"a"}"#);
    let c = diff_island(&a, &b);
    assert_eq!(encode_changes(&c), r#"{"pics":{"y":"3"},"pics_removed":["x"],"text":"t"}"#);
}

#[test]
fn end_packet_closes_the_session() {
    let mut q = SenderQueue::new();
    let mut sm = StateMerge::new();
    assert!(sm.push_state(&mut q, "devA", true, r#"{"title":"a"}"#, true, 10_000_000));
    let p = q.items().last().unwrap().plaintext.clone();
    assert!(p.contains(r#""terminate":true"#) && p.contains(r#""terminateValue":"__END__""#));
    let mut r = StateMerge::new();
    let (_, _, end) = r.merge_incoming("devA", true, &p).unwrap();
    assert!(end);
}

#[test]
fn acknowledgement_round_trip() {
    let mut q = SenderQueue::new();
    let mut sender = StateMerge::new();
    let mut receiver = StateMerge::new();
    assert!(sender.push_state(&mut q, "devA", false, &si_full("t", "c"), false, 1_000_000));
    let packet = q.items()[0].plaintext.clone();
    let out = receiver.handle_state_message("devA", false, &packet);
    assert!(out.consumed);
    assert!(out.deliver.unwrap().contains(r#""type":"SUPERISLAND""#));
    let ack = out.ack.unwrap();
    assert_eq!(ack.header, "DATA_SUPERISLAND");
    assert!(ack.plaintext.starts_with(r#"{"device":"devA","featureKeyValue":""#));
    let back = sender.handle_state_message("devA", false, &ack.plaintext);
    assert!(back.consumed && back.deliver.is_none() && back.ack.is_none());
    assert!(!receiver.handle_state_message("devA", false, "not json").consumed);
}

#[test]
fn heartbeat_resends_full_state() {
    let mut q = SenderQueue::new();
    let mut sm = StateMerge::new();
    assert!(sm.push_state(&mut q, "devA", true, r#"{"title":"a"}"#, false, 1_000_000));
    let before = q.pending_count();
    sm.heartbeat_tick(&mut q, 1_001_000);
    assert_eq!(q.pending_count(), before);
    let resent = sm.collect_resends(1_007_000);
    assert_eq!(resent.len(), 1);
    assert!(resent[0].plaintext.contains(r#""type":"MEDIA_PLAY""#));
    assert!(sm.collect_resends(1_007_001).is_empty());
}
