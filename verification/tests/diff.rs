use notify_relay_core::diff::{compute_superisland_diff, DiffDecision};

#[test]
fn test_full_when_empty_old() {
    assert_eq!(compute_superisland_diff("", "{}"), DiffDecision::Full);
}

#[test]
fn test_skip_when_no_changes() {
    let state = r#"{"features":[{"featureId":"a","data":1}]}"#;
    assert_eq!(compute_superisland_diff(state, state), DiffDecision::Skip);
}

#[test]
fn test_full_when_new_feature_added() {
    let old = r#"{"features":[{"featureId":"a","data":1}]}"#;
    let new = r#"{"features":[{"featureId":"a","data":1},{"featureId":"b","data":2}]}"#;
    assert_eq!(compute_superisland_diff(old, new), DiffDecision::Full);
}

#[test]
fn test_delta_when_feature_data_changed() {
    let old = r#"{"features":[{"featureId":"a","data":1}]}"#;
    let new = r#"{"features":[{"featureId":"a","data":2}]}"#;
    match compute_superisland_diff(old, new) {
        DiffDecision::Delta(_) => {}
        _ => panic!("expected delta"),
    }
}

#[test]
fn delta_lists_changed_features() {
    let old = r#"{"features":[{"featureId":"a","data":1},{"featureId":"b","data":2}]}"#;
    let new = r#"{"features":[{"featureId":"b","data":3},{"featureId":"a","data":1}]}"#;
    assert_eq!(
        compute_superisland_diff(old, new),
        DiffDecision::Delta(r#"{"changes":[{"data":3,"featureId":"b"}],"type":"delta"}"#.to_string())
    );
}

#[test]
fn invalid_json_sends_full() {
    assert_eq!(compute_superisland_diff("{", "{}"), DiffDecision::Full);
    assert_eq!(compute_superisland_diff("{}", "nope"), DiffDecision::Full);
    assert_eq!(compute_superisland_diff("[]", "{}"), DiffDecision::Skip);
}
