use notify_relay_core::app_sync::{
    build_applist_request, clear_icon_pending, parse_applist_response, parse_icon_response, prepare_icon_request,
    AppSyncState,
};

fn has_pending(state: &AppSyncState, pkg: &str) -> bool {
    state.pending_icons.iter().any(|(k, _)| k == pkg)
}

#[test]
fn test_prepare_icon_request_empty() {
    let mut state = AppSyncState::new();
    let result = prepare_icon_request(&mut state, &[], &[], &[], &Vec::new(), "dev1", 1000);
    assert_eq!(result, "{}");
}

#[test]
fn test_prepare_icon_request_single() {
    let mut state = AppSyncState::new();
    let result = prepare_icon_request(&mut state, &["com.a".to_string()], &[], &[], &Vec::new(), "dev1", 1000);
    assert!(result.contains("\"packageName\":\"com.a\""));
    assert!(has_pending(&state, "com.a"));
}

#[test]
fn test_prepare_icon_request_filters_installed_cached() {
    let mut state = AppSyncState::new();
    let result = prepare_icon_request(
        &mut state,
        &["com.installed".to_string(), "com.cached".to_string(), "com.need".to_string()],
        &["com.installed".to_string()],
        &["com.cached".to_string()],
        &Vec::new(),
        "dev1",
        1000,
    );
    assert!(result.contains("\"packageName\":\"com.need\""));
}

#[test]
fn test_prepare_icon_request_pending_inflight() {
    let mut state = AppSyncState::new();
    state.pending_icons.push(("com.a".to_string(), 900));
    let result = prepare_icon_request(&mut state, &["com.a".to_string()], &[], &[], &Vec::new(), "dev1", 1000);
    assert_eq!(result, "{}");
}

#[test]
fn test_prepare_icon_request_device_association() {
    let mut state = AppSyncState::new();
    let mut app_device: Vec<(String, Vec<String>)> = Vec::new();
    app_device.push(("com.other".to_string(), vec!["dev2".to_string()]));
    let result = prepare_icon_request(&mut state, &["com.other".to_string()], &[], &[], &app_device, "dev1", 1000);
    assert_eq!(result, "{}");
    app_device.push(("com.both".to_string(), vec!["dev1".to_string(), "dev2".to_string()]));
    let result2 = prepare_icon_request(&mut state, &["com.both".to_string()], &[], &[], &app_device, "dev1", 1000);
    assert!(result2.contains("\"com.both\""));
}

#[test]
fn test_parse_icon_response_batch() {
    let payload = r#"{"type":"ICON_RESPONSE","icons":[{"packageName":"com.a","iconData":"AAA="}],"missing":["com.b"],"time":1}"#;
    let result = parse_icon_response(payload);
    let v: serde_json::Value = serde_json::from_str(&result).unwrap();
    assert_eq!(v["icons"][0]["packageName"], "com.a");
    assert_eq!(v["icons"][0]["iconData"], "AAA=");
    assert_eq!(v["missing"][0], "com.b");
}

#[test]
fn test_parse_icon_response_single() {
    let payload = r#"{"type":"ICON_RESPONSE","packageName":"com.a","iconData":"BBB=","time":1}"#;
    let result = parse_icon_response(payload);
    let v: serde_json::Value = serde_json::from_str(&result).unwrap();
    assert_eq!(v["icons"][0]["packageName"], "com.a");
    assert!(v["missing"].as_array().unwrap().is_empty());
}

#[test]
fn test_parse_icon_response_single_missing() {
    let payload = r#"{"type":"ICON_RESPONSE","packageName":"com.a","missing":true,"time":1}"#;
    let result = parse_icon_response(payload);
    let v: serde_json::Value = serde_json::from_str(&result).unwrap();
    assert_eq!(v["missing"][0], "com.a");
    assert!(v["icons"].as_array().unwrap().is_empty());
}

#[test]
fn test_build_applist_request() {
    let result = build_applist_request("user", 1000);
    let v: serde_json::Value = serde_json::from_str(&result).unwrap();
    assert_eq!(v["type"], "APP_LIST_REQUEST");
    assert_eq!(v["scope"], "user");
}

#[test]
fn test_parse_applist_response() {
    let payload = r#"{"type":"APP_LIST_RESPONSE","scope":"user","apps":[{"packageName":"com.a","appName":"A"}],"total":1,"time":1}"#;
    let result = parse_applist_response(payload);
    let v: serde_json::Value = serde_json::from_str(&result).unwrap();
    assert_eq!(v["apps"][0]["packageName"], "com.a");
    assert_eq!(v["apps"][0]["appName"], "A");
    assert_eq!(v["total"], 1);
}

#[test]
fn applist_request_exact_text() {
    assert_eq!(build_applist_request("user", 1000), r#"{"scope":"user","time":1000,"type":"APP_LIST_REQUEST"}"#);
    assert_eq!(build_applist_request("all", -5), r#"{"scope":"all","time":-5,"type":"APP_LIST_REQUEST"}"#);
}

#[test]
fn applist_response_defaults_and_counts() {
    assert_eq!(parse_applist_response("not json"), r#"{"apps":[],"scope":"user","total":0}"#);
    let payload = r#"{"apps":[{"packageName":"com.a"},{"packageName":""},{"appName":"x"},{"packageName":"com.b","appName":"B"}],"total":0}"#;
    assert_eq!(
        parse_applist_response(payload),
        r#"{"apps":[{"appName":"com.a","packageName":"com.a"},{"appName":"B","packageName":"com.b"}],"scope":"user","total":2}"#
    );
}

#[test]
fn icon_response_exact_text() {
    assert_eq!(parse_icon_response("[1,2]"), r#"{"icons":[],"missing":[]}"#);
    let payload = r#"{"packageName":"com.a","iconData":"","missing":["","com.c"]}"#;
    assert_eq!(parse_icon_response(payload), r#"{"icons":[],"missing":["com.c"]}"#);
}

#[test]
fn clear_pending_forgets_packages() {
    let mut state = AppSyncState::new();
    prepare_icon_request(&mut state, &["com.a".to_string(), "com.b".to_string()], &[], &[], &Vec::new(), "dev1", 1000);
    clear_icon_pending(&mut state, &["com.a".to_string()]);
    assert!(!has_pending(&state, "com.a"));
    assert!(has_pending(&state, "com.b"));
}
