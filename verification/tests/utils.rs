use notify_relay_core::crypto::digest::sha1_hex;
use notify_relay_core::utils::{
    compute_dedup_key, compute_feature_id, compute_feature_id_simple, derive_ftp_credentials, derive_password_hash,
    feature_key_parts, generate_random_password,
};

#[test]
fn test_compute_feature_id_with_instance_id() {
    let s = compute_feature_id("com.test.app", "", "Hello", "World", "inst-123");
    assert!(!s.is_empty());
    assert_eq!(s.len(), 40);
}

#[test]
fn test_compute_feature_id_chat_info() {
    let s = compute_feature_id("com.test.app", r#"{"chatInfo":{"title":"MyChat"}}"#, "", "", "");
    assert_eq!(s.len(), 40);
}

#[test]
fn test_compute_feature_id_base_info() {
    let s = compute_feature_id("com.test.app", r#"{"baseInfo":{"title":"BaseT","content":"BaseC"}}"#, "", "", "");
    assert_eq!(s.len(), 40);
}

#[test]
fn test_compute_feature_id_highlight_info() {
    let s = compute_feature_id("com.test.app", r#"{"highlightInfo":{"title":"Highlight"}}"#, "", "", "");
    assert_eq!(s.len(), 40);
}

#[test]
fn test_derive_ftp_credentials() {
    let s = derive_ftp_credentials("dGVzdHNlY3JldA==");
    let v: serde_json::Value = serde_json::from_str(&s).unwrap();
    assert!(v["username"].as_str().unwrap().starts_with("ftp_"));
    assert!(!v["password"].as_str().unwrap().is_empty());
}

#[test]
fn test_derive_password_hash() {
    let s = derive_password_hash("mypassword");
    assert!(!s.is_empty());
}

#[test]
fn test_generate_random_password() {
    let s = generate_random_password();
    assert_eq!(s.len(), 12);
}

#[test]
fn feature_key_parts_follow_param_then_text() {
    assert_eq!(feature_key_parts("p", "", "T", "C", ""), vec!["p", "t:T", "c:C"]);
    assert_eq!(feature_key_parts("p", r#"{"chatInfo":{"title":"Chat"}}"#, "T", "C", "i"), vec!["p", "chat:Chat", "id:i"]);
    assert_eq!(
        feature_key_parts("p", r#"{"baseInfo":{"title":"B","content":""}}"#, "T", "", ""),
        vec!["p", "baseT:B"]
    );
    assert_eq!(feature_key_parts("p", r#"{"chatInfo":3,"highlightInfo":{"title":"H"}}"#, "", "", ""), vec!["p", "hi:H"]);
    assert_eq!(feature_key_parts("p", "not json", "", "X", ""), vec!["p", "c:X"]);
}

#[test]
fn feature_id_is_sha1_of_joined_parts() {
    assert_eq!(compute_feature_id("p", "", "T", "", ""), sha1_hex("p|t:T"));
    assert_eq!(compute_feature_id("p", "{}", "", "", "i"), sha1_hex("p|id:i"));
    assert_ne!(compute_feature_id("p", "", "T", "", ""), compute_feature_id("p", "", "T", "", "x"));
}

#[test]
fn simple_feature_id_joins_non_empty() {
    assert_eq!(compute_feature_id_simple("pkg", "", "text"), "pkg|text");
    assert_eq!(compute_feature_id_simple("", "", ""), "");
}

#[test]
fn dedup_key_is_sha256_hex() {
    assert_eq!(compute_dedup_key("", "").len(), 64);
    assert_eq!(compute_dedup_key("a", "b"), compute_dedup_key("a", "b"));
    assert_ne!(compute_dedup_key("a", "b"), compute_dedup_key("a|b", ""));
}

#[test]
fn ftp_credentials_on_bad_secret() {
    assert_eq!(derive_ftp_credentials("***"), r#"{"username":"","password":""}"#);
    let s = derive_ftp_credentials("dGVzdHNlY3JldA==");
    assert!(s.starts_with(r#"{"password":""#));
    let v: serde_json::Value = serde_json::from_str(&s).unwrap();
    let user = v["username"].as_str().unwrap();
    assert!(user.len() <= 4 + 16);
    assert!(user[4..].chars().all(|c| c.is_ascii_alphanumeric()));
}

#[test]
fn password_hash_is_base64_md5() {
    // MD5("") = d41d8cd98f00b204e9800998ecf8427e
    assert_eq!(derive_password_hash(""), "1B2M2Y8AsgTpgAmY7PhCfg==");
}
