use notify_relay_core::filter::{FilterListEntry, FilterState, PackageGroup, RemoteFilterConfig};

#[test]
fn test_filter_state_new() {
    let state = FilterState::new();
    let config = &state.config;
    assert!(!config.enable_package_group_mapping);
    assert_eq!(config.filter_mode, 0);
}

#[test]
fn test_new_config() {
    let config = RemoteFilterConfig::new();
    assert!(!config.enable_package_group_mapping);
    assert!(config.package_groups.is_empty());
    assert_eq!(config.filter_mode, 0);
    assert!(config.filter_list.is_empty());
}

#[test]
fn test_map_to_local_package_disabled() {
    let config = RemoteFilterConfig::new();
    assert_eq!(config.map_to_local_package("com.test"), "com.test");
}

#[test]
fn test_map_to_local_package_enabled() {
    let mut config = RemoteFilterConfig::new();
    config.enable_package_group_mapping = true;
    config.package_groups.push(PackageGroup {
        group_name: "messaging".to_string(),
        packages: vec!["com.whatsapp".to_string(), "com.telegram".to_string()],
    });
    config.group_enabled.push(("messaging".to_string(), true));
    assert_eq!(config.map_to_local_package("com.whatsapp"), "messaging");
    assert_eq!(config.map_to_local_package("com.unknown"), "com.unknown");
}

#[test]
fn test_check_filter_mode() {
    let mut config = RemoteFilterConfig::new();
    config.filter_list.push(FilterListEntry {
        package: "com.allowed".to_string(),
        keyword: None,
    });

    config.filter_mode = 0;
    assert!(config.check_filter_mode("com.any", "", ""));

    config.filter_mode = 1;
    assert!(config.check_filter_mode("com.allowed", "", ""));
    assert!(!config.check_filter_mode("com.blocked", "", ""));

    config.filter_mode = 2;
    assert!(!config.check_filter_mode("com.allowed", "", ""));
    assert!(config.check_filter_mode("com.blocked", "", ""));
}

#[test]
fn test_filter_list_keyword() {
    let mut config = RemoteFilterConfig::new();
    config.filter_list.push(FilterListEntry {
        package: "com.app".to_string(),
        keyword: Some("blocked".to_string()),
    });
    config.filter_mode = 2;
    assert!(!config.check_filter_mode("com.app", "blocked content", ""));
    assert!(config.check_filter_mode("com.app", "normal content", ""));
    assert!(config.check_filter_mode("com.other", "blocked content", ""));
}

#[test]
fn test_is_in_filter_list() {
    let mut config = RemoteFilterConfig::new();
    config.filter_list.push(FilterListEntry {
        package: "com.whitelist".to_string(),
        keyword: None,
    });
    assert!(config.is_in_filter_list("com.whitelist"));
    assert!(!config.is_in_filter_list("com.other"));
}

#[test]
fn filter_disabled_group_does_not_map() {
    let mut config = RemoteFilterConfig::new();
    config.enable_package_group_mapping = true;
    config.package_groups.push(PackageGroup {
        group_name: "messaging".to_string(),
        packages: vec!["com.whatsapp".to_string()],
    });
    config.group_enabled.push(("messaging".to_string(), false));
    assert_eq!(config.map_to_local_package("com.whatsapp"), "com.whatsapp");
}

#[test]
fn filter_keyword_matches_text_too() {
    let mut config = RemoteFilterConfig::new();
    config.filter_list.push(FilterListEntry {
        package: "com.app".to_string(),
        keyword: Some("promo".to_string()),
    });
    config.filter_mode = 1;
    assert!(config.check_filter_mode("com.app", "", "big promo today"));
    assert!(!config.check_filter_mode("com.app", "", "nothing"));
    config.filter_mode = 7;
    assert!(config.check_filter_mode("com.x", "", ""));
}

#[test]
fn config_from_json_replaces_given_settings() {
    let mut c = notify_relay_core::filter::RemoteFilterConfig::new();
    let json = r#"{"enablePackageGroupMapping":true,"packageGroups":[{"groupName":"chat","packages":["com.a","com.b",3]},{"groupName":"x"}],"groupEnabled":{"chat":true,"other":1},"filterMode":1,"filterList":["com.a|urgent","com.b|","com.c",7],"enablePeerMode":true,"installedPackages":["com.local"]}"#;
    assert!(c.apply_json(json));
    assert!(c.enable_package_group_mapping);
    assert_eq!(c.package_groups.len(), 1);
    assert_eq!(c.package_groups[0].group_name, "chat");
    assert_eq!(c.package_groups[0].packages, vec!["com.a".to_string(), "com.b".to_string()]);
    assert_eq!(c.group_enabled, vec![("chat".to_string(), true)]);
    assert_eq!(c.filter_mode, 1);
    assert_eq!(c.filter_list.len(), 3);
    assert_eq!(c.filter_list[0].package, "com.a");
    assert_eq!(c.filter_list[0].keyword, Some("urgent".to_string()));
    assert_eq!(c.filter_list[1].keyword, None);
    assert_eq!(c.filter_list[2].package, "com.c");
    assert!(c.enable_peer_mode);
    assert_eq!(c.installed_packages, vec!["com.local".to_string()]);
    assert_eq!(c.map_to_local_package("com.b"), "chat");
    assert!(c.check_filter_mode("com.a", "urgent news", ""));
    assert!(!c.check_filter_mode("com.a", "calm", ""));
    assert!(c.apply_json(r#"{"filterMode":2}"#));
    assert_eq!(c.filter_mode, 2);
    assert_eq!(c.installed_packages.len(), 1);
    assert!(!c.apply_json("{bad"));
    assert!(c.apply_json("[1,2]"));
    assert_eq!(c.filter_mode, 2);
}
