use notify_relay_core::protocol::version::{data_aad, is_compatible, major_minor, CORE_VERSION};

#[test]
fn core_version_is_semver() {
    assert!(major_minor(CORE_VERSION).is_some());
    assert_eq!(major_minor(CORE_VERSION), Some((0, 2)));
}

#[test]
fn patch_difference_is_compatible() {
    let (major, minor) = major_minor(CORE_VERSION).unwrap();
    assert!(is_compatible(&format!("{}.{}.99", major, minor)));
    assert!(is_compatible(&format!("{}.{}", major, minor)));
}

#[test]
fn major_or_minor_difference_is_incompatible() {
    let (major, minor) = major_minor(CORE_VERSION).unwrap();
    assert!(!is_compatible(&format!("{}.{}", major + 1, minor)));
    assert!(!is_compatible(&format!("{}.{}", major, minor + 1)));
}

#[test]
fn invalid_version_is_incompatible() {
    assert!(!is_compatible(""));
    assert!(!is_compatible("abc"));
    assert!(!is_compatible("1.x.0"));
}

#[test]
fn aad_only_binds_major_minor() {
    let (major, minor) = major_minor(CORE_VERSION).unwrap();
    let expected = format!("NotifyRelay-Data-v{}.{}", major, minor);
    assert_eq!(String::from_utf8(data_aad()).unwrap(), expected);
}

#[test]
fn major_only_version_defaults_minor() {
    assert_eq!(major_minor(" 3 "), Some((3, 0)));
    assert_eq!(major_minor("1.7.x"), Some((1, 7)));
    assert_eq!(major_minor(""), None);
}
