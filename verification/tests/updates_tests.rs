use encodeck::updates::{latest_release_api, releases_page, update_check, UpdateError};

#[test]
fn newer_release_is_reported() {
    let info = update_check(false, Some("v1.2.0".into()), Some("Notes".into()), "1.0.0")
        .ok()
        .unwrap();
    assert!(info.available);
    assert_eq!(info.version, "1.2.0");
    assert_eq!(info.notes, "Notes");
    assert_eq!(info.url, "https://github.com/azksama/Encodeck/releases");
}

#[test]
fn same_or_older_release_is_not_available() {
    let info = update_check(false, Some("1.0.0".into()), None, "1.0.0").ok().unwrap();
    assert!(!info.available);
    assert_eq!(info.notes, "");
    let info = update_check(false, Some("vv0.9.0".into()), None, "1.0.0").ok().unwrap();
    assert!(!info.available);
    assert_eq!(info.version, "0.9.0");
    let info = update_check(false, Some("1.0.0-rc.1".into()), None, "1.0.0").ok().unwrap();
    assert!(!info.available);
}

#[test]
fn update_check_failures() {
    let e = update_check(true, Some("v1".into()), None, "1.0.0").unwrap_err();
    assert_eq!(e.message(), "Aucune version publique publiée pour le moment.");
    let e = update_check(false, None, None, "1.0.0").unwrap_err();
    assert_eq!(e.message(), "Version GitHub invalide");
    let e = update_check(false, Some("latest".into()), None, "1.0.0").unwrap_err();
    assert!(matches!(e, UpdateError::BadVersion(_)));
    assert_eq!(e.message(), "unexpected character 'l' while parsing major version number");
    let e = update_check(false, Some("vvv".into()), None, "1.0.0").unwrap_err();
    assert_eq!(e.message(), "empty string, expected a semver version");
    let e = update_check(false, Some("v1.0.0".into()), None, "1.0").unwrap_err();
    assert_eq!(e.message(), "unexpected end of input while parsing minor version number");
}

#[test]
fn update_addresses() {
    assert_eq!(releases_page(), "https://github.com/azksama/Encodeck/releases");
    assert_eq!(
        latest_release_api(),
        "https://api.github.com/repos/azksama/Encodeck/releases/latest"
    );
}
