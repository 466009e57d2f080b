use hypervolume::updater::{
    restart_script, AppVersion, UpdateConfig, UpdateError, UpdateInfo, UpdateManager, VersionError,
};

#[test]
fn version_parses_its_three_parts() {
    assert_eq!(
        AppVersion::from_string("1.2.3"),
        Ok(AppVersion { major: 1, minor: 2, patch: 3 })
    );
    assert_eq!(
        AppVersion::from_string("0.0.0"),
        Ok(AppVersion { major: 0, minor: 0, patch: 0 })
    );
    assert_eq!(
        AppVersion::from_string("01.002.3"),
        Ok(AppVersion { major: 1, minor: 2, patch: 3 })
    );
    assert_eq!(
        AppVersion::from_string("4294967295.0.7"),
        Ok(AppVersion { major: 4_294_967_295, minor: 0, patch: 7 })
    );
}

#[test]
fn version_rejects_the_wrong_number_of_parts() {
    assert_eq!(AppVersion::from_string(""), Err(VersionError::InvalidFormat));
    assert_eq!(AppVersion::from_string("1"), Err(VersionError::InvalidFormat));
    assert_eq!(AppVersion::from_string("1.2"), Err(VersionError::InvalidFormat));
    assert_eq!(
        AppVersion::from_string("1.2.3.4"),
        Err(VersionError::InvalidFormat)
    );
}

#[test]
fn version_rejects_parts_that_are_no_numbers() {
    assert_eq!(
        AppVersion::from_string("a.2.3"),
        Err(VersionError::InvalidMajor)
    );
    assert_eq!(
        AppVersion::from_string("1.b.3"),
        Err(VersionError::InvalidMinor)
    );
    assert_eq!(
        AppVersion::from_string("1.2."),
        Err(VersionError::InvalidPatch)
    );
    assert_eq!(
        AppVersion::from_string(".2.3"),
        Err(VersionError::InvalidMajor)
    );
    assert_eq!(
        AppVersion::from_string("4294967296.0.0"),
        Err(VersionError::InvalidMajor)
    );
    assert_eq!(
        AppVersion::from_string("1.2.-3"),
        Err(VersionError::InvalidPatch)
    );
}

#[test]
fn version_renders_dot_separated_decimal() {
    assert_eq!(AppVersion::new(1, 0, 0).to_string(), "1.0.0");
    assert_eq!(AppVersion::new(12, 34, 56).to_string(), "12.34.56");
    assert_eq!(
        AppVersion::new(4_294_967_295, 0, 10).to_string(),
        "4294967295.0.10"
    );
}

#[test]
fn version_text_round_trips() {
    let v = AppVersion::new(10, 20, 30);
    assert_eq!(AppVersion::from_string(&v.to_string()), Ok(v));
}

#[test]
fn version_ordering_compares_part_by_part() {
    let base = AppVersion::new(1, 2, 3);
    assert!(AppVersion::new(2, 0, 0).is_newer_than(&base));
    assert!(AppVersion::new(1, 3, 0).is_newer_than(&base));
    assert!(AppVersion::new(1, 2, 4).is_newer_than(&base));
    assert!(!base.is_newer_than(&base));
    assert!(!AppVersion::new(1, 2, 2).is_newer_than(&base));
    assert!(!AppVersion::new(0, 9, 9).is_newer_than(&base));
    assert!(!AppVersion::new(1, 1, 9).is_newer_than(&base));
}

#[test]
fn update_config_defaults_ask_before_installing() {
    let c = UpdateConfig::default();
    assert!(c.auto_check);
    assert_eq!(c.check_interval_hours, 24);
    assert!(c.auto_download);
    assert!(!c.auto_install);
}

#[test]
fn check_announces_a_newer_release() {
    let manager = UpdateManager::new(AppVersion::new(1, 0, 0));
    let body = "{\"tag_name\":\"v2.0.0\",\"assets\":[{\"browser_download_url\":\"https://example.com/HyperVolume.exe\"}],\"body\":\"notes\"}";
    let r = manager.check_for_updates(body);
    assert_eq!(
        r,
        Ok(Some(UpdateInfo {
            version: "2.0.0".to_string(),
            download_url: "https://example.com/HyperVolume.exe".to_string(),
            changelog: "notes".to_string(),
            mandatory: false,
        }))
    );
}

#[test]
fn check_accepts_a_tag_without_the_v_prefix() {
    let manager = UpdateManager::new(AppVersion::new(1, 0, 0));
    let body = "{\"tag_name\":\"1.5.0\",\"assets\":[{\"browser_download_url\":\"u\"}]}";
    let r = manager.check_for_updates(body).unwrap().unwrap();
    assert_eq!(r.version, "1.5.0");
    assert_eq!(r.changelog, "No changelog available");
}

#[test]
fn check_sees_no_update_in_an_older_or_equal_release() {
    let manager = UpdateManager::new(AppVersion::new(1, 0, 0));
    let older = "{\"tag_name\":\"v0.9.9\",\"assets\":[{\"browser_download_url\":\"u\"}]}";
    assert_eq!(manager.check_for_updates(older), Ok(None));
    let equal = "{\"tag_name\":\"v1.0.0\",\"assets\":[{\"browser_download_url\":\"u\"}]}";
    assert_eq!(manager.check_for_updates(equal), Ok(None));
}

#[test]
fn check_rejects_text_that_is_no_json() {
    let manager = UpdateManager::new(AppVersion::new(1, 0, 0));
    assert_eq!(
        manager.check_for_updates("not json"),
        Err(UpdateError::InvalidResponse)
    );
}

#[test]
fn check_requires_a_tag() {
    let manager = UpdateManager::new(AppVersion::new(1, 0, 0));
    assert_eq!(
        manager.check_for_updates("{\"assets\":[]}"),
        Err(UpdateError::MissingTag)
    );
}

#[test]
fn check_rejects_a_tag_that_names_no_version() {
    let manager = UpdateManager::new(AppVersion::new(1, 0, 0));
    assert_eq!(
        manager.check_for_updates("{\"tag_name\":\"latest\"}"),
        Err(UpdateError::InvalidVersion(VersionError::InvalidFormat))
    );
}

#[test]
fn check_requires_a_download_for_a_newer_release() {
    let manager = UpdateManager::new(AppVersion::new(1, 0, 0));
    let body = "{\"tag_name\":\"v3.0.0\",\"assets\":[]}";
    assert_eq!(
        manager.check_for_updates(body),
        Err(UpdateError::MissingDownloadUrl)
    );
}

#[test]
fn evaluate_release_needs_a_tag() {
    let manager = UpdateManager::new(AppVersion::new(1, 0, 0));
    assert_eq!(
        manager.evaluate_release(None, None, None),
        Err(UpdateError::MissingTag)
    );
}

#[test]
fn evaluate_release_fills_in_missing_notes() {
    let manager = UpdateManager::new(AppVersion::new(1, 0, 0));
    let r = manager
        .evaluate_release(
            Some("v9.9.9".to_string()),
            Some("https://example.com/a.exe".to_string()),
            None,
        )
        .unwrap()
        .unwrap();
    assert_eq!(r.version, "9.9.9");
    assert_eq!(r.changelog, "No changelog available");
    assert!(!r.mandatory);
}

#[test]
fn restart_script_wraps_the_executable_path() {
    let script = restart_script("C:\\Program Files\\HyperVolume\\HyperVolume.exe");
    assert_eq!(
        script,
        "@echo off\ntimeout /t 3 /nobreak > nul\nstart \"\" \"C:\\Program Files\\HyperVolume\\HyperVolume.exe\"\ndel \"%~f0\""
    );
}
