use overlingo::autostart::{is_bundled, packaged_app, status_of, AutostartStatus};

#[test]
fn only_app_bundles_count_as_packaged() {
    assert!(is_bundled("/Applications/OverLingo.app/Contents/MacOS/overlingo"));
    assert!(!is_bundled("/Users/me/project/target/debug/overlingo"));
    assert!(!is_bundled("/overlingo"));
}

#[test]
fn doubled_separators_and_dots_do_not_count_as_components() {
    assert!(is_bundled("/Applications//OverLingo.app/./Contents/MacOS/overlingo"));
    assert!(!is_bundled("/Applications/.app/Contents/MacOS/overlingo"));
}

#[test]
fn a_copy_outside_a_bundle_cannot_launch_at_login() {
    assert!(packaged_app("/Applications/OverLingo.app/Contents/MacOS/overlingo").is_ok());
    assert_eq!(
        packaged_app("/tmp/overlingo"),
        Err("Launch at login is only available from the packaged app bundle".to_string())
    );
}

#[test]
fn the_switch_reports_its_state() {
    assert_eq!(status_of(true), AutostartStatus::Enabled);
    assert_eq!(status_of(false), AutostartStatus::Disabled);
}
