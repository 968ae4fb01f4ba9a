//! The linger state.

use nomux::codes::Linger;
use nomux::linger::{detect, state_of, username, Marker};

#[test]
fn a_marker_file_means_enabled_and_its_absence_means_disabled() {
    assert_eq!(state_of(Marker::Present), Linger::Enabled);
    assert_eq!(state_of(Marker::Missing), Linger::Disabled);
}

/// The directory is created lazily, so a missing one is missing a marker and nothing more.
#[test]
fn a_missing_directory_is_disabled_not_unknown() {
    assert_eq!(detect(true, Some(Marker::Missing)), Linger::Disabled);
    assert_eq!(detect(true, Some(Marker::Unreadable)), Linger::Unknown);
    assert_eq!(detect(true, None), Linger::Unknown);
    assert_eq!(detect(false, Some(Marker::Present)), Linger::Unknown);
    assert_eq!(detect(true, Some(Marker::Present)), Linger::Enabled);
}

/// Anything but a single component asks about another path, and each source is asked in turn.
#[test]
fn a_name_that_is_no_component_falls_through() {
    assert_eq!(username(Some("me"), Some("other")).as_deref(), Some("me"));
    for bad in ["", "a/b", ".", "..", "a\0b"] {
        assert_eq!(username(Some(bad), Some("other")).as_deref(), Some("other"));
        assert_eq!(username(Some(bad), None), None);
        assert_eq!(username(None, Some(bad)), None);
    }
    assert_eq!(username(Some("..."), None).as_deref(), Some("..."));
}
