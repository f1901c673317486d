use pickscribe::platform::{support_for, ReleaseStatus};

#[test]
fn linux_is_the_only_release_target() {
    let support = support_for("linux");

    assert_eq!(support.release_status, ReleaseStatus::ShipsNow);
    assert!(support.dictation_supported);
    assert!(support.blockers.is_empty());
    assert_eq!(support.unsupported_dictation_message(), None);
}

#[test]
fn macos_release_lists_required_native_work() {
    let support = support_for("macos");
    let blocker_names =
        support.blockers.iter().map(|blocker| blocker.name.as_str()).collect::<Vec<_>>();

    assert_eq!(support.release_status, ReleaseStatus::Blocked);
    assert!(!support.dictation_supported);
    assert!(!blocker_names.contains(&"Native audio capture"));
    assert!(!blocker_names.contains(&"Paste automation"));
    assert!(blocker_names.contains(&"Global shortcuts"));
    assert!(blocker_names.contains(&"Tray/window behavior validation"));
    assert!(blocker_names.contains(&"Signing/notarization"));
    assert!(blocker_names.contains(&"Native-host smoke tests"));
}

#[test]
fn windows_release_lists_required_native_work() {
    let support = support_for("windows");
    let blocker_names =
        support.blockers.iter().map(|blocker| blocker.name.as_str()).collect::<Vec<_>>();

    assert_eq!(support.release_status, ReleaseStatus::Blocked);
    assert!(!support.dictation_supported);
    assert!(blocker_names.contains(&"Native audio capture"));
    assert!(blocker_names.contains(&"Paste automation"));
    assert!(blocker_names.contains(&"Global shortcuts"));
    assert!(blocker_names.contains(&"Tray/window behavior validation"));
    assert!(blocker_names.contains(&"Code signing"));
    assert!(blocker_names.contains(&"Native-host smoke tests"));
}

#[test]
fn unsupported_platforms_explain_the_missing_work() {
    let other = support_for("plan9");
    assert_eq!(other.os, "plan9");
    assert_eq!(other.os_label(), "This platform");
    assert_eq!(
        other.unsupported_dictation_message().as_deref(),
        Some("This platform is not a PickScribe release target yet. Blocking work: Platform implementation.")
    );
    let mac = support_for("macos");
    assert_eq!(
        mac.unsupported_dictation_message().as_deref(),
        Some("macOS is not a PickScribe release target yet. Blocking work: Global shortcuts, Tray/window behavior validation, Signing/notarization, Native-host smoke tests.")
    );
}
