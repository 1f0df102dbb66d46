use lareview::platform::{corner_step, supports_native_rounded_corners, CornerStep, TargetOs};

#[test]
fn test_supports_native_rounded_corners() {
    // Just verify it doesn't crash and returns a consistent value for the platform
    for os in [TargetOs::Windows, TargetOs::MacOs, TargetOs::Linux, TargetOs::Other] {
        let _ = supports_native_rounded_corners(os);
        assert_eq!(supports_native_rounded_corners(os), supports_native_rounded_corners(os));
    }
}

#[test]
fn rounded_corners_only_on_windows_and_macos() {
    assert!(supports_native_rounded_corners(TargetOs::from_name("windows")));
    assert!(supports_native_rounded_corners(TargetOs::from_name("macos")));
    assert!(!supports_native_rounded_corners(TargetOs::from_name("linux")));
    assert!(!supports_native_rounded_corners(TargetOs::from_name("freebsd")));
    assert_eq!(TargetOs::from_name("linux"), TargetOs::Linux);
    assert_eq!(TargetOs::from_name("Linux"), TargetOs::Other);
}

#[test]
fn test_apply_native_rounded_corners_null() {
    for os in [TargetOs::Windows, TargetOs::MacOs, TargetOs::Linux, TargetOs::Other] {
        let res = corner_step(os, true);
        assert!(res == CornerStep::RejectNull || res == CornerStep::Unsupported);
    }
    assert_eq!(corner_step(TargetOs::Windows, false), CornerStep::CallNative);
    assert_eq!(corner_step(TargetOs::MacOs, false), CornerStep::CallNative);
    assert_eq!(corner_step(TargetOs::Linux, false), CornerStep::Skip);
    assert_eq!(corner_step(TargetOs::Other, false), CornerStep::Unsupported);
}
