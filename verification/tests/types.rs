use kulua::types::AdbError;
use std::io;

#[test]
fn test_display_adb_not_found() {
    let err = AdbError::AdbNotFound {
        tried: "/usr/bin/adb".into(),
    };
    let output = err.to_string();
    assert!(
        output.contains("adb not found"),
        "expected 'adb not found' in display, got: {}",
        output
    );
}

#[test]
fn test_display_command_failed() {
    let err = AdbError::CommandFailed("something went wrong".into());
    let output = err.to_string();
    assert!(
        output.contains("adb command failed"),
        "expected 'adb command failed' in display, got: {}",
        output
    );
    assert!(
        output.contains("something went wrong"),
        "expected message in display, got: {}",
        output
    );
}

#[test]
fn test_display_io() {
    let io_err = io::Error::new(io::ErrorKind::NotFound, "file not found");
    let err = AdbError::Io(io_err);
    let output = err.to_string();
    assert!(
        output.contains("I/O error"),
        "expected 'I/O error' in display, got: {}",
        output
    );
}

#[test]
fn test_partial_eq_adb_not_found() {
    let a = AdbError::AdbNotFound {
        tried: "/path/a".into(),
    };
    let b = AdbError::AdbNotFound {
        tried: "/path/a".into(),
    };
    assert_eq!(a, b, "same tried path should be equal");

    let c = AdbError::AdbNotFound {
        tried: "/path/b".into(),
    };
    assert_ne!(a, c, "different tried paths should not be equal");
}

#[test]
fn test_partial_eq_command_failed() {
    let a = AdbError::CommandFailed("msg".into());
    let b = AdbError::CommandFailed("msg".into());
    assert_eq!(a, b, "same message should be equal");

    let c = AdbError::CommandFailed("other".into());
    assert_ne!(a, c, "different messages should not be equal");
}

#[test]
fn test_partial_eq_different_variants() {
    let not_found = AdbError::AdbNotFound {
        tried: "adb".into(),
    };
    let cmd_failed = AdbError::CommandFailed("adb".into());
    assert_ne!(
        not_found, cmd_failed,
        "different variants should not be equal"
    );
}

#[test]
fn test_error_source_io() {
    let inner = io::Error::new(io::ErrorKind::PermissionDenied, "permission denied");
    let err = AdbError::Io(inner);
    let source = err.source();
    assert!(source.is_some(), "Io variant should have a source");
    assert!(source.unwrap().contains("permission denied"));
}

#[test]
fn test_error_source_utf8() {
    let invalid = &[0xFF, 0xFE][..];
    let utf8_err = std::str::from_utf8(invalid).unwrap_err();
    let err = AdbError::Utf8(utf8_err);
    let source = err.source();
    assert!(source.is_some(), "Utf8 variant should have a source");
}

#[test]
fn test_error_source_other() {
    let err = AdbError::Other("generic".into());
    let source = err.source();
    assert!(source.is_none(), "Other variant should not have a source");
}
