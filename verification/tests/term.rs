use framing::term::{FastTerm, UnbufferError};

#[test]
fn terminal_results() {
    assert_eq!(FastTerm::parse_terminal_result(0), Ok(()));
    assert_eq!(FastTerm::parse_terminal_result(-1), Err(UnbufferError::TcGetAttrFailed));
    assert_eq!(FastTerm::parse_terminal_result(-2), Err(UnbufferError::TcSetAttrFailed));
    assert_eq!(FastTerm::parse_terminal_result(-3), Err(UnbufferError::Unknown));
    assert_eq!(FastTerm::parse_terminal_result(1), Err(UnbufferError::Unknown));
    assert_eq!(FastTerm::parse_terminal_result(i32::MIN), Err(UnbufferError::Unknown));
}

#[test]
fn clear_resets_a_terminal_under_control() {
    let term = FastTerm::new(Ok(()));
    assert!(term.is_unbuffered());
    assert_eq!(term.clear(), "\u{001b}c");
}

#[test]
fn clear_scrolls_any_other_terminal() {
    for error in [
        UnbufferError::TcGetAttrFailed,
        UnbufferError::TcSetAttrFailed,
        UnbufferError::PlatformNotSupported,
        UnbufferError::Unknown,
    ] {
        let term = FastTerm::new(Err(error));
        assert!(!term.is_unbuffered());
        assert_eq!(term.clear(), "\n".repeat(22));
    }
}

#[test]
fn revert_reports_failures_only() {
    assert_eq!(FastTerm::revert_report(0), None);
    assert_eq!(
        FastTerm::revert_report(-1),
        Some(String::from("Could not revert terminal settings: TcGetAttrFailed"))
    );
    assert_eq!(
        FastTerm::revert_report(-2),
        Some(String::from("Could not revert terminal settings: TcSetAttrFailed"))
    );
    assert_eq!(
        FastTerm::revert_report(9),
        Some(String::from("Could not revert terminal settings: Unknown"))
    );
}

#[test]
fn error_names() {
    assert_eq!(UnbufferError::PlatformNotSupported.to_string(), "PlatformNotSupported");
    assert_eq!(format!("{:?}", UnbufferError::Unknown), UnbufferError::Unknown.to_string());
}
