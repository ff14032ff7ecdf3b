use puffin_core::protocol::{DaemonError, DaemonResponse, HookErrorKind};

#[test]
fn parses_ready() {
    assert_eq!(DaemonResponse::try_from_str("READY"), Ok(DaemonResponse::Ready));
}

#[test]
fn parses_ok_payload() {
    assert_eq!(
        DaemonResponse::try_from_str("OK mypkg-1.0-py3-none-any.whl"),
        Ok(DaemonResponse::Okay("mypkg-1.0-py3-none-any.whl".to_string()))
    );
}

#[test]
fn ok_payload_keeps_later_spaces() {
    assert_eq!(
        DaemonResponse::try_from_str("OK a b c"),
        Ok(DaemonResponse::Okay("a b c".to_string()))
    );
}

#[test]
fn parses_debug_and_expect() {
    assert_eq!(
        DaemonResponse::try_from_str("DEBUG something happened"),
        Ok(DaemonResponse::Debug("something happened".to_string()))
    );
    assert_eq!(
        DaemonResponse::try_from_str("EXPECT more input"),
        Ok(DaemonResponse::Expect("more input".to_string()))
    );
}

#[test]
fn parses_error_with_kind_and_message() {
    assert_eq!(
        DaemonResponse::try_from_str("ERROR HookRuntimeError compilation failed"),
        Ok(DaemonResponse::Error(
            HookErrorKind::HookRuntimeError,
            "compilation failed".to_string()
        ))
    );
}

#[test]
fn error_with_unknown_kind_is_refused() {
    assert_eq!(
        DaemonResponse::try_from_str("ERROR Zap boom"),
        Err(DaemonError::UnknownErrorKind("Zap".to_string()))
    );
}

#[test]
fn parses_fatal_kind_and_message() {
    assert_eq!(
        DaemonResponse::try_from_str("FATAL ImportError no module named foo"),
        Ok(DaemonResponse::Fatal(
            "ImportError".to_string(),
            "no module named foo".to_string()
        ))
    );
}

#[test]
fn parses_stdout_and_stderr_paths() {
    assert_eq!(
        DaemonResponse::try_from_str("STDOUT /tmp/out.log"),
        Ok(DaemonResponse::Stdout("/tmp/out.log".to_string()))
    );
    assert_eq!(
        DaemonResponse::try_from_str("STDERR /tmp/err.log"),
        Ok(DaemonResponse::Stderr("/tmp/err.log".to_string()))
    );
}

#[test]
fn stdout_path_is_the_rest_of_the_line() {
    // A path holding spaces is carried whole, not cut at the next token.
    assert_eq!(
        DaemonResponse::try_from_str("STDOUT /tmp/build logs/out.log"),
        Ok(DaemonResponse::Stdout("/tmp/build logs/out.log".to_string()))
    );
    assert_eq!(
        DaemonResponse::try_from_str("STDERR /tmp/build logs/err.log"),
        Ok(DaemonResponse::Stderr("/tmp/build logs/err.log".to_string()))
    );
}

#[test]
fn parses_shutdown() {
    assert_eq!(DaemonResponse::try_from_str("SHUTDOWN"), Ok(DaemonResponse::Shutdown));
}

#[test]
fn empty_line_is_empty_response() {
    assert_eq!(DaemonResponse::try_from_str(""), Err(DaemonError::EmptyResponse));
}

#[test]
fn unknown_keyword_is_unknown_response() {
    assert_eq!(
        DaemonResponse::try_from_str("NOISE hello"),
        Err(DaemonError::UnknownResponse("NOISE hello".to_string()))
    );
}

#[test]
fn traceback_decodes_newline_escapes() {
    // A payload with literal `\n` escapes decodes to multi-line text.
    assert_eq!(
        DaemonResponse::try_from_str("TRACEBACK File \"x.py\"\\nError"),
        Ok(DaemonResponse::Traceback("File \"x.py\"\nError".to_string()))
    );
}

#[test]
fn traceback_collapses_doubled_newlines() {
    assert_eq!(
        DaemonResponse::try_from_str("TRACEBACK a\\n\\nb"),
        Ok(DaemonResponse::Traceback("a\nb".to_string()))
    );
}

#[test]
fn all_error_kinds_parse() {
    let kinds = vec![
        ("MissingBackendModule", HookErrorKind::MissingBackendModule),
        ("MissingBackendAttribute", HookErrorKind::MissingBackendAttribute),
        ("MalformedBackendName", HookErrorKind::MalformedBackendName),
        ("BackendImportError", HookErrorKind::BackendImportError),
        ("InvalidHookName", HookErrorKind::InvalidHookName),
        ("InvalidAction", HookErrorKind::InvalidAction),
        ("UnsupportedHook", HookErrorKind::UnsupportedHook),
        ("MalformedHookArgument", HookErrorKind::MalformedHookArgument),
        ("HookRuntimeError", HookErrorKind::HookRuntimeError),
    ];
    for (name, kind) in kinds {
        assert_eq!(HookErrorKind::try_from_str(name), Ok(kind));
        assert_eq!(kind.name(), name);
    }
    assert_eq!(
        HookErrorKind::try_from_str("Nonsense"),
        Err(DaemonError::UnknownErrorKind("Nonsense".to_string()))
    );
}

#[test]
fn error_summaries_are_stable() {
    assert_eq!(
        DaemonError::NotReady.to_display_string(),
        "Build daemon never reported ready"
    );
    assert_eq!(
        DaemonError::Closed.to_display_string(),
        "Build daemon died unexpectedly"
    );
    assert_eq!(
        DaemonError::UnknownResponse("NOISE".to_string()).to_display_string(),
        "Unknown response from build daemon: NOISE"
    );
    assert_eq!(
        DaemonError::Crashed {
            kind: "ImportError".to_string(),
            message: "no module named foo".to_string(),
            traceback: "tb".to_string(),
        }
        .to_display_string(),
        "Build daemon crashed with fatal error. ImportError: no module named foo\ntb"
    );
    assert_eq!(
        DaemonError::HookError {
            kind: HookErrorKind::HookRuntimeError,
            message: "compilation failed".to_string(),
            traceback: "tb".to_string(),
        }
        .to_display_string(),
        "Build daemon encountered error running hook: compilation failed\ntb"
    );
    assert_eq!(
        DaemonError::UnexpectedResponse(DaemonResponse::Ready).to_display_string(),
        "Unexpected response from build daemon: Ready"
    );
    assert_eq!(
        DaemonError::UnexpectedResponse(DaemonResponse::Error(
            HookErrorKind::InvalidAction,
            "nope".to_string()
        ))
        .to_display_string(),
        "Unexpected response from build daemon: Error(InvalidAction, nope)"
    );
}
