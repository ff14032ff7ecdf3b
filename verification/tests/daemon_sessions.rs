use puffin_core::command::{spawn_path_variable, BuildKind, Pep517Backend};
use puffin_core::daemon::{CloseAction, DaemonStep, Pep517Daemon};
use puffin_core::hooks::{build_hook_args, build_hook_name, metadata_hook_args, metadata_hook_name, requires_hook_args, requires_hook_name};
use puffin_core::protocol::{DaemonError, HookErrorKind};

fn plain_backend() -> Pep517Backend {
    Pep517Backend { backend: "backend.mod".to_string(), backend_path: None }
}

#[test]
fn happy_build_returns_filename() {
    let mut d = Pep517Daemon::new();
    d.begin_hook(true);
    assert!(matches!(d.on_line(Some("READY")), Ok(DaemonStep::Ready)));
    let hook = build_hook_name(BuildKind::Wheel);
    let args = build_hook_args("/tmp/out", None);
    let block = d.send_command(&plain_backend(), hook.as_str(), &args);
    assert_eq!(block, "run\nbackend.mod\n\nbuild_wheel\n/tmp/out\n\n\n");
    match d.on_line(Some("OK mypkg-1.0-py3-none-any.whl")) {
        Ok(DaemonStep::Output(name)) => assert_eq!(name, "mypkg-1.0-py3-none-any.whl"),
        other => panic!("unexpected step: {:?}", other),
    }
    // The daemon is idle again: the next hook drains the pending READY.
    d.begin_hook(false);
    assert!(matches!(d.on_line(Some("READY")), Ok(DaemonStep::Ready)));
    assert_eq!(d.close(true, true), CloseAction::SendShutdown);
    assert!(d.is_closed());
}

#[test]
fn recoverable_hook_error_surfaces_and_daemon_stays_usable() {
    let mut d = Pep517Daemon::new();
    d.begin_hook(true);
    assert!(matches!(d.on_line(Some("READY")), Ok(DaemonStep::Ready)));
    let hook = build_hook_name(BuildKind::Wheel);
    let args = build_hook_args("/tmp/out", None);
    let _ = d.send_command(&plain_backend(), hook.as_str(), &args);
    assert!(matches!(
        d.on_line(Some("ERROR HookRuntimeError compilation failed")),
        Ok(DaemonStep::Continue)
    ));
    match d.on_line(Some("TRACEBACK File \"x.py\"...\\nError")) {
        Err(DaemonError::HookError { kind, message, traceback }) => {
            assert_eq!(kind, HookErrorKind::HookRuntimeError);
            assert_eq!(message, "compilation failed");
            assert_eq!(traceback, "File \"x.py\"...\nError");
        }
        other => panic!("unexpected step: {:?}", other),
    }
    // The next call reuses the idle daemon.
    d.begin_hook(false);
    assert!(matches!(d.on_line(Some("READY")), Ok(DaemonStep::Ready)));
    d.close(true, true);
}

#[test]
fn crash_mid_hook_reports_and_respawn_recovers() {
    let mut d = Pep517Daemon::new();
    d.begin_hook(true);
    assert!(matches!(d.on_line(Some("READY")), Ok(DaemonStep::Ready)));
    let hook = metadata_hook_name(BuildKind::Wheel);
    let args = metadata_hook_args("/tmp/meta");
    let _ = d.send_command(&plain_backend(), hook.as_str(), &args);
    assert!(matches!(
        d.on_line(Some("FATAL ImportError no module named foo")),
        Ok(DaemonStep::Continue)
    ));
    match d.on_line(Some("TRACEBACK tb")) {
        Err(DaemonError::Crashed { kind, message, traceback }) => {
            assert_eq!(kind, "ImportError");
            assert_eq!(message, "no module named foo");
            assert_eq!(traceback, "tb");
        }
        other => panic!("unexpected step: {:?}", other),
    }
    // A subsequent call spawns a fresh child.
    d.begin_hook(true);
    assert!(matches!(d.on_line(Some("READY")), Ok(DaemonStep::Ready)));
    d.close(true, false);
}

#[test]
fn startup_requires_ready_first() {
    let mut d = Pep517Daemon::new();
    d.begin_hook(true);
    // Informational records are drained.
    match d.on_line(Some("DEBUG warming up")) {
        Ok(DaemonStep::LogDebug(m)) => assert_eq!(m, "warming up"),
        other => panic!("unexpected step: {:?}", other),
    }
    assert!(matches!(d.on_line(Some("EXPECT run")), Ok(DaemonStep::Continue)));
    // Any other actionable record refuses the hook.
    assert!(matches!(d.on_line(Some("OK too early")), Err(DaemonError::NotReady)));
    d.close(true, true);
}

#[test]
fn end_of_input_closes_the_daemon() {
    let mut d = Pep517Daemon::new();
    d.begin_hook(true);
    assert!(matches!(d.on_line(None), Err(DaemonError::Closed)));
    // End of input closes the daemon itself: dropping it now is no fault.
    assert!(d.is_closed());
}

#[test]
fn only_an_alive_idle_daemon_is_reused() {
    let mut d = Pep517Daemon::new();
    assert!(d.needs_spawn(false));
    assert!(d.needs_spawn(true));
    d.begin_hook(true);
    assert!(matches!(d.on_line(Some("READY")), Ok(DaemonStep::Ready)));
    assert!(!d.needs_spawn(true));
    assert!(d.needs_spawn(false));
    d.close(true, true);
}

#[test]
fn unexpected_record_while_awaiting_fails() {
    let mut d = Pep517Daemon::new();
    d.begin_hook(true);
    assert!(matches!(d.on_line(Some("READY")), Ok(DaemonStep::Ready)));
    let hook = requires_hook_name(BuildKind::Wheel);
    let args = requires_hook_args();
    let block = d.send_command(&plain_backend(), hook.as_str(), &args);
    assert_eq!(block, "run\nbackend.mod\n\nget_requires_for_build_wheel\n\n");
    assert!(matches!(
        d.on_line(Some("SHUTDOWN")),
        Err(DaemonError::UnexpectedResponse(_))
    ));
    d.close(true, false);
}

#[test]
fn stdout_and_stderr_are_advisory() {
    let mut d = Pep517Daemon::new();
    d.begin_hook(true);
    assert!(matches!(d.on_line(Some("READY")), Ok(DaemonStep::Ready)));
    let hook = build_hook_name(BuildKind::Editable);
    let args = build_hook_args("/tmp/out", Some("/tmp/meta"));
    let block = d.send_command(&plain_backend(), hook.as_str(), &args);
    assert_eq!(block, "run\nbackend.mod\n\nbuild_editable\n/tmp/out\n\n/tmp/meta\n");
    assert!(matches!(d.on_line(Some("STDOUT /tmp/h.log")), Ok(DaemonStep::Continue)));
    assert!(matches!(d.on_line(Some("STDERR /tmp/e.log")), Ok(DaemonStep::Continue)));
    match d.on_line(Some("OK done-0.1.tar")) {
        Ok(DaemonStep::Output(name)) => assert_eq!(name, "done-0.1.tar"),
        other => panic!("unexpected step: {:?}", other),
    }
    d.close(true, true);
}

#[test]
fn backend_paths_are_sent_before_the_blank_line() {
    let mut d = Pep517Daemon::new();
    d.begin_hook(true);
    assert!(matches!(d.on_line(Some("READY")), Ok(DaemonStep::Ready)));
    let backend = Pep517Backend {
        backend: "backend.mod:build".to_string(),
        backend_path: Some(vec!["src".to_string(), "vendor".to_string()]),
    };
    let hook = build_hook_name(BuildKind::Wheel);
    let args = build_hook_args("/tmp/out", None);
    let block = d.send_command(&backend, hook.as_str(), &args);
    assert_eq!(block, "run\nbackend.mod:build\nsrc\nvendor\n\nbuild_wheel\n/tmp/out\n\n\n");
    d.close(true, true);
}

#[test]
fn empty_arguments_serialize_as_empty_lines() {
    // Each empty field takes exactly one empty line, keeping the record
    // shape fixed.
    let args = build_hook_args("", None);
    assert_eq!(args, vec!["".to_string(), "".to_string(), "".to_string()]);
    let mut d = Pep517Daemon::new();
    d.begin_hook(true);
    assert!(matches!(d.on_line(Some("READY")), Ok(DaemonStep::Ready)));
    let block = d.send_command(&plain_backend(), "build_wheel", &args);
    assert_eq!(block, "run\nbackend.mod\n\nbuild_wheel\n\n\n\n");
    d.close(true, true);
}

#[test]
fn a_missing_traceback_after_an_error_reads_as_blank() {
    let mut d = Pep517Daemon::new();
    d.begin_hook(true);
    assert!(matches!(d.on_line(Some("READY")), Ok(DaemonStep::Ready)));
    let hook = build_hook_name(BuildKind::Wheel);
    let args = build_hook_args("/tmp/out", None);
    let _ = d.send_command(&plain_backend(), hook.as_str(), &args);
    assert!(matches!(
        d.on_line(Some("ERROR HookRuntimeError boom")),
        Ok(DaemonStep::Continue)
    ));
    // The record paired with the ERROR is not a TRACEBACK: the traceback
    // is reported blank.
    match d.on_line(Some("READY")) {
        Err(DaemonError::HookError { kind, message, traceback }) => {
            assert_eq!(kind, HookErrorKind::HookRuntimeError);
            assert_eq!(message, "boom");
            assert_eq!(traceback, "");
        }
        other => panic!("unexpected step: {:?}", other),
    }
    d.close(true, true);
}

#[test]
fn closing_a_never_started_daemon_reports_nothing() {
    let mut d = Pep517Daemon::new();
    assert_eq!(d.close(false, false), CloseAction::Nothing);
    assert!(d.is_closed());
}

#[test]
fn close_collects_exit_of_a_dead_child() {
    let mut d = Pep517Daemon::new();
    d.begin_hook(true);
    assert_eq!(d.close(true, false), CloseAction::AwaitExit);
}

#[test]
fn shutdown_line_is_the_literal_command() {
    assert_eq!(Pep517Daemon::shutdown_line(), "shutdown\n");
}

#[test]
fn the_search_path_puts_the_environment_first() {
    assert_eq!(spawn_path_variable("/venv/bin", Some("/usr/bin:/bin")), "/venv/bin:/usr/bin:/bin");
    assert_eq!(spawn_path_variable("/venv/bin", None), "/venv/bin");
}
