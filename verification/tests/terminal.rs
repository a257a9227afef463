use std::io;
use std::sync::{Arc, Mutex};

use reviewbox::terminal::{
    with_terminal, with_terminal_session, TerminalGuard, TerminalOps, TerminalSuspend,
};

#[derive(Clone)]
struct RecordingOps {
    calls: Arc<Mutex<Vec<&'static str>>>,
    fail_on: Option<&'static str>,
}

impl RecordingOps {
    fn new(fail_on: Option<&'static str>) -> (Self, Arc<Mutex<Vec<&'static str>>>) {
        let calls = Arc::new(Mutex::new(Vec::new()));
        (
            Self {
                calls: Arc::clone(&calls),
                fail_on,
            },
            calls,
        )
    }

    fn record(&self, name: &'static str) -> io::Result<()> {
        self.calls.lock().expect("calls mutex").push(name);
        if self.fail_on == Some(name) {
            Err(io::Error::other(format!("forced {name} failure")))
        } else {
            Ok(())
        }
    }
}

impl TerminalOps for RecordingOps {
    fn enable_raw_mode(&mut self) -> io::Result<()> {
        self.record("enable_raw")
    }
    fn enter_alternate_screen(&mut self) -> io::Result<()> {
        self.record("enter_screen")
    }
    fn hide_cursor(&mut self) -> io::Result<()> {
        self.record("hide_cursor")
    }
    fn show_cursor(&mut self) -> io::Result<()> {
        self.record("show_cursor")
    }
    fn leave_alternate_screen(&mut self) -> io::Result<()> {
        self.record("leave_screen")
    }
    fn disable_raw_mode(&mut self) -> io::Result<()> {
        self.record("disable_raw")
    }
}

fn calls(log: &Arc<Mutex<Vec<&'static str>>>) -> Vec<&'static str> {
    log.lock().expect("calls mutex").clone()
}

#[test]
fn normal_return_restores_in_reverse_order_once() {
    let (ops, log) = RecordingOps::new(None);
    with_terminal(ops, || Ok(())).expect("run succeeds");

    assert_eq!(
        calls(&log),
        [
            "enable_raw",
            "enter_screen",
            "hide_cursor",
            "show_cursor",
            "leave_screen",
            "disable_raw"
        ]
    );
}

#[test]
fn propagated_application_error_still_restores_terminal() {
    let (ops, log) = RecordingOps::new(None);
    let error = with_terminal(ops, || -> io::Result<()> {
        Err(io::Error::other("forced application failure"))
    })
    .expect_err("run fails");

    assert_eq!(error.to_string(), "forced application failure");
    assert_eq!(
        &calls(&log)[3..],
        ["show_cursor", "leave_screen", "disable_raw"]
    );
}

#[test]
fn partial_setup_failure_restores_only_acquired_resources() {
    let (ops, log) = RecordingOps::new(Some("hide_cursor"));
    let result = TerminalGuard::acquire(ops);

    assert!(result.is_err());
    assert_eq!(
        calls(&log),
        [
            "enable_raw",
            "enter_screen",
            "hide_cursor",
            "leave_screen",
            "disable_raw"
        ]
    );
}

#[test]
fn explicit_restore_is_idempotent() {
    let (ops, log) = RecordingOps::new(None);
    let mut guard = TerminalGuard::acquire(ops).expect("setup succeeds");

    guard.restore().expect("first restore succeeds");
    guard.restore().expect("second restore is a no-op");
    drop(guard);

    assert_eq!(calls(&log).len(), 6);
}

#[test]
fn suspend_and_resume_use_exact_terminal_order_and_restore_remains_idempotent() {
    let (ops, log) = RecordingOps::new(None);
    let mut guard = TerminalGuard::acquire(ops).expect("setup succeeds");

    guard.suspend().expect("suspend succeeds");
    guard.resume().expect("resume succeeds");
    guard.restore().expect("restore succeeds");
    guard.restore().expect("second restore is a no-op");
    drop(guard);

    assert_eq!(
        calls(&log),
        [
            "enable_raw",
            "enter_screen",
            "hide_cursor",
            "show_cursor",
            "leave_screen",
            "disable_raw",
            "enable_raw",
            "enter_screen",
            "hide_cursor",
            "show_cursor",
            "leave_screen",
            "disable_raw",
        ]
    );
}

#[derive(Clone)]
struct ResumeFailOps {
    calls: Arc<Mutex<Vec<&'static str>>>,
    enable_count: usize,
}

impl ResumeFailOps {
    fn record(&mut self, name: &'static str) -> io::Result<()> {
        self.calls.lock().expect("calls mutex").push(name);
        if name == "enable_raw" {
            self.enable_count += 1;
            if self.enable_count == 2 {
                return Err(io::Error::other("forced resume failure"));
            }
        }
        Ok(())
    }
}

impl TerminalOps for ResumeFailOps {
    fn enable_raw_mode(&mut self) -> io::Result<()> {
        self.record("enable_raw")
    }
    fn enter_alternate_screen(&mut self) -> io::Result<()> {
        self.record("enter_screen")
    }
    fn hide_cursor(&mut self) -> io::Result<()> {
        self.record("hide_cursor")
    }
    fn show_cursor(&mut self) -> io::Result<()> {
        self.record("show_cursor")
    }
    fn leave_alternate_screen(&mut self) -> io::Result<()> {
        self.record("leave_screen")
    }
    fn disable_raw_mode(&mut self) -> io::Result<()> {
        self.record("disable_raw")
    }
}

#[test]
fn failed_resume_leaves_final_restore_idempotent_without_repeating_steps() {
    let log = Arc::new(Mutex::new(Vec::new()));
    let ops = ResumeFailOps {
        calls: Arc::clone(&log),
        enable_count: 0,
    };
    let mut guard = TerminalGuard::acquire(ops).expect("setup succeeds");
    guard.suspend().expect("suspend succeeds");

    assert!(guard.resume().is_err());
    guard.restore().expect("no acquired resources remain");
    drop(guard);

    assert_eq!(
        calls(&log),
        [
            "enable_raw",
            "enter_screen",
            "hide_cursor",
            "show_cursor",
            "leave_screen",
            "disable_raw",
            "enable_raw",
        ]
    );
}

#[test]
fn cleanup_continues_after_one_restore_operation_fails() {
    let (ops, log) = RecordingOps::new(Some("show_cursor"));
    let error = with_terminal(ops, || Ok(())).expect_err("restore fails");

    assert!(error.to_string().contains("show_cursor"));
    assert_eq!(
        &calls(&log)[3..],
        ["show_cursor", "leave_screen", "disable_raw"]
    );
}

#[test]
fn setup_failure_message_names_the_setup_error() {
    let (ops, _log) = RecordingOps::new(Some("enter_screen"));
    let error = match TerminalGuard::acquire(ops) {
        Ok(_) => panic!("setup must fail"),
        Err(error) => error,
    };
    assert_eq!(
        error.to_string(),
        "terminal setup failed: forced enter_screen failure"
    );
}

#[test]
fn application_and_restore_failures_are_combined() {
    let (ops, _log) = RecordingOps::new(Some("disable_raw"));
    let error = with_terminal(ops, || -> io::Result<()> { Err(io::Error::other("boom")) })
        .expect_err("both fail");
    assert_eq!(
        error.to_string(),
        "application failed: boom; terminal restoration failed: forced disable_raw failure"
    );
}

#[test]
fn suspend_after_restore_is_refused() {
    let (ops, log) = RecordingOps::new(None);
    let mut guard = TerminalGuard::acquire(ops).expect("setup succeeds");
    guard.restore().expect("restore succeeds");
    let error = guard.suspend().expect_err("suspend is refused");
    assert_eq!(error.to_string(), "terminal session is already restored");
    assert!(guard.resume().is_err());
    assert_eq!(calls(&log).len(), 6);
}

#[test]
fn a_partial_setup_releases_only_what_it_took() {
    let (ops, log) = RecordingOps::new(Some("enter_screen"));
    assert!(TerminalGuard::acquire(ops).is_err());
    assert_eq!(calls(&log), ["enable_raw", "enter_screen", "disable_raw"]);
}

#[test]
fn a_session_reports_a_failed_restore_after_every_release_step() {
    let (ops, log) = RecordingOps::new(Some("leave_screen"));
    let outcome = with_terminal_session(ops, |_guard| Ok(1));
    assert!(outcome.is_err());
    assert_eq!(calls(&log)[3..], ["show_cursor", "leave_screen", "disable_raw"]);
}
