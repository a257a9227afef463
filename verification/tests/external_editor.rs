use std::io;
use std::path::{Path, PathBuf};
use std::sync::{Arc, Mutex};

use reviewbox::external_editor::{
    check_draft_size, draft_from_file, edit_draft, read_outcome, resolve_editor, run_outcome,
    split_command, EditorCommand, EditorError, EditorOutcome, EditorProcess, EditorTempFiles,
    EnvironmentValue,
};
use reviewbox::terminal::TerminalSuspend;

fn text(value: &str) -> Option<EnvironmentValue> {
    Some(EnvironmentValue::Text(value.to_owned()))
}

#[test]
fn visual_precedes_editor_and_blank_visual_falls_through() {
    let command = resolve_editor(text("nvim -f"), text("vim --nofork")).unwrap();
    assert_eq!(command.program, "nvim");
    assert_eq!(command.args, ["-f"]);

    let command = resolve_editor(text("  \t"), text("vim --nofork")).unwrap();
    assert_eq!(command.program, "vim");
    assert_eq!(command.args, ["--nofork"]);
}

#[test]
fn command_parser_supports_quotes_spaces_and_escapes_without_a_shell() {
    let command = resolve_editor(
        text("'/opt/My Editor/nvim' -f --cmd \"set\\ number\" escaped\\ value"),
        None,
    )
    .unwrap();
    assert_eq!(command.program, "/opt/My Editor/nvim");
    assert_eq!(command.args, ["-f", "--cmd", "set number", "escaped value"]);
}

#[test]
fn missing_unbalanced_empty_and_non_utf8_configuration_are_rejected() {
    assert_eq!(resolve_editor(None, None), Err(EditorError::NotConfigured));
    assert_eq!(resolve_editor(text("nvim 'oops"), None), Err(EditorError::Invalid));
    assert_eq!(resolve_editor(text("''"), None), Err(EditorError::Invalid));
    assert_eq!(
        resolve_editor(Some(EnvironmentValue::NotUnicode), text("vim")),
        Err(EditorError::Invalid)
    );
}

#[test]
fn blank_editor_setting_is_not_configured() {
    assert_eq!(resolve_editor(None, text(" \u{3000}")), Err(EditorError::NotConfigured));
    assert_eq!(
        resolve_editor(None, Some(EnvironmentValue::NotUnicode)),
        Err(EditorError::Invalid)
    );
    assert_eq!(resolve_editor(text("nano\\"), None), Err(EditorError::Invalid));
}

#[test]
fn splitting_keeps_empty_quoted_words_and_drops_extra_space() {
    assert_eq!(
        split_command("  a  \"\"  'b c'\\\"d ").unwrap(),
        ["a", "", "b c\"d"]
    );
    assert_eq!(split_command("").unwrap(), Vec::<String>::new());
    assert_eq!(split_command("\"a\\\"b\"").unwrap(), ["a\"b"]);
    assert_eq!(split_command("'a\\b'").unwrap(), ["a\\b"]);
    assert_eq!(split_command("\"open"), Err(EditorError::Invalid));
}

#[test]
fn error_messages_are_fixed_sentences() {
    assert_eq!(EditorError::NotConfigured.message(), "no external editor is configured");
    assert_eq!(
        EditorError::Terminal.message(),
        "terminal could not switch to or from the external editor"
    );
    assert_eq!(EditorError::Decode.message(), "external editor content is not valid UTF-8");
}

#[test]
fn outcomes_follow_the_exit_status_and_the_file() {
    assert_eq!(run_outcome(Ok(true)), None);
    assert_eq!(run_outcome(Ok(false)), Some(EditorOutcome::Unchanged));
    assert_eq!(
        run_outcome(Err(EditorError::Launch)),
        Some(EditorOutcome::Failed(EditorError::Launch))
    );
    assert_eq!(
        read_outcome(Ok("replacement".to_owned())),
        EditorOutcome::Replaced("replacement".to_owned())
    );
    assert_eq!(read_outcome(Ok(" \n\t".to_owned())), EditorOutcome::Unchanged);
    assert_eq!(
        read_outcome(Err(EditorError::Read)),
        EditorOutcome::Failed(EditorError::Read)
    );
}

#[test]
fn draft_size_and_file_content_limits() {
    assert_eq!(check_draft_size("alpha", 5), Ok(()));
    assert_eq!(check_draft_size("alphas", 5), Err(EditorError::TooLarge));
    assert_eq!(
        check_draft_size(&"x".repeat(1024 * 1024), usize::MAX),
        Err(EditorError::TooLarge)
    );
    assert_eq!(check_draft_size(&"é".repeat(300_000), usize::MAX), Ok(()));
    assert_eq!(draft_from_file(b"alpha\n".to_vec(), 10), Ok("alpha".to_owned()));
    assert_eq!(draft_from_file(b"alpha\n\n".to_vec(), 10), Ok("alpha\n".to_owned()));
    assert_eq!(draft_from_file(vec![0xff], 10), Err(EditorError::Decode));
    assert_eq!(
        draft_from_file(vec![b'a'; 1024 * 1024 + 1], usize::MAX),
        Err(EditorError::TooLarge)
    );
    assert_eq!(draft_from_file(b"abc\n".to_vec(), 2), Err(EditorError::TooLarge));
}

struct NoTerminal;

impl TerminalSuspend for NoTerminal {
    fn suspend(&mut self) -> io::Result<()> {
        Ok(())
    }
    fn resume(&mut self) -> io::Result<()> {
        Ok(())
    }
}

struct RecordingTerminal(Arc<Mutex<Vec<&'static str>>>);

impl TerminalSuspend for RecordingTerminal {
    fn suspend(&mut self) -> io::Result<()> {
        self.0.lock().unwrap().push("suspend");
        Ok(())
    }
    fn resume(&mut self) -> io::Result<()> {
        self.0.lock().unwrap().push("resume");
        Ok(())
    }
}

struct RecordingTemp {
    log: Arc<Mutex<Vec<&'static str>>>,
    cleanup_result: Result<(), EditorError>,
}

impl EditorTempFiles for RecordingTemp {
    fn create(&mut self, _body: &str) -> Result<PathBuf, EditorError> {
        self.log.lock().unwrap().push("create");
        Ok(PathBuf::from("/private/draft.md"))
    }
    fn read(&mut self, _path: &Path) -> Result<String, EditorError> {
        self.log.lock().unwrap().push("read");
        Ok("changed".to_owned())
    }
    fn cleanup(&mut self, _path: &Path) -> Result<(), EditorError> {
        self.log.lock().unwrap().push("cleanup");
        self.cleanup_result
    }
}

struct RecordingProcess(Arc<Mutex<Vec<&'static str>>>);

impl EditorProcess for RecordingProcess {
    fn run(&mut self, _command: &EditorCommand, _draft_path: &Path) -> Result<bool, EditorError> {
        self.0.lock().unwrap().push("launch");
        Ok(true)
    }
}

#[test]
fn temp_creation_precedes_suspend_and_cleanup_precedes_resume() {
    let log = Arc::new(Mutex::new(Vec::new()));
    let mut terminal = RecordingTerminal(Arc::clone(&log));
    let mut process = RecordingProcess(Arc::clone(&log));
    let mut temp_files = RecordingTemp {
        log: Arc::clone(&log),
        cleanup_result: Ok(()),
    };
    let command = EditorCommand {
        program: "nvim".into(),
        args: Vec::new(),
    };
    let result = edit_draft("body", &command, &mut terminal, &mut process, &mut temp_files);
    assert!(matches!(result.outcome, EditorOutcome::Replaced(_)));
    assert_eq!(
        *log.lock().unwrap(),
        ["create", "suspend", "launch", "read", "cleanup", "resume"]
    );
}

#[test]
fn cleanup_failure_is_best_effort_and_does_not_replace_the_editor_outcome() {
    let log = Arc::new(Mutex::new(Vec::new()));
    let mut terminal = RecordingTerminal(Arc::clone(&log));
    let mut process = RecordingProcess(Arc::clone(&log));
    let mut temp_files = RecordingTemp {
        log,
        cleanup_result: Err(EditorError::TempFile),
    };
    let command = EditorCommand {
        program: "nvim".into(),
        args: Vec::new(),
    };

    let result = edit_draft("body", &command, &mut terminal, &mut process, &mut temp_files);

    assert_eq!(
        result.outcome,
        EditorOutcome::Replaced("changed".to_owned())
    );
    assert!(result.resume.is_ok());
}

struct MemoryTemp {
    content: Option<String>,
    replacement: Option<String>,
}

impl EditorTempFiles for MemoryTemp {
    fn create(&mut self, body: &str) -> Result<PathBuf, EditorError> {
        check_draft_size(body, 100)?;
        self.content = Some(format!("{body}\n"));
        Ok(PathBuf::from("/private/draft.md"))
    }
    fn read(&mut self, _path: &Path) -> Result<String, EditorError> {
        let bytes = self
            .replacement
            .take()
            .or_else(|| self.content.clone())
            .unwrap_or_default()
            .into_bytes();
        draft_from_file(bytes, 100)
    }
    fn cleanup(&mut self, _path: &Path) -> Result<(), EditorError> {
        self.content = None;
        Ok(())
    }
}

struct ExitProcess(Result<bool, EditorError>);

impl EditorProcess for ExitProcess {
    fn run(&mut self, command: &EditorCommand, _draft_path: &Path) -> Result<bool, EditorError> {
        assert_eq!(command.program, "nvim");
        assert_eq!(command.args, ["-f"]);
        self.0
    }
}

#[test]
fn successful_edit_replaces_but_nonzero_exit_preserves_and_cleans_up() {
    let command = EditorCommand {
        program: "nvim".into(),
        args: vec!["-f".into()],
    };
    let mut temp_files = MemoryTemp {
        content: None,
        replacement: Some("replacement\n".to_owned()),
    };
    let result = edit_draft("prior", &command, &mut NoTerminal, &mut ExitProcess(Ok(true)), &mut temp_files);
    assert!(matches!(
        result.outcome,
        EditorOutcome::Replaced(ref body) if body == "replacement"
    ));
    assert!(temp_files.content.is_none());

    let mut temp_files = MemoryTemp {
        content: None,
        replacement: Some("ignored\n".to_owned()),
    };
    let result = edit_draft("prior", &command, &mut NoTerminal, &mut ExitProcess(Ok(false)), &mut temp_files);
    assert_eq!(result.outcome, EditorOutcome::Unchanged);
    assert!(temp_files.content.is_none());

    let mut temp_files = MemoryTemp {
        content: None,
        replacement: Some(" \n\t\n".to_owned()),
    };
    let result = edit_draft("prior", &command, &mut NoTerminal, &mut ExitProcess(Ok(true)), &mut temp_files);
    assert_eq!(result.outcome, EditorOutcome::Unchanged);
    assert!(temp_files.content.is_none());
}

#[test]
fn oversized_input_is_rejected_before_the_terminal_is_touched() {
    let command = EditorCommand {
        program: "nvim".into(),
        args: vec!["-f".into()],
    };
    let mut temp_files = MemoryTemp {
        content: None,
        replacement: None,
    };
    let result = edit_draft(
        &"x".repeat(101),
        &command,
        &mut NoTerminal,
        &mut ExitProcess(Ok(true)),
        &mut temp_files,
    );
    assert_eq!(result.outcome, EditorOutcome::Failed(EditorError::TooLarge));
    assert!(!result.terminal_touched);
}

struct FailingSuspend(Arc<Mutex<Vec<&'static str>>>);

impl TerminalSuspend for FailingSuspend {
    fn suspend(&mut self) -> io::Result<()> {
        self.0.lock().unwrap().push("suspend");
        Err(io::Error::other("no terminal"))
    }
    fn resume(&mut self) -> io::Result<()> {
        self.0.lock().unwrap().push("resume");
        Ok(())
    }
}

#[test]
fn failed_suspend_cleans_up_and_resumes_without_running_the_editor() {
    let log = Arc::new(Mutex::new(Vec::new()));
    let mut terminal = FailingSuspend(Arc::clone(&log));
    let mut process = RecordingProcess(Arc::clone(&log));
    let mut temp_files = RecordingTemp {
        log: Arc::clone(&log),
        cleanup_result: Ok(()),
    };
    let command = EditorCommand {
        program: "nvim".into(),
        args: Vec::new(),
    };
    let result = edit_draft("body", &command, &mut terminal, &mut process, &mut temp_files);
    assert_eq!(result.outcome, EditorOutcome::Failed(EditorError::Terminal));
    assert!(result.terminal_touched);
    assert_eq!(*log.lock().unwrap(), ["create", "suspend", "cleanup", "resume"]);
}

#[test]
fn a_successful_edit_touches_the_terminal_and_removes_the_file() {
    let command = EditorCommand {
        program: "nvim".into(),
        args: vec!["-f".into()],
    };
    let mut temp_files = MemoryTemp {
        content: None,
        replacement: Some("edited replacement\n".to_owned()),
    };
    let result = edit_draft("prior", &command, &mut NoTerminal, &mut ExitProcess(Ok(true)), &mut temp_files);
    assert!(matches!(
        result.outcome,
        EditorOutcome::Replaced(ref body) if body == "edited replacement"
    ));
    assert!(result.terminal_touched);
    assert!(temp_files.content.is_none());
}
