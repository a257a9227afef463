use vstd::prelude::*;

use crate::terminal::TerminalSuspend;
use crate::text::{chars_of, string_from_chars, texts_view};

verus! {

/// Paths of draft files, carried through opaquely.
#[verifier::external_type_specification]
#[verifier::external_body]
pub struct ExPathBuf(std::path::PathBuf);

/// Paths of draft files, carried through opaquely.
#[verifier::external_type_specification]
#[verifier::external_body]
pub struct ExPath(std::path::Path);

/// The largest draft file, in bytes, that is handed to or read back from an editor, exclusive.
pub const MAX_EDITOR_BYTES: u64 = 1048576;

/// The program and arguments that edit a draft; the draft's path is appended.
#[derive(Clone, Debug, PartialEq, Eq)]
pub struct EditorCommand {
    pub program: String,
    pub args: Vec<String>,
}

/// Why an external edit failed.
#[derive(Clone, Copy, Debug, PartialEq, Eq, Structural)]
pub enum EditorError {
    NotConfigured,
    Invalid,
    TempFile,
    Launch,
    Read,
    Decode,
    TooLarge,
    Terminal,
}

impl EditorError {
    /// What went wrong, for a person.
    pub fn message(&self) -> (text: &'static str)
        ensures
            text@ == match *self {
                EditorError::NotConfigured => "no external editor is configured"@,
                EditorError::Invalid => "external editor configuration is invalid"@,
                EditorError::TempFile => "could not prepare a private editor file"@,
                EditorError::Launch => "external editor could not be run"@,
                EditorError::Read => "external editor content could not be read"@,
                EditorError::Decode => "external editor content is not valid UTF-8"@,
                EditorError::TooLarge => "external editor content exceeds the draft limit"@,
                EditorError::Terminal => "terminal could not switch to or from the external editor"@,
            },
    {
        match self {
            EditorError::NotConfigured => "no external editor is configured",
            EditorError::Invalid => "external editor configuration is invalid",
            EditorError::TempFile => "could not prepare a private editor file",
            EditorError::Launch => "external editor could not be run",
            EditorError::Read => "external editor content could not be read",
            EditorError::Decode => "external editor content is not valid UTF-8",
            EditorError::TooLarge => "external editor content exceeds the draft limit",
            EditorError::Terminal => "terminal could not switch to or from the external editor",
        }
    }
}

/// The value of an environment variable as the process sees it.
#[derive(Clone, Debug, PartialEq, Eq)]
pub enum EnvironmentValue {
    Text(String),
    /// A value that is not valid Unicode.
    NotUnicode,
}

/// Whether `c` has the Unicode `White_Space` property, as `char::is_whitespace` tests.
pub open spec fn is_white_space(c: char) -> bool {
    let code = c as int;
    ||| 0x09 <= code <= 0x0D
    ||| code == 0x20
    ||| code == 0x85
    ||| code == 0xA0
    ||| code == 0x1680
    ||| 0x2000 <= code <= 0x200A
    ||| code == 0x2028
    ||| code == 0x2029
    ||| code == 0x202F
    ||| code == 0x205F
    ||| code == 0x3000
}

/// Whether `text` holds nothing but white space (what `str::trim` would leave empty).
pub open spec fn is_blank(text: Seq<char>) -> bool {
    forall|i: int| 0 <= i < text.len() ==> is_white_space(#[trigger] text[i])
}

/// Whether `c` has the Unicode `White_Space` property.
pub fn white_space(c: char) -> (white: bool)
    ensures
        white == is_white_space(c),
{
    let code = c as u32;
    (0x09 <= code && code <= 0x0D) || code == 0x20 || code == 0x85 || code == 0xA0 || code
        == 0x1680 || (0x2000 <= code && code <= 0x200A) || code == 0x2028 || code == 0x2029
        || code == 0x202F || code == 0x205F || code == 0x3000
}

/// Whether `text` holds nothing but white space.
pub fn blank(text: &str) -> (is: bool)
    ensures
        is == is_blank(text@),
{
    let chars = chars_of(text);
    let mut i: usize = 0;
    while i < chars.len()
        invariant
            chars@ == text@,
            i <= chars@.len(),
            forall|k: int| 0 <= k < i ==> is_white_space(#[trigger] text@[k]),
        decreases chars.len() - i,
    {
        if !white_space(chars[i]) {
            return false;
        }
        i = i + 1;
    }
    true
}

/// The quoting that the command splitter is inside.
#[derive(Clone, Copy, Debug, PartialEq, Eq, Structural)]
pub enum Quote {
    Unquoted,
    Single,
    Double,
}

/// Where the command splitter stands after some characters: the words finished, the word being
/// read, the quoting, whether a backslash escapes the next character, and whether a word has
/// started (an empty quoted word counts).
pub struct SplitState {
    pub words: Seq<Seq<char>>,
    pub word: Seq<char>,
    pub quote: Quote,
    pub escaped: bool,
    pub started: bool,
}

/// The splitter before any character.
pub open spec fn split_start() -> SplitState {
    SplitState { words: seq![], word: seq![], quote: Quote::Unquoted, escaped: false, started: false }
}

/// One character of a command, read the way a POSIX shell reads words but without expanding
/// anything: single quotes keep everything, double quotes let a backslash escape, and outside
/// quotes a backslash escapes and white space ends a word.
pub open spec fn split_step(state: SplitState, c: char) -> SplitState {
    if state.escaped {
        SplitState { word: state.word.push(c), escaped: false, started: true, ..state }
    } else {
        match state.quote {
            Quote::Single => if c == '\'' {
                SplitState { quote: Quote::Unquoted, started: true, ..state }
            } else {
                SplitState { word: state.word.push(c), started: true, ..state }
            },
            Quote::Double => if c == '"' {
                SplitState { quote: Quote::Unquoted, started: true, ..state }
            } else if c == '\\' {
                SplitState { escaped: true, started: true, ..state }
            } else {
                SplitState { word: state.word.push(c), started: true, ..state }
            },
            Quote::Unquoted => if c == '\'' {
                SplitState { quote: Quote::Single, started: true, ..state }
            } else if c == '"' {
                SplitState { quote: Quote::Double, started: true, ..state }
            } else if c == '\\' {
                SplitState { escaped: true, started: true, ..state }
            } else if is_white_space(c) {
                if state.started {
                    SplitState { words: state.words.push(state.word), word: seq![], started: false, ..state }
                } else {
                    state
                }
            } else {
                SplitState { word: state.word.push(c), started: true, ..state }
            },
        }
    }
}

/// The splitter after all of `chars`.
pub open spec fn split_run(chars: Seq<char>) -> SplitState
    decreases chars.len(),
{
    if chars.len() == 0 {
        split_start()
    } else {
        split_step(split_run(chars.drop_last()), chars.last())
    }
}

/// The words of `text`, or `None` where a quote is left open or a backslash ends it.
pub open spec fn split_words(text: Seq<char>) -> Option<Seq<Seq<char>>> {
    let state = split_run(text);
    if state.escaped || state.quote != Quote::Unquoted {
        None
    } else if state.started {
        Some(state.words.push(state.word))
    } else {
        Some(state.words)
    }
}

/// Splits an editor setting into words, without a shell.
pub fn split_command(value: &str) -> (words: Result<Vec<String>, EditorError>)
    ensures
        match words {
            Ok(words) => split_words(value@) == Some(texts_view(words@)),
            Err(error) => split_words(value@) is None && error == EditorError::Invalid,
        },
{
    let chars = chars_of(value);
    let mut words: Vec<String> = Vec::new();
    let mut word: Vec<char> = Vec::new();
    let mut quote = Quote::Unquoted;
    let mut escaped = false;
    let mut started = false;
    let mut i: usize = 0;
    proof {
        assert(value@.take(0) =~= Seq::<char>::empty());
        assert(texts_view(words@) =~= Seq::<Seq<char>>::empty());
        assert(word@ =~= Seq::<char>::empty());
    }
    while i < chars.len()
        invariant
            chars@ == value@,
            i <= chars@.len(),
            split_run(value@.take(i as int)) == (SplitState {
                words: texts_view(words@),
                word: word@,
                quote,
                escaped,
                started,
            }),
        decreases chars.len() - i,
    {
        let c = chars[i];
        proof {
            assert(value@.take(i + 1).drop_last() =~= value@.take(i as int));
            assert(value@.take(i + 1).last() == c);
        }
        if escaped {
            word.push(c);
            escaped = false;
            started = true;
        } else {
            match quote {
                Quote::Single => {
                    if c == '\'' {
                        quote = Quote::Unquoted;
                    } else {
                        word.push(c);
                    }
                    started = true;
                },
                Quote::Double => {
                    if c == '"' {
                        quote = Quote::Unquoted;
                    } else if c == '\\' {
                        escaped = true;
                    } else {
                        word.push(c);
                    }
                    started = true;
                },
                Quote::Unquoted => {
                    if c == '\'' {
                        quote = Quote::Single;
                        started = true;
                    } else if c == '"' {
                        quote = Quote::Double;
                        started = true;
                    } else if c == '\\' {
                        escaped = true;
                        started = true;
                    } else if white_space(c) {
                        if started {
                            let finished = string_from_chars(word.as_slice());
                            let ghost previous = words@;
                            words.push(finished);
                            proof {
                                assert(texts_view(words@) =~= texts_view(previous).push(word@));
                            }
                            word = Vec::new();
                            started = false;
                        }
                    } else {
                        word.push(c);
                        started = true;
                    }
                },
            }
        }
        i = i + 1;
    }
    proof {
        assert(value@.take(i as int) =~= value@);
    }
    if escaped || quote != Quote::Unquoted {
        return Err(EditorError::Invalid);
    }
    if started {
        let finished = string_from_chars(word.as_slice());
        let ghost previous = words@;
        words.push(finished);
        proof {
            assert(texts_view(words@) =~= texts_view(previous).push(word@));
        }
    }
    Ok(words)
}

/// The setting that chooses the editor: a non-blank `VISUAL`, else `EDITOR`. A `VISUAL` that
/// is not Unicode is refused rather than skipped.
pub open spec fn chosen_setting(
    visual: Option<EnvironmentValue>,
    editor: Option<EnvironmentValue>,
) -> Result<Option<EnvironmentValue>, EditorError> {
    match visual {
        Some(EnvironmentValue::NotUnicode) => Err(EditorError::Invalid),
        Some(EnvironmentValue::Text(text)) if !is_blank(text@) => Ok(
            Some(EnvironmentValue::Text(text)),
        ),
        _ => Ok(editor),
    }
}

/// What an editor setting asks for: unset or blank is no editor, a value that is not Unicode,
/// that does not split, or whose first word is empty is invalid.
pub open spec fn editor_command_of(setting: Option<EnvironmentValue>) -> Result<
    (Seq<char>, Seq<Seq<char>>),
    EditorError,
> {
    match setting {
        None => Err(EditorError::NotConfigured),
        Some(EnvironmentValue::NotUnicode) => Err(EditorError::Invalid),
        Some(EnvironmentValue::Text(text)) => if is_blank(text@) {
            Err(EditorError::NotConfigured)
        } else {
            match split_words(text@) {
                None => Err(EditorError::Invalid),
                Some(words) => if words.len() == 0 || words[0].len() == 0 {
                    Err(EditorError::Invalid)
                } else {
                    Ok((words[0], words.drop_first()))
                },
            }
        },
    }
}

/// The editor command from the values of `VISUAL` and `EDITOR`.
pub fn resolve_editor(visual: Option<EnvironmentValue>, editor: Option<EnvironmentValue>) -> (command:
    Result<EditorCommand, EditorError>)
    ensures
        match chosen_setting(visual, editor) {
            Err(error) => command == Err::<EditorCommand, EditorError>(error),
            Ok(setting) => match editor_command_of(setting) {
                Err(error) => command == Err::<EditorCommand, EditorError>(error),
                Ok((program, args)) => command matches Ok(chosen) && chosen.program@ == program
                    && texts_view(chosen.args@) == args,
            },
        },
{
    let setting = match visual {
        Some(EnvironmentValue::NotUnicode) => return Err(EditorError::Invalid),
        Some(EnvironmentValue::Text(text)) => if !blank(text.as_str()) {
            Some(EnvironmentValue::Text(text))
        } else {
            editor
        },
        None => editor,
    };
    let value = match setting {
        None => return Err(EditorError::NotConfigured),
        Some(EnvironmentValue::NotUnicode) => return Err(EditorError::Invalid),
        Some(EnvironmentValue::Text(value)) => value,
    };
    if blank(value.as_str()) {
        return Err(EditorError::NotConfigured);
    }
    let mut words = split_command(value.as_str())?;
    if words.len() == 0 || words[0].as_str().is_empty() {
        proof {
            if words@.len() > 0 {
                assert(texts_view(words@)[0] == words@[0]@);
            }
        }
        return Err(EditorError::Invalid);
    }
    let ghost all = texts_view(words@);
    let program = words.remove(0);
    proof {
        assert(texts_view(words@) =~= all.drop_first());
    }
    Ok(EditorCommand { program, args: words })
}

/// Runs the editor on a draft file.
pub trait EditorProcess {
    /// The commands run through this value so far, in order, each with what the run returned.
    closed spec fn runs(&self) -> Seq<(EditorCommand, Result<bool, EditorError>)> {
        Seq::empty()
    }

    /// Runs `command` with `draft_path` appended; whether it exited successfully.
    fn run(&mut self, command: &EditorCommand, draft_path: &std::path::Path) -> (result: Result<
        bool,
        EditorError,
    >)
        ensures
            final(self).runs() == old(self).runs().push((*command, result));
}

/// One call made on a store of temporary draft files: a creation with the body asked for and,
/// where it failed, why; a read with what it returned; a cleanup.
pub enum FileCall {
    Create(Seq<char>, Option<EditorError>),
    Read(Result<String, EditorError>),
    Cleanup,
}

/// Private temporary draft files.
pub trait EditorTempFiles {
    /// The calls made on this value so far, in order.
    closed spec fn file_calls(&self) -> Seq<FileCall> {
        Seq::empty()
    }

    /// A new private file that holds `body` and a final newline.
    fn create(&mut self, body: &str) -> (result: Result<std::path::PathBuf, EditorError>)
        ensures
            final(self).file_calls() == old(self).file_calls().push(
                FileCall::Create(
                    body@,
                    match result {
                        Ok(_) => None,
                        Err(error) => Some(error),
                    },
                ),
            );

    /// What the file at `path` holds, without one final newline.
    fn read(&mut self, path: &std::path::Path) -> (result: Result<String, EditorError>)
        ensures
            final(self).file_calls() == old(self).file_calls().push(FileCall::Read(result));

    /// Removes the file at `path` and its private directory.
    fn cleanup(&mut self, path: &std::path::Path) -> (result: Result<(), EditorError>)
        ensures
            final(self).file_calls() == old(self).file_calls().push(FileCall::Cleanup);
}

/// What an external edit did to a draft.
#[derive(Clone, Debug, PartialEq, Eq)]
pub enum EditorOutcome {
    Replaced(String),
    Unchanged,
    Failed(EditorError),
}

/// An external edit's outcome, how taking the terminal back went, and whether the terminal was
/// given up at all.
#[derive(Debug)]
pub struct EditorRunResult {
    pub outcome: EditorOutcome,
    pub resume: std::io::Result<()>,
    pub terminal_touched: bool,
}

/// What an editor run decides before its file is read (see `run_outcome`).
pub open spec fn run_gives(run: Result<bool, EditorError>, outcome: Option<EditorOutcome>) -> bool {
    match run {
        Ok(true) => outcome is None,
        Ok(false) => outcome == Some(EditorOutcome::Unchanged),
        Err(error) => outcome == Some(EditorOutcome::Failed(error)),
    }
}

/// What reading the edited file gives (see `read_outcome`).
pub open spec fn read_gives(read: Result<String, EditorError>, outcome: EditorOutcome) -> bool {
    match read {
        Ok(body) => if is_blank(body@) {
            outcome == EditorOutcome::Unchanged
        } else {
            outcome matches EditorOutcome::Replaced(text) && text@ == body@
        },
        Err(error) => outcome == EditorOutcome::Failed(error),
    }
}

/// What an editor run decides before its file is read: nothing yet after a successful exit
/// (the file decides), the draft unchanged after an unsuccessful one, the failure where the
/// editor could not run.
pub fn run_outcome(run: Result<bool, EditorError>) -> (outcome: Option<EditorOutcome>)
    ensures
        run_gives(run, outcome),
{
    match run {
        Ok(true) => None,
        Ok(false) => Some(EditorOutcome::Unchanged),
        Err(error) => Some(EditorOutcome::Failed(error)),
    }
}

/// What the edited file gives: its text where it holds more than white space, else the draft
/// unchanged; a failure to read it stays that failure.
pub fn read_outcome(read: Result<String, EditorError>) -> (outcome: EditorOutcome)
    ensures
        read_gives(read, outcome),
{
    match read {
        Ok(body) => if blank(body.as_str()) {
            EditorOutcome::Unchanged
        } else {
            EditorOutcome::Replaced(body)
        },
        Err(error) => EditorOutcome::Failed(error),
    }
}

/// How an external edit of `body` with `command` went, from what it did to the temporary files
/// (`files_before` to `files_after`), the editor process (`runs_before` to `runs_after`) and the
/// terminal (`switches_before` to `switches_after`), and what it returned. The file is created
/// with `body` first. Where that fails, nothing else is asked and the edit fails with that error,
/// the terminal untouched. Otherwise the terminal is given up once; where that fails, the file is
/// removed, the terminal taken back and the edit fails with `Terminal`. Otherwise the editor runs
/// once with `command`; where its run decides (`run_gives`) that is the outcome, else the file is
/// read once and what it held decides (`read_gives`); either way the file is then removed,
/// whatever that returned, and the terminal taken back once. `resume` succeeded exactly when that
/// taking back did.
pub open spec fn edit_went(
    body: Seq<char>,
    command: EditorCommand,
    files_before: Seq<FileCall>,
    files_after: Seq<FileCall>,
    runs_before: Seq<(EditorCommand, Result<bool, EditorError>)>,
    runs_after: Seq<(EditorCommand, Result<bool, EditorError>)>,
    switches_before: Seq<(bool, bool)>,
    switches_after: Seq<(bool, bool)>,
    result: EditorRunResult,
) -> bool {
    let created = if files_after.len() > files_before.len() {
        files_after[files_before.len() as int]
    } else {
        FileCall::Cleanup
    };
    match created {
        FileCall::Create(_, Some(error)) => {
            &&& files_after == files_before.push(FileCall::Create(body, Some(error)))
            &&& runs_after == runs_before
            &&& switches_after == switches_before
            &&& result.outcome == EditorOutcome::Failed(error)
            &&& result.resume is Ok
            &&& !result.terminal_touched
        },
        _ => {
        &&& result.terminal_touched
        &&& switches_after.len() == switches_before.len() + 2
        &&& switches_after[switches_before.len() + 1int] == (false, result.resume is Ok)
        &&& if !switches_after[switches_before.len() as int].1 {
            &&& switches_after == switches_before.push((true, false)).push((false, result.resume is Ok))
            &&& files_after == files_before.push(FileCall::Create(body, None)).push(FileCall::Cleanup)
            &&& runs_after == runs_before
            &&& result.outcome == EditorOutcome::Failed(EditorError::Terminal)
        } else {
            &&& switches_after == switches_before.push((true, true)).push((false, result.resume is Ok))
            &&& runs_after.len() == runs_before.len() + 1
            &&& runs_after == runs_before.push((command, runs_after.last().1))
            &&& if runs_after.last().1 == Ok::<bool, EditorError>(true) {
                &&& files_after.len() == files_before.len() + 3
                &&& files_after[files_before.len() + 1int] matches FileCall::Read(read)
                &&& files_after == files_before.push(FileCall::Create(body, None)).push(FileCall::Read(read)).push(FileCall::Cleanup)
                &&& read_gives(read, result.outcome)
            } else {
                &&& files_after == files_before.push(FileCall::Create(body, None)).push(FileCall::Cleanup)
                &&& run_gives(runs_after.last().1, Some(result.outcome))
            }
        }
        },
    }
}

/// Edits `body` in the external editor: writes it to a private file, gives the terminal up, runs
/// the editor, reads the file back, removes it (best effort), and takes the terminal back (see
/// `edit_went`).
pub fn edit_draft<T: TerminalSuspend + ?Sized, P: EditorProcess + ?Sized, F: EditorTempFiles + ?Sized>(
    body: &str,
    command: &EditorCommand,
    terminal: &mut T,
    process: &mut P,
    temp_files: &mut F,
) -> (result: EditorRunResult)
    ensures
        edit_went(
            body@,
            *command,
            old(temp_files).file_calls(),
            final(temp_files).file_calls(),
            old(process).runs(),
            final(process).runs(),
            old(terminal).switches(),
            final(terminal).switches(),
            result,
        ),
        !result.terminal_touched ==> result.outcome is Failed && result.resume is Ok,
        result.outcome matches EditorOutcome::Replaced(text) ==> !is_blank(text@),
{
    let ghost files_before = temp_files.file_calls();
    let ghost runs_before = process.runs();
    let ghost switches_before = terminal.switches();
    let path = match temp_files.create(body) {
        Ok(path) => path,
        Err(error) => {
            let result = EditorRunResult {
                outcome: EditorOutcome::Failed(error),
                resume: Ok(()),
                terminal_touched: false,
            };
            return result;
        },
    };
    let suspended = terminal.suspend();
    if suspended.is_err() {
        let _ = temp_files.cleanup(path.as_path());
        let resume = terminal.resume();
        let result = EditorRunResult {
            outcome: EditorOutcome::Failed(EditorError::Terminal),
            resume,
            terminal_touched: true,
        };
        proof {
            assert(temp_files.file_calls().len() == files_before.len() + 2);
        }
        return result;
    }
    let ran = process.run(command, path.as_path());
    let outcome = match run_outcome(ran) {
        Some(outcome) => outcome,
        None => {
            let read = temp_files.read(path.as_path());
            read_outcome(read)
        },
    };
    let _ = temp_files.cleanup(path.as_path());
    let resume = terminal.resume();
    let result = EditorRunResult { outcome, resume, terminal_touched: true };
    proof {
        assert(switches_before.len() + 2 == terminal.switches().len());
    }
    result
}

/// `PathBuf::as_path`: the borrowed path. Nothing is stated of it: paths are opaque here.
pub assume_specification[ std::path::PathBuf::as_path ](path: &std::path::PathBuf) -> &std::path::Path;

/// The number of bytes that `c` takes in UTF-8.
pub open spec fn utf8_width(c: char) -> nat {
    if (c as int) < 0x80 {
        1
    } else if (c as int) < 0x800 {
        2
    } else if (c as int) < 0x10000 {
        3
    } else {
        4
    }
}

/// The number of bytes that `text` takes in UTF-8.
pub open spec fn utf8_length(text: Seq<char>) -> nat
    decreases text.len(),
{
    if text.len() == 0 {
        0
    } else {
        utf8_length(text.drop_last()) + utf8_width(text.last())
    }
}

fn char_width(c: char) -> (width: u64)
    ensures
        width == utf8_width(c),
{
    let code = c as u32;
    if code < 0x80 {
        1
    } else if code < 0x800 {
        2
    } else if code < 0x10000 {
        3
    } else {
        4
    }
}

/// Whether a draft can be handed to the editor: fewer than `MAX_EDITOR_BYTES` bytes of UTF-8 and
/// at most `max_characters` characters; otherwise it is too large.
pub fn check_draft_size(body: &str, max_characters: usize) -> (fits: Result<(), EditorError>)
    ensures
        fits is Ok <==> (utf8_length(body@) < MAX_EDITOR_BYTES && body@.len() <= max_characters),
        fits is Err ==> fits == Err::<(), EditorError>(EditorError::TooLarge),
{
    let chars = chars_of(body);
    let mut bytes: u64 = 0;
    let mut i: usize = 0;
    while i < chars.len()
        invariant
            chars@ == body@,
            i <= chars@.len(),
            bytes == utf8_length(body@.take(i as int)),
            bytes < MAX_EDITOR_BYTES,
        decreases chars.len() - i,
    {
        proof {
            assert(body@.take(i + 1).drop_last() =~= body@.take(i as int));
        }
        bytes = bytes + char_width(chars[i]);
        if bytes >= MAX_EDITOR_BYTES {
            proof {
                lemma_utf8_length_prefix(body@, i + 1);
            }
            return Err(EditorError::TooLarge);
        }
        i = i + 1;
    }
    proof {
        assert(body@.take(i as int) =~= body@);
    }
    if chars.len() > max_characters {
        return Err(EditorError::TooLarge);
    }
    Ok(())
}

/// A prefix takes no more bytes than the whole.
proof fn lemma_utf8_length_prefix(text: Seq<char>, k: int)
    requires
        0 <= k <= text.len(),
    ensures
        utf8_length(text.take(k)) <= utf8_length(text),
    decreases text.len() - k,
{
    if k < text.len() {
        lemma_utf8_length_prefix(text, k + 1);
        assert(text.take(k + 1).drop_last() =~= text.take(k));
    } else {
        assert(text.take(k) =~= text);
    }
}

/// What `String::from_utf8` gives for `bytes`: the text they encode, if they are valid UTF-8.
pub uninterp spec fn utf8_text(bytes: Seq<u8>) -> Option<Seq<char>>;

/// `String::from_utf8`: the text that `bytes` encode as UTF-8, if they do.
#[verifier::external_body]
fn decode_utf8(bytes: Vec<u8>) -> (text: Option<String>)
    ensures
        match text {
            Some(text) => utf8_text(bytes@) == Some(text@),
            None => utf8_text(bytes@) is None,
        },
{
    String::from_utf8(bytes).ok()
}

/// The draft that an edited file holds, without one final newline: too large above
/// `MAX_EDITOR_BYTES` bytes or `max_characters` characters, undecodable unless UTF-8.
pub fn draft_from_file(bytes: Vec<u8>, max_characters: usize) -> (draft: Result<String, EditorError>)
    ensures
        bytes@.len() > MAX_EDITOR_BYTES ==> draft == Err::<String, EditorError>(EditorError::TooLarge),
        bytes@.len() <= MAX_EDITOR_BYTES ==> match utf8_text(bytes@) {
            None => draft == Err::<String, EditorError>(EditorError::Decode),
            Some(text) => {
                let body = if text.len() > 0 && text.last() == '\n' { text.drop_last() } else { text };
                if body.len() <= max_characters {
                    draft matches Ok(kept) && kept@ == body
                } else {
                    draft == Err::<String, EditorError>(EditorError::TooLarge)
                }
            },
        },
{
    if bytes.len() as u64 > MAX_EDITOR_BYTES {
        return Err(EditorError::TooLarge);
    }
    let mut body = match decode_utf8(bytes) {
        None => return Err(EditorError::Decode),
        Some(text) => text,
    };
    let chars = chars_of(body.as_str());
    if chars.len() > 0 && chars[chars.len() - 1] == '\n' {
        body.pop();
    }
    let characters = chars_of(body.as_str()).len();
    if characters > max_characters {
        return Err(EditorError::TooLarge);
    }
    Ok(body)
}

} // verus!
