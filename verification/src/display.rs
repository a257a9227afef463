use vstd::prelude::*;

use crate::live::LivePhase;
use crate::loading::{FailureCategory, FailureScope, LoadFailure};
use crate::pane::{pane_title, Mode, Pane};
use crate::text::{chars_of, decimal, decimal_string, push_text, string_from_chars, texts_view};

verus! {

/// Whether `c` is a control character (Unicode category Cc): U+0000 to U+001F and U+007F to
/// U+009F, as `char::is_control` tests.
pub open spec fn is_control(c: char) -> bool {
    (c as int) <= 0x1F || (0x7F <= (c as int) && (c as int) <= 0x9F)
}

/// How one character is shown: a tab as four spaces, another control character as U+FFFD, any
/// other character as itself.
pub open spec fn shown_char(c: char) -> Seq<char> {
    if c == '\t' {
        seq![' ', ' ', ' ', ' ']
    } else if is_control(c) {
        seq!['\u{FFFD}']
    } else {
        seq![c]
    }
}

/// How the characters of `text` are shown, one after the other.
pub open spec fn shown_chars(text: Seq<char>) -> Seq<char>
    decreases text.len(),
{
    if text.len() == 0 {
        seq![]
    } else {
        shown_chars(text.drop_last()) + shown_char(text.last())
    }
}

/// How a text from outside is shown: without one final carriage return, its characters as
/// `shown_char` says, so that nothing in it can move the cursor or change the terminal.
pub open spec fn display_text(text: Seq<char>) -> Seq<char> {
    if text.len() > 0 && text.last() == '\r' {
        shown_chars(text.drop_last())
    } else {
        shown_chars(text)
    }
}

fn control(c: char) -> (is: bool)
    ensures
        is == is_control(c),
{
    let code = c as u32;
    code <= 0x1F || (0x7F <= code && code <= 0x9F)
}

/// See `display_text`.
pub fn sanitize_display_text(value: &str) -> (shown: String)
    ensures
        shown@ == display_text(value@),
{
    let chars = chars_of(value);
    let end = if chars.len() > 0 && chars[chars.len() - 1] == '\r' {
        chars.len() - 1
    } else {
        chars.len()
    };
    let ghost text = if end < chars@.len() { value@.drop_last() } else { value@ };
    let mut shown: Vec<char> = Vec::new();
    let mut i: usize = 0;
    while i < end
        invariant
            chars@ == value@,
            end <= chars@.len(),
            text == value@.take(end as int),
            i <= end,
            shown@ == shown_chars(text.take(i as int)),
        decreases end - i,
    {
        let c = chars[i];
        proof {
            assert(text.take(i + 1).drop_last() =~= text.take(i as int));
            assert(text.take(i + 1).last() == c);
        }
        if c == '\t' {
            shown.push(' ');
            shown.push(' ');
            shown.push(' ');
            shown.push(' ');
        } else if control(c) {
            shown.push('\u{FFFD}');
        } else {
            shown.push(c);
        }
        proof {
            assert(shown@ =~= shown_chars(text.take(i + 1)));
        }
        i = i + 1;
    }
    proof {
        assert(text.take(i as int) =~= text);
        if end < chars@.len() {
            assert(value@.take(end as int) =~= value@.drop_last());
        } else {
            assert(value@.take(end as int) =~= value@);
        }
    }
    string_from_chars(shown.as_slice())
}

/// What a failure category is called where the load failed as a whole.
pub open spec fn category_label(category: FailureCategory) -> Seq<char> {
    match category {
        FailureCategory::Authentication => "authentication failed"@,
        FailureCategory::MissingGh => "GitHub CLI not found"@,
        FailureCategory::PermissionOrNotFound => "permission denied or resource unavailable"@,
        FailureCategory::RateLimit => "GitHub API rate limit reached"@,
        FailureCategory::MalformedResponse => "unreadable GitHub response"@,
        FailureCategory::MalformedJson => "malformed GitHub JSON"@,
        FailureCategory::Offline => "offline"@,
        FailureCategory::Transport => "GitHub transport failure"@,
        FailureCategory::Command => "GitHub CLI request failure"@,
        FailureCategory::Api => "GitHub API failure"@,
        FailureCategory::Cancelled => "loading cancelled"@,
    }
}

/// See `category_label`.
pub fn failure_category_label(category: FailureCategory) -> (label: &'static str)
    ensures
        label@ == category_label(category),
{
    match category {
        FailureCategory::Authentication => "authentication failed",
        FailureCategory::MissingGh => "GitHub CLI not found",
        FailureCategory::PermissionOrNotFound => "permission denied or resource unavailable",
        FailureCategory::RateLimit => "GitHub API rate limit reached",
        FailureCategory::MalformedResponse => "unreadable GitHub response",
        FailureCategory::MalformedJson => "malformed GitHub JSON",
        FailureCategory::Offline => "offline",
        FailureCategory::Transport => "GitHub transport failure",
        FailureCategory::Command => "GitHub CLI request failure",
        FailureCategory::Api => "GitHub API failure",
        FailureCategory::Cancelled => "loading cancelled",
    }
}

/// What went wrong, in a sentence, for the error summary.
pub open spec fn category_sentence(category: FailureCategory) -> Seq<char> {
    match category {
        FailureCategory::Authentication => "gh is not authenticated"@,
        FailureCategory::MissingGh => "the gh executable was not found"@,
        FailureCategory::PermissionOrNotFound => "access was denied or the resource was not found"@,
        FailureCategory::RateLimit => "the GitHub API rate limit was reached"@,
        FailureCategory::MalformedResponse => "the GitHub response could not be read"@,
        FailureCategory::MalformedJson => "the GitHub response was not valid JSON"@,
        FailureCategory::Offline => "the network is unavailable"@,
        FailureCategory::Transport => "the connection to GitHub failed"@,
        FailureCategory::Command => "a gh request failed"@,
        FailureCategory::Api => "the GitHub API reported an error"@,
        FailureCategory::Cancelled => "loading was cancelled"@,
    }
}

fn category_sentence_text(category: FailureCategory) -> (sentence: &'static str)
    ensures
        sentence@ == category_sentence(category),
{
    match category {
        FailureCategory::Authentication => "gh is not authenticated",
        FailureCategory::MissingGh => "the gh executable was not found",
        FailureCategory::PermissionOrNotFound => "access was denied or the resource was not found",
        FailureCategory::RateLimit => "the GitHub API rate limit was reached",
        FailureCategory::MalformedResponse => "the GitHub response could not be read",
        FailureCategory::MalformedJson => "the GitHub response was not valid JSON",
        FailureCategory::Offline => "the network is unavailable",
        FailureCategory::Transport => "the connection to GitHub failed",
        FailureCategory::Command => "a gh request failed",
        FailureCategory::Api => "the GitHub API reported an error",
        FailureCategory::Cancelled => "loading was cancelled",
    }
}

/// The count of the item at `index`, counting from one (the last index that fits stays as it
/// is).
pub open spec fn counted(index: usize) -> nat {
    if index < u64::MAX {
        index as nat + 1
    } else {
        index as nat
    }
}

/// Where a failure happened, counting repositories and branches from one.
pub open spec fn scope_text(scope: FailureScope) -> Seq<char> {
    match scope {
        FailureScope::Authentication => "authentication"@,
        FailureScope::Discovery => "repository discovery"@,
        FailureScope::Repository { repository_index } => "repository "@ + decimal(
            counted(repository_index),
        ),
        FailureScope::Branch { repository_index, branch_index } => "repository "@ + decimal(
            counted(repository_index),
        ) + ", branch "@ + decimal(counted(branch_index)),
    }
}

/// A failure in the error summary: where, what, and the HTTP status when there is one.
pub open spec fn failure_line(failure: LoadFailure) -> Seq<char> {
    scope_text(failure.scope) + ": "@ + category_sentence(failure.category) + match failure.http_status {
        Some(status) => " (HTTP "@ + decimal(status as nat) + ")"@,
        None => seq![],
    }
}

fn count_text(index: usize) -> (text: String)
    ensures
        text@ == decimal(counted(index)),
{
    let value = index as u64;
    if value < u64::MAX {
        decimal_string(value + 1)
    } else {
        decimal_string(value)
    }
}

/// See `failure_line`.
pub fn failure_text(failure: &LoadFailure) -> (text: String)
    ensures
        text@ == failure_line(*failure),
{
    let mut text = String::new();
    match failure.scope {
        FailureScope::Authentication => push_text(&mut text, "authentication"),
        FailureScope::Discovery => push_text(&mut text, "repository discovery"),
        FailureScope::Repository { repository_index } => {
            push_text(&mut text, "repository ");
            push_text(&mut text, count_text(repository_index).as_str());
        },
        FailureScope::Branch { repository_index, branch_index } => {
            push_text(&mut text, "repository ");
            push_text(&mut text, count_text(repository_index).as_str());
            push_text(&mut text, ", branch ");
            push_text(&mut text, count_text(branch_index).as_str());
        },
    }
    push_text(&mut text, ": ");
    push_text(&mut text, category_sentence_text(failure.category));
    if let Some(status) = failure.http_status {
        push_text(&mut text, " (HTTP ");
        push_text(&mut text, decimal_string(status as u64).as_str());
        push_text(&mut text, ")");
    }
    text
}

/// The line that says how far loading has come, or how it ended; a fatal end names the first
/// failure's category.
pub open spec fn phase_line(phase: LivePhase, first_failure: Option<FailureCategory>) -> Seq<char> {
    match phase {
        LivePhase::Authenticating => "Loading: checking gh authentication"@,
        LivePhase::Discovering { page, owned_repositories } => "Discovering repositories: page "@
            + decimal(page as nat) + ", "@ + decimal(owned_repositories as nat) + " owned found"@,
        LivePhase::LoadingRepository { repository, total } => "Loading repository "@ + decimal(
            repository as nat,
        ) + "/"@ + decimal(total as nat),
        LivePhase::LoadingBranches { repository, page, branches } =>
            "Discovering branches: repository "@ + decimal(repository as nat) + ", page "@
                + decimal(page as nat) + ", "@ + decimal(branches as nat) + " found"@,
        LivePhase::LoadingCommits { repository, branch, branches, page, accepted_commits } =>
            "Loading commits: repository "@ + decimal(repository as nat) + ", branch "@ + decimal(
                branch as nat,
            ) + "/"@ + decimal(branches as nat) + ", page "@ + decimal(
                if page < 1 { 1 } else { page as nat },
            ) + ", "@ + decimal(accepted_commits as nat) + " accepted"@,
        LivePhase::Complete => "COMPLETE — daily inbox loaded"@,
        LivePhase::EmptyDay => "EMPTY DAY — no matching commits"@,
        LivePhase::NoOwnedRepositories => "NO OWNED REPOSITORIES — nothing available to scan"@,
        LivePhase::Incomplete => "INCOMPLETE RESULTS — partial data remains usable"@,
        LivePhase::Fatal => "LOAD FAILED — "@ + match first_failure {
            Some(category) => category_label(category),
            None => "unknown GitHub failure"@,
        },
    }
}

/// The progress lines name their counts in reading order: the current item before the total,
/// the page before the count found, so that for instance the second of five repositories reads
/// "Loading repository 2/5"; and the end of a load is named by its outcome alone.
pub proof fn law_phase_lines_read_in_order(
    repository: usize,
    total: usize,
    page: usize,
    count: usize,
    branch: usize,
    accepted: usize,
    first_failure: Option<FailureCategory>,
)
    ensures
        phase_line(LivePhase::LoadingRepository { repository, total }, first_failure)
            == "Loading repository "@ + decimal(repository as nat) + "/"@ + decimal(total as nat),
        phase_line(LivePhase::Discovering { page, owned_repositories: count }, first_failure)
            == "Discovering repositories: page "@ + decimal(page as nat) + ", "@ + decimal(count as nat)
            + " owned found"@,
        phase_line(LivePhase::LoadingBranches { repository, page, branches: count }, first_failure)
            == "Discovering branches: repository "@ + decimal(repository as nat) + ", page "@
            + decimal(page as nat) + ", "@ + decimal(count as nat) + " found"@,
        phase_line(
            LivePhase::LoadingCommits { repository, branch, branches: total, page, accepted_commits: accepted },
            first_failure,
        ) == "Loading commits: repository "@ + decimal(repository as nat) + ", branch "@ + decimal(
            branch as nat,
        ) + "/"@ + decimal(total as nat) + ", page "@ + decimal(if page == 0 { 1 } else { page as nat })
            + ", "@ + decimal(accepted as nat) + " accepted"@,
        phase_line(LivePhase::Complete, first_failure) == "COMPLETE — daily inbox loaded"@,
        phase_line(LivePhase::EmptyDay, first_failure) == "EMPTY DAY — no matching commits"@,
        phase_line(LivePhase::NoOwnedRepositories, first_failure)
            == "NO OWNED REPOSITORIES — nothing available to scan"@,
        phase_line(LivePhase::Incomplete, first_failure)
            == "INCOMPLETE RESULTS — partial data remains usable"@,
{
}

fn number(value: usize) -> (text: String)
    ensures
        text@ == decimal(value as nat),
{
    decimal_string(value as u64)
}

/// See `phase_line`.
pub fn phase_text(phase: LivePhase, first_failure: Option<FailureCategory>) -> (text: String)
    ensures
        text@ == phase_line(phase, first_failure),
{
    let mut text = String::new();
    match phase {
        LivePhase::Authenticating => push_text(&mut text, "Loading: checking gh authentication"),
        LivePhase::Discovering { page, owned_repositories } => {
            push_text(&mut text, "Discovering repositories: page ");
            push_text(&mut text, number(page).as_str());
            push_text(&mut text, ", ");
            push_text(&mut text, number(owned_repositories).as_str());
            push_text(&mut text, " owned found");
        },
        LivePhase::LoadingRepository { repository, total } => {
            push_text(&mut text, "Loading repository ");
            push_text(&mut text, number(repository).as_str());
            push_text(&mut text, "/");
            push_text(&mut text, number(total).as_str());
        },
        LivePhase::LoadingBranches { repository, page, branches } => {
            push_text(&mut text, "Discovering branches: repository ");
            push_text(&mut text, number(repository).as_str());
            push_text(&mut text, ", page ");
            push_text(&mut text, number(page).as_str());
            push_text(&mut text, ", ");
            push_text(&mut text, number(branches).as_str());
            push_text(&mut text, " found");
        },
        LivePhase::LoadingCommits { repository, branch, branches, page, accepted_commits } => {
            push_text(&mut text, "Loading commits: repository ");
            push_text(&mut text, number(repository).as_str());
            push_text(&mut text, ", branch ");
            push_text(&mut text, number(branch).as_str());
            push_text(&mut text, "/");
            push_text(&mut text, number(branches).as_str());
            push_text(&mut text, ", page ");
            push_text(&mut text, number(if page < 1 { 1 } else { page }).as_str());
            push_text(&mut text, ", ");
            push_text(&mut text, number(accepted_commits).as_str());
            push_text(&mut text, " accepted");
        },
        LivePhase::Complete => push_text(&mut text, "COMPLETE — daily inbox loaded"),
        LivePhase::EmptyDay => push_text(&mut text, "EMPTY DAY — no matching commits"),
        LivePhase::NoOwnedRepositories => push_text(
            &mut text,
            "NO OWNED REPOSITORIES — nothing available to scan",
        ),
        LivePhase::Incomplete => push_text(
            &mut text,
            "INCOMPLETE RESULTS — partial data remains usable",
        ),
        LivePhase::Fatal => {
            push_text(&mut text, "LOAD FAILED — ");
            match first_failure {
                Some(category) => push_text(&mut text, failure_category_label(category)),
                None => push_text(&mut text, "unknown GitHub failure"),
            }
        },
    }
    text
}

/// The badge of the status line: the mode, with a pending `g` shown in normal mode.
pub open spec fn mode_badge_of(mode: Mode, pending_g: bool) -> Seq<char> {
    match mode {
        Mode::Normal => if pending_g {
            " NORMAL g "@
        } else {
            " NORMAL "@
        },
        Mode::SearchEntry { .. } => " SEARCH "@,
        Mode::Help { .. } => " HELP "@,
    }
}

/// See `mode_badge_of`.
pub fn mode_badge(mode: Mode, pending_g: bool) -> (badge: &'static str)
    ensures
        badge@ == mode_badge_of(mode, pending_g),
{
    match mode {
        Mode::Normal => if pending_g {
            " NORMAL g "
        } else {
            " NORMAL "
        },
        Mode::SearchEntry { .. } => " SEARCH ",
        Mode::Help { .. } => " HELP ",
    }
}

/// The rest of the status line: the focused pane, the status message, and the main keys.
pub open spec fn status_hint(focus: Pane, status: Seq<char>) -> Seq<char> {
    " "@ + pane_title(focus) + " • "@ + status
        + " • h/l focus • j/k move • / search • ? help • q quit"@
}

/// See `status_hint`.
pub fn status_text(focus: Pane, status: &str) -> (text: String)
    ensures
        text@ == status_hint(focus, status@),
{
    let mut text = String::new();
    push_text(&mut text, " ");
    push_text(&mut text, focus.title());
    push_text(&mut text, " • ");
    push_text(&mut text, status);
    push_text(&mut text, " • h/l focus • j/k move • / search • ? help • q quit");
    text
}

/// The title of a pane's frame: its name and the selected position out of the length.
pub open spec fn pane_frame_title(pane: Pane, position: usize, length: usize) -> Seq<char> {
    " "@ + pane_title(pane) + " "@ + decimal(position as nat) + "/"@ + decimal(length as nat)
        + " "@
}

/// See `pane_frame_title`.
pub fn pane_frame_text(pane: Pane, position: usize, length: usize) -> (title: String)
    ensures
        title@ == pane_frame_title(pane, position, length),
{
    let mut title = String::new();
    push_text(&mut title, " ");
    push_text(&mut title, pane.title());
    push_text(&mut title, " ");
    push_text(&mut title, number(position).as_str());
    push_text(&mut title, "/");
    push_text(&mut title, number(length).as_str());
    push_text(&mut title, " ");
    title
}

/// A row of a list pane: the selected one behind "> ", the others indented as far.
pub open spec fn list_row_of(label: Seq<char>, selected: bool) -> Seq<char> {
    if selected {
        "> "@ + label
    } else {
        "  "@ + label
    }
}

/// See `list_row_of`.
pub fn list_row(label: &str, selected: bool) -> (row: String)
    ensures
        row@ == list_row_of(label@, selected),
{
    let mut row = String::new();
    if selected {
        push_text(&mut row, "> ");
    } else {
        push_text(&mut row, "  ");
    }
    push_text(&mut row, label);
    row
}

/// The line number in front of a diff row: `index + 1`, right-aligned in four columns, and a
/// space.
pub open spec fn diff_number_of(index: usize) -> Seq<char> {
    let digits = decimal(index as nat + 1);
    if digits.len() < 4 {
        Seq::new((4 - digits.len()) as nat, |i: int| ' ') + digits + seq![' ']
    } else {
        digits + seq![' ']
    }
}

/// See `diff_number_of`.
pub fn diff_number(index: usize) -> (text: String)
    requires
        index < usize::MAX,
    ensures
        text@ == diff_number_of(index),
{
    let digits = crate::text::decimal_chars(index as u64 + 1);
    let mut chars: Vec<char> = Vec::new();
    if digits.len() < 4 {
        let pad = 4 - digits.len();
        let mut i: usize = 0;
        while i < pad
            invariant
                i <= pad,
                chars@ == Seq::new(i as nat, |k: int| ' '),
            decreases pad - i,
        {
            chars.push(' ');
            proof {
                assert(chars@ =~= Seq::new((i + 1) as nat, |k: int| ' '));
            }
            i = i + 1;
        }
    }
    let ghost prefix = chars@;
    let mut i: usize = 0;
    while i < digits.len()
        invariant
            i <= digits@.len(),
            chars@ == prefix + digits@.take(i as int),
        decreases digits.len() - i,
    {
        chars.push(digits[i]);
        proof {
            assert(digits@.take(i + 1) =~= digits@.take(i as int).push(digits@[i as int]));
        }
        i = i + 1;
    }
    chars.push(' ');
    proof {
        assert(digits@.take(i as int) =~= digits@);
        assert(chars@ =~= diff_number_of(index));
    }
    string_from_chars(chars.as_slice())
}

/// A rectangle of the terminal.
#[derive(Clone, Copy, Debug, PartialEq, Eq, Structural)]
pub struct Area {
    pub x: u16,
    pub y: u16,
    pub width: u16,
    pub height: u16,
}

/// A box of at most `width` by `height` centred in `area`: no larger than the area, and, where
/// the area is too small, as large as it.
pub open spec fn centered_in(area: Area, width: u16, height: u16) -> Area {
    let w = if width <= area.width { width } else { area.width };
    let h = if height <= area.height { height } else { area.height };
    let x = area.x + (area.width - w) / 2;
    let y = area.y + (area.height - h) / 2;
    Area {
        x: (if x <= u16::MAX { x } else { u16::MAX as int }) as u16,
        y: (if y <= u16::MAX { y } else { u16::MAX as int }) as u16,
        width: w,
        height: h,
    }
}

/// See `centered_in`.
pub fn centered_rect(area: Area, width: u16, height: u16) -> (centered: Area)
    ensures
        centered == centered_in(area, width, height),
        centered.width <= area.width,
        centered.height <= area.height,
{
    let w = if width <= area.width { width } else { area.width };
    let h = if height <= area.height { height } else { area.height };
    let x = area.x.saturating_add((area.width - w) / 2);
    let y = area.y.saturating_add((area.height - h) / 2);
    Area { x, y, width: w, height: h }
}

/// What `unicode_width::UnicodeWidthChar::width` gives for `c`: its column count, none for a
/// control character.
pub uninterp spec fn unicode_width_of(c: char) -> Option<usize>;

/// `unicode_width::UnicodeWidthChar::width`.
#[verifier::external_body]
fn char_columns(c: char) -> (width: Option<usize>)
    ensures
        width == unicode_width_of(c),
{
    unicode_width::UnicodeWidthChar::width(c)
}

/// The columns that `c` takes; a character without a width takes none.
pub open spec fn columns_of(c: char) -> int {
    match unicode_width_of(c) {
        Some(width) => width as int,
        None => 0,
    }
}

/// The rows that `text` wraps into at `width` columns (at least one): characters are added to a
/// row until the next would overflow a row that is not empty; an empty text is one empty row.
pub open spec fn wrapped_rows(text: Seq<char>, width: int) -> Seq<Seq<char>> {
    let state = wrap_run(text, if width < 1 { 1 } else { width });
    if state.0.len() == 0 && state.1.len() == 0 {
        seq![seq![]]
    } else if state.1.len() > 0 {
        state.0.push(state.1)
    } else {
        state.0
    }
}

/// The rows finished, the row being filled, and its width, after all of `text`.
pub open spec fn wrap_run(text: Seq<char>, width: int) -> (Seq<Seq<char>>, Seq<char>, int)
    decreases text.len(),
{
    if text.len() == 0 {
        (seq![], seq![], 0)
    } else {
        let (rows, row, used) = wrap_run(text.drop_last(), width);
        let c = text.last();
        let saturated = if used + columns_of(c) <= usize::MAX { used + columns_of(c) } else { usize::MAX as int };
        if used > 0 && saturated > width {
            (rows.push(row), seq![c], columns_of(c))
        } else {
            (rows, row.push(c), saturated)
        }
    }
}

/// See `wrapped_rows`.
pub fn wrap_text(text: &str, width: usize) -> (rows: Vec<String>)
    ensures
        crate::text::texts_view(rows@) == wrapped_rows(text@, width as int),
{
    let width = if width < 1 { 1 } else { width };
    let chars = chars_of(text);
    let mut rows: Vec<String> = Vec::new();
    let mut row: Vec<char> = Vec::new();
    let mut row_width: usize = 0;
    let mut i: usize = 0;
    proof {
        assert(text@.take(0) =~= Seq::<char>::empty());
        assert(crate::text::texts_view(rows@) =~= Seq::<Seq<char>>::empty());
    }
    while i < chars.len()
        invariant
            chars@ == text@,
            width >= 1,
            i <= chars@.len(),
            wrap_run(text@.take(i as int), width as int) == (crate::text::texts_view(rows@), row@, row_width as int),
        decreases chars.len() - i,
    {
        let c = chars[i];
        proof {
            assert(text@.take(i + 1).drop_last() =~= text@.take(i as int));
            assert(text@.take(i + 1).last() == c);
        }
        let columns = match char_columns(c) {
            Some(columns) => columns,
            None => 0,
        };
        let next_width = row_width.saturating_add(columns);
        if row_width > 0 && next_width > width {
            let finished = string_from_chars(row.as_slice());
            let ghost previous = rows@;
            rows.push(finished);
            proof {
                assert(crate::text::texts_view(rows@) =~= crate::text::texts_view(previous).push(row@));
            }
            row = Vec::new();
            row.push(c);
            row_width = columns;
            proof {
                assert(row@ =~= seq![c]);
            }
        } else {
            row.push(c);
            row_width = next_width;
        }
        i = i + 1;
    }
    proof {
        assert(text@.take(i as int) =~= text@);
    }
    if rows.len() == 0 && row.len() == 0 {
        let mut only: Vec<String> = Vec::new();
        only.push(String::new());
        proof {
            assert(crate::text::texts_view(only@) =~= seq![Seq::<char>::empty()]);
        }
        return only;
    }
    if row.len() > 0 {
        let last = string_from_chars(row.as_slice());
        let ghost previous = rows@;
        rows.push(last);
        proof {
            assert(crate::text::texts_view(rows@) =~= crate::text::texts_view(previous).push(row@));
        }
    }
    rows
}

/// Nothing that `display_text` shows is a control character: no text from outside can move the
/// cursor or change the terminal.
pub proof fn law_display_text_has_no_controls(text: Seq<char>)
    ensures
        forall|i: int| 0 <= i < display_text(text).len() ==> !is_control(#[trigger] display_text(text)[i]),
{
    if text.len() > 0 && text.last() == '\r' {
        lemma_shown_chars_have_no_controls(text.drop_last());
    } else {
        lemma_shown_chars_have_no_controls(text);
    }
}

proof fn lemma_shown_chars_have_no_controls(text: Seq<char>)
    ensures
        forall|i: int| 0 <= i < shown_chars(text).len() ==> !is_control(#[trigger] shown_chars(text)[i]),
    decreases text.len(),
{
    if text.len() > 0 {
        lemma_shown_chars_have_no_controls(text.drop_last());
        let before = shown_chars(text.drop_last());
        let added = shown_char(text.last());
        assert forall|i: int| 0 <= i < shown_chars(text).len() implies !is_control(#[trigger] shown_chars(text)[i]) by {
            if i >= before.len() {
                assert(shown_chars(text)[i] == added[i - before.len()]);
            } else {
                assert(shown_chars(text)[i] == before[i]);
            }
        }
    }
}

/// Wrapping loses and adds nothing: the rows, joined, are the text, and no row is empty unless
/// the text is.
pub proof fn law_wrapping_keeps_the_text(text: Seq<char>, width: int)
    ensures
        wrapped_rows(text, width).flatten() == text,
        text.len() > 0 ==> forall|i: int|
            0 <= i < wrapped_rows(text, width).len() ==> (#[trigger] wrapped_rows(text, width)[i]).len() > 0,
{
    let w = if width < 1 { 1 } else { width };
    lemma_wrap_run_keeps_the_text(text, w);
    let (rows, row, used) = wrap_run(text, w);
    broadcast use Seq::lemma_flatten_push;
    if rows.len() == 0 && row.len() == 0 {
        reveal_with_fuel(Seq::flatten, 2);
        assert(seq![Seq::<char>::empty()].flatten() =~= Seq::<char>::empty());
        assert(rows.flatten() =~= Seq::<char>::empty());
        assert(text =~= Seq::<char>::empty());
    } else if row.len() > 0 {
        assert(rows.push(row).flatten() =~= rows.flatten() + row);
        assert forall|i: int| 0 <= i < rows.push(row).len() implies (#[trigger] rows.push(row)[i]).len() > 0 by {
            if i < rows.len() {
                assert(rows.push(row)[i] == rows[i]);
            }
        }
    } else {
        assert(rows.flatten() + row =~= rows.flatten());
    }
}

proof fn lemma_wrap_run_keeps_the_text(text: Seq<char>, width: int)
    requires
        width >= 1,
    ensures
        wrap_run(text, width).0.flatten() + wrap_run(text, width).1 == text,
        forall|i: int| 0 <= i < wrap_run(text, width).0.len() ==> (#[trigger] wrap_run(text, width).0[i]).len() > 0,
        wrap_run(text, width).2 > 0 ==> wrap_run(text, width).1.len() > 0,
        text.len() > 0 ==> wrap_run(text, width).1.len() > 0,
    decreases text.len(),
{
    broadcast use Seq::lemma_flatten_push;
    if text.len() == 0 {
        reveal_with_fuel(Seq::flatten, 1);
        assert(wrap_run(text, width).0.flatten() + wrap_run(text, width).1 =~= text);
    } else {
        let prefix = text.drop_last();
        lemma_wrap_run_keeps_the_text(prefix, width);
        let (rows, row, used) = wrap_run(prefix, width);
        let c = text.last();
        assert(text =~= prefix.push(c));
        let saturated = if used + columns_of(c) <= usize::MAX { used + columns_of(c) } else { usize::MAX as int };
        if used > 0 && saturated > width {
            assert(rows.push(row).flatten() =~= rows.flatten() + row);
            assert(rows.push(row).flatten() + seq![c] =~= text);
            assert forall|i: int| 0 <= i < rows.push(row).len() implies (#[trigger] rows.push(row)[i]).len() > 0 by {
                if i < rows.len() {
                    assert(rows.push(row)[i] == rows[i]);
                }
            }
        } else {
            assert(rows.flatten() + row.push(c) =~= text);
        }
    }
}

/// The note after a timezone that detection could not provide.
pub open spec fn fallback_note(source: crate::day::TimezoneSource) -> Seq<char> {
    if source == crate::day::TimezoneSource::Fallback {
        " (local detection failed; UTC fallback)"@
    } else {
        ""@
    }
}

/// The category of the first listed failure, if any.
pub open spec fn first_failure_category(failures: Seq<LoadFailure>) -> Option<FailureCategory> {
    if failures.len() > 0 {
        Some(failures[0].category)
    } else {
        None
    }
}

/// The lines that summarize a live load of the day `date` in the timezone `timezone_name`
/// (chosen by `source`), in order: the day; the timezone, noting a fallback to UTC; an empty line;
/// the phase; the repository, branch and commit counts; a warning where repositories have
/// incomplete coverage; and, where failures are listed, an empty line, a heading, one line per
/// listed failure and, where more were omitted, how many.
pub open spec fn live_summary_text(
    date: crate::day::CalendarDate,
    timezone_name: Seq<char>,
    source: crate::day::TimezoneSource,
    state: crate::live::LiveView,
) -> Seq<Seq<char>> {
    live_summary_head(date, timezone_name, source, state) + live_summary_warning(state)
        + live_summary_errors(state)
}

/// The first lines of a live summary: day, timezone, an empty line, phase and counts.
pub open spec fn live_summary_head(
    date: crate::day::CalendarDate,
    timezone_name: Seq<char>,
    source: crate::day::TimezoneSource,
    state: crate::live::LiveView,
) -> Seq<Seq<char>> {
    seq![
        "Selected day: "@ + crate::day::iso_date_text(date),
        "Timezone: "@ + timezone_name + fallback_note(source),
        Seq::<char>::empty(),
        phase_line(state.phase, first_failure_category(state.failures)),
        "Repositories: "@ + decimal(state.progress.repositories_processed as nat) + "/"@ + decimal(
            state.progress.repositories_discovered as nat,
        ) + " processed"@,
        "Branches: "@ + decimal(state.progress.branches_processed as nat) + "/"@ + decimal(
            state.progress.branches_discovered as nat,
        ) + " processed"@,
        "Commits available: "@ + decimal(
            crate::keyed::saturated(crate::live::commit_total(state.loaded)) as nat,
        ),
    ]
}

/// The warning of a live summary, where repositories have incomplete coverage.
pub open spec fn live_summary_warning(state: crate::live::LiveView) -> Seq<Seq<char>> {
    let incomplete = crate::live::incomplete_total(state.loaded);
    if incomplete > 0 {
        seq!["Warning: "@ + decimal(incomplete as nat) + " repositories have incomplete coverage"@]
    } else {
        Seq::empty()
    }
}

/// The line of a listed failure in a live summary.
pub open spec fn failure_entry(failure: LoadFailure) -> Seq<char> {
    "\u{2022} "@ + failure_line(failure)
}

/// The error lines of a live summary, where failures are listed.
pub open spec fn live_summary_errors(state: crate::live::LiveView) -> Seq<Seq<char>> {
    if state.failures.len() > 0 {
        seq![Seq::<char>::empty(), "Bounded error summary:"@] + state.failures.map_values(
            |failure: LoadFailure| failure_entry(failure),
        ) + if state.omitted_failures > 0 {
            seq!["\u{2022} "@ + decimal(state.omitted_failures as nat) + " additional errors omitted"@]
        } else {
            Seq::empty()
        }
    } else {
        Seq::empty()
    }
}

/// The lines that summarize a live load (see `live_summary_text`).
pub fn live_summary_lines(selection: &crate::day::DaySelection, state: &crate::live::LiveInboxState) -> (lines: Vec<String>)
    ensures
        texts_view(lines@) == live_summary_text(
            selection.date,
            selection.timezone_name@,
            selection.timezone_source,
            state@,
        ),
{
    let mut lines: Vec<String> = Vec::new();
    let mut day = String::from_str("Selected day: ");
    let date = crate::day::date_text(selection.date);
    push_text(&mut day, date.as_str());
    lines.push(day);
    let mut zone = String::from_str("Timezone: ");
    push_text(&mut zone, selection.timezone_name.as_str());
    if selection.timezone_source == crate::day::TimezoneSource::Fallback {
        push_text(&mut zone, " (local detection failed; UTC fallback)");
    } else {
        push_text(&mut zone, "");
    }
    lines.push(zone);
    lines.push(String::new());
    let failures = state.failures();
    let first = if failures.len() > 0 {
        Some(failures[0].category)
    } else {
        None
    };
    lines.push(phase_text(state.current_phase(), first));
    let progress = state.current_progress();
    let mut repositories = String::from_str("Repositories: ");
    push_text(&mut repositories, decimal_string(progress.repositories_processed as u64).as_str());
    push_text(&mut repositories, "/");
    push_text(&mut repositories, decimal_string(progress.repositories_discovered as u64).as_str());
    push_text(&mut repositories, " processed");
    lines.push(repositories);
    let mut branches = String::from_str("Branches: ");
    push_text(&mut branches, decimal_string(progress.branches_processed as u64).as_str());
    push_text(&mut branches, "/");
    push_text(&mut branches, decimal_string(progress.branches_discovered as u64).as_str());
    push_text(&mut branches, " processed");
    lines.push(branches);
    let mut commits = String::from_str("Commits available: ");
    push_text(&mut commits, decimal_string(state.available_commits() as u64).as_str());
    lines.push(commits);
    let ghost head = texts_view(lines@);
    proof {
        let expected = live_summary_head(selection.date, selection.timezone_name@, selection.timezone_source, state@);
        assert(head.len() == 7);
        assert(head[0] == expected[0]);
        assert(head[1] == expected[1]);
        assert(head[2] == expected[2]);
        assert(head[3] == expected[3]);
        assert(head[4] == expected[4]);
        assert(head[5] == expected[5]);
        assert(head[6] == expected[6]);
        assert(head =~= live_summary_head(selection.date, selection.timezone_name@, selection.timezone_source, state@));
    }
    let incomplete = state.incomplete_repositories();
    if incomplete > 0 {
        let mut warning = String::from_str("Warning: ");
        push_text(&mut warning, decimal_string(incomplete as u64).as_str());
        push_text(&mut warning, " repositories have incomplete coverage");
        lines.push(warning);
    }
    let ghost with_warning = texts_view(lines@);
    proof {
        assert(with_warning =~= head + live_summary_warning(state@));
    }
    if failures.len() > 0 {
        lines.push(String::new());
        lines.push(String::from_str("Bounded error summary:"));
        let ghost base = texts_view(lines@);
        proof {
            assert(base =~= with_warning + seq![Seq::<char>::empty(), "Bounded error summary:"@]);
        }
        let mut i: usize = 0;
        while i < failures.len()
            invariant
                i <= failures@.len(),
                failures@ == state@.failures,
                texts_view(lines@) == base + failures@.take(i as int).map_values(
                    |failure: LoadFailure| failure_entry(failure),
                ),
            decreases failures@.len() - i,
        {
            let mut line = String::from_str("\u{2022} ");
            let text = failure_text(&failures[i]);
            push_text(&mut line, text.as_str());
            let ghost previous = lines@;
            lines.push(line);
            proof {
                assert(texts_view(lines@) =~= texts_view(previous).push(line@));
                assert(failures@.take(i + 1) =~= failures@.take(i as int).push(failures@[i as int]));
                assert(failures@.take(i + 1).map_values(|failure: LoadFailure| failure_entry(failure))
                    =~= failures@.take(i as int).map_values(|failure: LoadFailure| failure_entry(failure)).push(failure_entry(failures@[i as int])));
            }
            i = i + 1;
        }
        proof {
            assert(failures@.take(i as int) =~= failures@);
        }
        let ghost listed = texts_view(lines@);
        let omitted = state.omitted_failures();
        if omitted > 0 {
            let mut line = String::from_str("\u{2022} ");
            push_text(&mut line, decimal_string(omitted as u64).as_str());
            push_text(&mut line, " additional errors omitted");
            lines.push(line);
            proof {
                assert(texts_view(lines@) =~= listed.push(line@));
            }
        }
        proof {
            assert(texts_view(lines@) =~= with_warning + live_summary_errors(state@));
        }
    } else {
        proof {
            assert(with_warning + live_summary_errors(state@) =~= with_warning);
        }
    }
    proof {
        assert(texts_view(lines@) =~= with_warning + live_summary_errors(state@));
        assert(texts_view(lines@) =~= live_summary_text(
            selection.date,
            selection.timezone_name@,
            selection.timezone_source,
            state@,
        ));
    }
    lines
}

} // verus!
