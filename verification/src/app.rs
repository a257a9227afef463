use vstd::prelude::*;

use crate::inbox::{
    repositories_view, ChildPane, Commit, CommitView, FileChange, FileView, Inbox, InboxSource,
    Repository, RepositoryView,
};
use crate::live::{LiveInboxState, LiveView};
use crate::navigation::{
    capacity, minus, normalize_list, pane_viewport_heights, spec_viewport_heights, ListPosition,
};
use crate::pane::{pane_at, pane_index, Command, Input, Mode, Pane};

verus! {

/// The commits of a list, as values.
pub open spec fn commits_view(commits: Seq<Commit>) -> Seq<CommitView> {
    commits.map_values(|commit: Commit| commit@)
}

/// The files of a list, as values.
pub open spec fn files_view(files: Seq<FileChange>) -> Seq<FileView> {
    files.map_values(|file: FileChange| file@)
}

/// The texts of a list, as values.
pub open spec fn lines_view(lines: Seq<String>) -> Seq<Seq<char>> {
    lines.map_values(|line: String| line@)
}

/// The application state, as values.
#[verifier::ext_equal]
pub struct AppView {
    pub source: InboxSource,
    pub repositories: Seq<RepositoryView>,
    pub terminal_width: u16,
    pub terminal_height: u16,
    pub mode: Mode,
    pub focus: Pane,
    pub repository_position: ListPosition,
    pub commit_position: ListPosition,
    pub file_position: ListPosition,
    pub diff_scroll: usize,
    pub viewport_heights: Seq<usize>,
    pub pending_g: bool,
    pub search_query: Seq<char>,
    pub status: Seq<char>,
    pub should_quit: bool,
    pub live: Option<LiveView>,
}

/// The leftmost of two panes.
pub open spec fn leftmost(a: Pane, b: Pane) -> Pane {
    if pane_index(a) <= pane_index(b) { a } else { b }
}

impl AppView {
    /// The selected repository, if the selection names one.
    pub open spec fn current_repository(self) -> Option<RepositoryView> {
        if self.repository_position.selected < self.repositories.len() {
            Some(self.repositories[self.repository_position.selected as int])
        } else {
            None
        }
    }

    /// The commits of the selected repository.
    pub open spec fn current_commits(self) -> Seq<CommitView> {
        match self.current_repository() {
            Some(repository) => repository.commits,
            None => Seq::empty(),
        }
    }

    /// The selected commit, if the selection names one.
    pub open spec fn current_commit(self) -> Option<CommitView> {
        if self.commit_position.selected < self.current_commits().len() {
            Some(self.current_commits()[self.commit_position.selected as int])
        } else {
            None
        }
    }

    /// The files of the selected commit; none in a live inbox, which carries no files.
    pub open spec fn current_files(self) -> Seq<FileView> {
        if self.source is Demo {
            match self.current_commit() {
                Some(commit) => match commit.files {
                    Some(files) => files,
                    None => Seq::empty(),
                },
                None => Seq::empty(),
            }
        } else {
            Seq::empty()
        }
    }

    /// The selected file, if the selection names one.
    pub open spec fn current_file(self) -> Option<FileView> {
        if self.file_position.selected < self.current_files().len() {
            Some(self.current_files()[self.file_position.selected as int])
        } else {
            None
        }
    }

    /// The diff lines of the selected file.
    pub open spec fn current_diff_lines(self) -> Seq<Seq<char>> {
        match self.current_file() {
            Some(file) => match file.diff_lines {
                Some(lines) => lines,
                None => Seq::empty(),
            },
            None => Seq::empty(),
        }
    }

    /// The number of rows of a pane's data.
    pub open spec fn dataset_len(self, pane: Pane) -> int {
        match pane {
            Pane::Repository => self.repositories.len() as int,
            Pane::Commit => self.current_commits().len() as int,
            Pane::File => self.current_files().len() as int,
            Pane::Diff => self.current_diff_lines().len() as int,
        }
    }

    /// The content rows of a pane.
    pub open spec fn viewport(self, pane: Pane) -> int {
        self.viewport_heights[pane_index(pane)] as int
    }

    /// The furthest the diff can scroll while its viewport stays filled.
    pub open spec fn max_diff_scroll(self) -> int {
        minus(self.current_diff_lines().len() as int, capacity(self.viewport(Pane::Diff)))
    }

    /// The innermost pane that has something to show: repositories while there is no commit,
    /// commits while there is no file, and the diff otherwise.
    pub open spec fn deepest_pane(self) -> Pane {
        if self.repositories.len() == 0 || self.current_commits().len() == 0 {
            Pane::Repository
        } else if !(self.source is Demo) || self.current_files().len() == 0 {
            Pane::Commit
        } else {
            Pane::Diff
        }
    }

    /// The selection of a pane: the selected row of a list, the scroll of the diff.
    pub open spec fn selected(self, pane: Pane) -> int {
        match pane {
            Pane::Repository => self.repository_position.selected as int,
            Pane::Commit => self.commit_position.selected as int,
            Pane::File => self.file_position.selected as int,
            Pane::Diff => self.diff_scroll as int,
        }
    }

    /// The first visible row of a pane.
    pub open spec fn scroll(self, pane: Pane) -> int {
        match pane {
            Pane::Repository => self.repository_position.scroll as int,
            Pane::Commit => self.commit_position.scroll as int,
            Pane::File => self.file_position.scroll as int,
            Pane::Diff => self.diff_scroll as int,
        }
    }

    /// A normal state: every selection is inside its data and visible, the diff does not
    /// scroll past its end, and the focus is not deeper than the data allows.
    pub open spec fn is_normal(self) -> bool {
        &&& self.viewport_heights.len() == 4
        &&& self.repository_position.is_normal(
            self.repositories.len() as int,
            self.viewport(Pane::Repository),
        )
        &&& self.commit_position.is_normal(
            self.current_commits().len() as int,
            self.viewport(Pane::Commit),
        )
        &&& self.file_position.is_normal(
            self.current_files().len() as int,
            self.viewport(Pane::File),
        )
        &&& self.diff_scroll <= self.max_diff_scroll()
        &&& pane_index(self.focus) <= pane_index(self.deepest_pane())
    }

    /// The state with its repository selection normalized.
    pub open spec fn normalized_repositories(self) -> AppView {
        AppView {
            repository_position: self.repository_position.normalized(
                self.repositories.len() as int,
                self.viewport(Pane::Repository),
            ),
            ..self
        }
    }

    /// The state with its commit selection normalized.
    pub open spec fn normalized_commits(self) -> AppView {
        AppView {
            commit_position: self.commit_position.normalized(
                self.current_commits().len() as int,
                self.viewport(Pane::Commit),
            ),
            ..self
        }
    }

    /// The state with its file selection normalized.
    pub open spec fn normalized_files(self) -> AppView {
        AppView {
            file_position: self.file_position.normalized(
                self.current_files().len() as int,
                self.viewport(Pane::File),
            ),
            ..self
        }
    }

    /// The state with its diff scroll and focus clamped.
    pub open spec fn clamped_diff_and_focus(self) -> AppView {
        AppView {
            diff_scroll: (if self.diff_scroll <= self.max_diff_scroll() {
                self.diff_scroll as int
            } else {
                self.max_diff_scroll()
            }) as usize,
            focus: leftmost(self.focus, self.deepest_pane()),
            ..self
        }
    }

    /// The normal state that `normalize` makes of this one: lists are normalized from the
    /// outermost inward, each against the data that the outer selections give it, then the diff
    /// scroll is clamped and the focus moved left of any pane without data.
    #[verifier::opaque]
    pub open spec fn normalized(self) -> AppView {
        self.normalized_repositories().normalized_commits().normalized_files().clamped_diff_and_focus()
    }
}

/// Normalization changes only the selections, the diff scroll and the focus.
pub proof fn lemma_normalized_keeps(state: AppView)
    ensures
        state.normalized().source == state.source,
        state.normalized().repositories == state.repositories,
        state.normalized().terminal_width == state.terminal_width,
        state.normalized().terminal_height == state.terminal_height,
        state.normalized().mode == state.mode,
        state.normalized().viewport_heights == state.viewport_heights,
        state.normalized().pending_g == state.pending_g,
        state.normalized().search_query == state.search_query,
        state.normalized().status == state.status,
        state.normalized().should_quit == state.should_quit,
        state.normalized().live == state.live,
{
    reveal(AppView::normalized);
}

/// The search changes neither the data, the viewports, the quit request nor the loading state.
pub proof fn lemma_after_search_keeps(state: AppView, target: Pane)
    ensures
        state.after_search(target).source == state.source,
        state.after_search(target).repositories == state.repositories,
        state.after_search(target).viewport_heights == state.viewport_heights,
        state.after_search(target).should_quit == state.should_quit,
        state.after_search(target).live == state.live,
        state.after_search(target).mode == Mode::Normal,
        state.after_search(target).pending_g == state.pending_g,
{
    reveal(AppView::after_search);
    let query = state.search_query;
    let searching = AppView { search_query: Seq::empty(), mode: Mode::Normal, ..state };
    if query.len() != 0 {
        match crate::navigation::first_wrapped_match(
            searching.dataset_len(target),
            searching.selected(target),
            |index: int| searching.search_matches(target, query, index),
        ) {
            Some(index) => {
                assert(searching.selected_in(target, index).viewport_heights
                    == state.viewport_heights);
            },
            None => {},
        }
    }
}

/// Normalizing any state with four viewports gives a normal state, and a normal state is left as
/// it is.
pub proof fn lemma_normalized_is_normal(state: AppView)
    requires
        state.viewport_heights.len() == 4,
    ensures
        state.normalized().is_normal(),
        state.is_normal() ==> state.normalized() == state,
{
    reveal(AppView::normalized);
    let s1 = state.normalized_repositories();
    let s2 = s1.normalized_commits();
    let s3 = s2.normalized_files();
    let s4 = s3.clamped_diff_and_focus();
    assert(s1.current_commits() == s2.current_commits());
    assert(s2.current_files() == s3.current_files());
    assert(s3.current_diff_lines() == s4.current_diff_lines());
    assert(s3.deepest_pane() == s4.deepest_pane());
    if state.is_normal() {
        assert(s1 == state);
        assert(s2 == state);
        assert(s3 == state);
        assert(s4 =~= state);
    }
}

} // verus!

verus! {

/// The review application: the inbox, the modal state, the focused pane, the selection of every
/// pane, the status line and, for a live inbox, its loading state.
#[derive(Debug)]
pub struct App {
    inbox: Inbox,
    pub terminal_width: u16,
    pub terminal_height: u16,
    mode: Mode,
    focus: Pane,
    repositories: ListPosition,
    commits: ListPosition,
    files: ListPosition,
    diff_scroll: usize,
    viewport_heights: [usize; 4],
    pending_g: bool,
    search_query: String,
    status: String,
    should_quit: bool,
    live: Option<LiveInboxState>,
}

impl View for App {
    type V = AppView;

    closed spec fn view(&self) -> AppView {
        AppView {
            source: self.inbox.source,
            repositories: repositories_view(self.inbox.repositories@),
            terminal_width: self.terminal_width,
            terminal_height: self.terminal_height,
            mode: self.mode,
            focus: self.focus,
            repository_position: self.repositories,
            commit_position: self.commits,
            file_position: self.files,
            diff_scroll: self.diff_scroll,
            viewport_heights: self.viewport_heights@,
            pending_g: self.pending_g,
            search_query: self.search_query@,
            status: self.status@,
            should_quit: self.should_quit,
            live: match self.live {
                Some(live) => Some(live@),
                None => None,
            },
        }
    }
}

impl App {
    /// The loading state is well keyed whenever there is one.
    pub closed spec fn live_well_keyed(&self) -> bool {
        match self.live {
            Some(live) => live@.well_keyed(),
            None => true,
        }
    }

    /// The repositories that the inbox shows.
    pub fn inbox(&self) -> (inbox: &Inbox)
        ensures
            inbox.source == self@.source,
            repositories_view(inbox.repositories@) == self@.repositories,
    {
        &self.inbox
    }

    /// The inbox (the same as `inbox`).
    pub fn fixture(&self) -> (inbox: &Inbox)
        ensures
            inbox.source == self@.source,
            repositories_view(inbox.repositories@) == self@.repositories,
    {
        self.inbox()
    }

    /// The selected repository.
    pub fn current_repository(&self) -> (repository: Option<&Repository>)
        ensures
            match repository {
                Some(repository) => self@.current_repository() == Some(repository@),
                None => self@.current_repository() is None,
            },
    {
        if self.repositories.selected < self.inbox.repositories.len() {
            Some(&self.inbox.repositories[self.repositories.selected])
        } else {
            None
        }
    }

    /// The commits of the selected repository.
    pub fn current_commits(&self) -> (commits: &[Commit])
        ensures
            commits_view(commits@) == self@.current_commits(),
    {
        if self.repositories.selected < self.inbox.repositories.len() {
            self.inbox.repositories[self.repositories.selected].commits.as_slice()
        } else {
            let empty: &[Commit] = &[];
            assert(commits_view(empty@) =~= Seq::<CommitView>::empty());
            empty
        }
    }

    /// The selected commit.
    pub fn current_commit(&self) -> (commit: Option<&Commit>)
        ensures
            match commit {
                Some(commit) => self@.current_commit() == Some(commit@),
                None => self@.current_commit() is None,
            },
    {
        let commits = self.current_commits();
        if self.commits.selected < commits.len() {
            Some(&commits[self.commits.selected])
        } else {
            None
        }
    }

    /// The files of the selected commit; none in a live inbox.
    pub fn current_files(&self) -> (files: &[FileChange])
        ensures
            files_view(files@) == self@.current_files(),
    {
        let empty: &[FileChange] = &[];
        assert(files_view(empty@) =~= Seq::<FileView>::empty());
        if self.inbox.child_panes_available() {
            match self.current_commit() {
                Some(commit) => {
                    let files = commit.files.as_slice();
                    assert(files_view(files@) =~= self@.current_files());
                    files
                },
                None => empty,
            }
        } else {
            empty
        }
    }

    /// The selected file.
    pub fn current_file(&self) -> (file: Option<&FileChange>)
        ensures
            match file {
                Some(file) => self@.current_file() == Some(file@),
                None => self@.current_file() is None,
            },
    {
        let files = self.current_files();
        if self.files.selected < files.len() {
            Some(&files[self.files.selected])
        } else {
            None
        }
    }

    /// The diff lines of the selected file.
    pub fn current_diff_lines(&self) -> (lines: &[String])
        ensures
            lines_view(lines@) == self@.current_diff_lines(),
    {
        let empty: &[String] = &[];
        assert(lines_view(empty@) =~= Seq::<Seq<char>>::empty());
        match self.current_file() {
            Some(file) => {
                let lines = file.diff_lines.as_slice();
                assert(lines_view(lines@) =~= self@.current_diff_lines());
                lines
            },
            None => empty,
        }
    }

    /// How far the diff can scroll: its length less the diff viewport (at least one line).
    pub fn max_diff_scroll(&self) -> (max: usize)
        requires
            self@.viewport_heights.len() == 4,
        ensures
            max == self@.max_diff_scroll(),
    {
        let viewport = self.viewport_heights[3];
        let capacity = if viewport < 1 { 1 } else { viewport };
        self.current_diff_lines().len().saturating_sub(capacity)
    }

    fn deepest_meaningful_pane(&self) -> (pane: Pane)
        ensures
            pane == self@.deepest_pane(),
    {
        if self.inbox.repositories.len() == 0 || self.current_commits().len() == 0 {
            Pane::Repository
        } else if !self.inbox.child_panes_available() || self.current_files().len() == 0 {
            Pane::Commit
        } else {
            Pane::Diff
        }
    }

    fn normalize(&mut self)
        requires
            old(self)@.viewport_heights.len() == 4,
        ensures
            final(self)@ == old(self)@.normalized(),
            final(self).live_well_keyed() == old(self).live_well_keyed(),
    {
        let ghost s0 = self@;
        let length = self.inbox.repositories.len();
        normalize_list(&mut self.repositories, length, self.viewport_heights[0]);
        assert(self@ == s0.normalized_repositories());
        let ghost s1 = self@;
        let commit_length = self.current_commits().len();
        normalize_list(&mut self.commits, commit_length, self.viewport_heights[1]);
        assert(self@ == s1.normalized_commits());
        let ghost s2 = self@;
        let file_length = self.current_files().len();
        normalize_list(&mut self.files, file_length, self.viewport_heights[2]);
        assert(self@ == s2.normalized_files());
        let max = self.max_diff_scroll();
        if self.diff_scroll > max {
            self.diff_scroll = max;
        }
        let deepest = self.deepest_meaningful_pane();
        if deepest.index() < self.focus.index() {
            self.focus = deepest;
        }
        proof {
            reveal(AppView::normalized);
        }
        assert(self@ =~= s0.normalized());
    }
}

} // verus!

verus! {

/// The zero position of a list.
pub open spec fn origin() -> ListPosition {
    ListPosition { selected: 0, scroll: 0 }
}

/// `value`, or `usize::MAX` when it is larger.
pub open spec fn saturate(value: int) -> usize {
    if value > usize::MAX { usize::MAX } else { value as usize }
}

/// The command that a normal-mode key stands for.
pub open spec fn command_for(input: Input) -> Command {
    match input {
        Input::Character('q') => Command::Quit,
        Input::Character('h') => Command::FocusPrevious,
        Input::Character('j') => Command::MoveDown,
        Input::Character('k') => Command::MoveUp,
        Input::Character('l') => Command::FocusNext,
        Input::Character('g') => Command::GPrefix,
        Input::Character('G') => Command::Last,
        Input::Enter => Command::Open,
        Input::Escape => Command::Back,
        Input::HalfPageDown => Command::HalfPageDown,
        Input::HalfPageUp => Command::HalfPageUp,
        _ => Command::Unrelated,
    }
}

/// The first position in `items` whose element satisfies `predicate`, from position `k` on.
pub open spec fn first_position_from<T>(items: Seq<T>, predicate: spec_fn(T) -> bool, k: int) -> Option<int>
    decreases items.len() - k,
{
    if k < 0 || k >= items.len() {
        None
    } else if predicate(items[k]) {
        Some(k)
    } else {
        first_position_from(items, predicate, k + 1)
    }
}

/// The first position in `items` whose element satisfies `predicate`.
pub open spec fn first_position<T>(items: Seq<T>, predicate: spec_fn(T) -> bool) -> Option<int> {
    first_position_from(items, predicate, 0)
}

/// Holds of a repository whose name is `name`.
pub open spec fn named_like(name: Seq<char>) -> spec_fn(RepositoryView) -> bool {
    |candidate: RepositoryView| candidate.name == name
}

/// Holds of a commit whose SHA is `sha`.
pub open spec fn with_sha(sha: Seq<char>) -> spec_fn(CommitView) -> bool {
    |candidate: CommitView| candidate.sha == sha
}

impl AppView {
    /// The state with another status line.
    pub open spec fn with_status(self, status: Seq<char>) -> AppView {
        AppView { status, ..self }
    }

    /// Moves the focus one pane left, or reports that it is already leftmost.
    pub open spec fn focused_previous(self, message: Seq<char>) -> AppView {
        if self.focus == Pane::Repository {
            self.with_status("Already at repository pane"@)
        } else {
            AppView { focus: pane_at(pane_index(self.focus) - 1), status: message, ..self }
        }
    }

    /// Moves the focus one pane right if that pane has data, or reports that there is none.
    pub open spec fn focused_next(self, message: Seq<char>) -> AppView {
        if self.focus != Pane::Diff && pane_index(self.focus) + 1 <= pane_index(self.deepest_pane()) {
            AppView { focus: pane_at(pane_index(self.focus) + 1), status: message, ..self }
        } else {
            self.with_status("No child pane to open"@)
        }
    }

    /// Selects a repository; a new selection resets the commit, file and diff positions.
    pub open spec fn repository_selected(self, index: int) -> AppView {
        if index == self.repository_position.selected {
            self
        } else {
            AppView {
                repository_position: ListPosition {
                    selected: index as usize,
                    ..self.repository_position
                },
                commit_position: origin(),
                file_position: origin(),
                diff_scroll: 0,
                ..self
            }
        }
    }

    /// Selects a commit; a new selection resets the file and diff positions.
    pub open spec fn commit_selected(self, index: int) -> AppView {
        if index == self.commit_position.selected {
            self
        } else {
            AppView {
                commit_position: ListPosition { selected: index as usize, ..self.commit_position },
                file_position: origin(),
                diff_scroll: 0,
                ..self
            }
        }
    }

    /// Selects a file; a new selection resets the diff scroll.
    pub open spec fn file_selected(self, index: int) -> AppView {
        if index == self.file_position.selected {
            self
        } else {
            AppView {
                file_position: ListPosition { selected: index as usize, ..self.file_position },
                diff_scroll: 0,
                ..self
            }
        }
    }

    /// Selects row `index` of a pane (for the diff: scrolls to it).
    pub open spec fn selected_in(self, pane: Pane, index: int) -> AppView {
        match pane {
            Pane::Repository => self.repository_selected(index),
            Pane::Commit => self.commit_selected(index),
            Pane::File => self.file_selected(index),
            Pane::Diff => AppView { diff_scroll: index as usize, ..self },
        }
    }

    /// Half the focused pane's content rows, at least one.
    pub open spec fn half_page_step(self) -> int {
        let half = self.viewport(self.focus) / 2;
        if half < 1 { 1 } else { half }
    }

    /// Moves the focused pane's selection (or the diff scroll) by `amount`.
    pub open spec fn moved(self, upward: bool, amount: int) -> AppView {
        let moved = match self.focus {
            Pane::Repository => self.repository_selected(
                crate::navigation::spec_moved_index(
                    self.repository_position.selected as int,
                    self.repositories.len() as int,
                    upward,
                    amount,
                ),
            ),
            Pane::Commit => self.commit_selected(
                crate::navigation::spec_moved_index(
                    self.commit_position.selected as int,
                    self.current_commits().len() as int,
                    upward,
                    amount,
                ),
            ),
            Pane::File => self.file_selected(
                crate::navigation::spec_moved_index(
                    self.file_position.selected as int,
                    self.current_files().len() as int,
                    upward,
                    amount,
                ),
            ),
            Pane::Diff => AppView {
                diff_scroll: if upward {
                    minus(self.diff_scroll as int, amount) as usize
                } else {
                    saturate(self.diff_scroll + amount)
                },
                ..self
            },
        };
        moved.with_status(if upward { "Moved up"@ } else { "Moved down"@ })
    }

    /// Moves the focused pane to its first row.
    pub open spec fn moved_to_first(self) -> AppView {
        self.selected_in(self.focus, 0).with_status("Moved to first position"@)
    }

    /// Moves the focused pane to its last row (the diff to its furthest scroll).
    pub open spec fn moved_to_last(self) -> AppView {
        let last = match self.focus {
            Pane::Diff => self.max_diff_scroll(),
            _ => minus(self.dataset_len(self.focus), 1),
        };
        self.selected_in(self.focus, last).with_status("Moved to last position"@)
    }

    /// The effect of a normal-mode command, before normalization.
    pub open spec fn after_normal_command(self, command: Command) -> AppView {
        match command {
            Command::Quit => AppView { should_quit: true, status: "Closing ReviewBox"@, ..self },
            Command::FocusPrevious => self.focused_previous("Focus moved left"@),
            Command::FocusNext => self.focused_next("Focus moved right"@),
            Command::MoveDown => self.moved(false, 1),
            Command::MoveUp => self.moved(true, 1),
            Command::GPrefix => self.moved_to_first(),
            Command::Last => self.moved_to_last(),
            Command::HalfPageDown => self.moved(false, self.half_page_step()),
            Command::HalfPageUp => self.moved(true, self.half_page_step()),
            Command::Open => self.focused_next("Opened selected item"@),
            Command::Back => self.focused_previous("Returned to parent pane"@),
            Command::Unrelated => self.with_status("Key has no action in normal mode"@),
        }
    }

    /// The effect of a command: `g` waits for a second `g`, which moves to the first row; any
    /// other command drops a pending `g` and acts only in normal mode; the result is normalized.
    pub open spec fn after_command(self, command: Command) -> AppView {
        if command == Command::GPrefix {
            if self.pending_g {
                AppView { pending_g: false, ..self }.after_normal_command(
                    Command::GPrefix,
                ).normalized()
            } else {
                AppView {
                    pending_g: true,
                    status: "g: waiting for second g"@,
                    ..self
                }.normalized()
            }
        } else {
            let cleared = AppView { pending_g: false, ..self };
            if cleared.mode is Normal {
                cleared.after_normal_command(command).normalized()
            } else {
                cleared.normalized()
            }
        }
    }

    /// The text that search matches in row `index` of a pane.
    pub open spec fn search_text(self, pane: Pane, index: int) -> Seq<char> {
        match pane {
            Pane::Repository => self.repositories[index].name,
            Pane::Commit => crate::inbox::spec_commit_label(
                self.current_commits()[index].sha,
                self.current_commits()[index].subject,
            ),
            Pane::File => self.current_files()[index].path,
            Pane::Diff => self.current_diff_lines()[index],
        }
    }

    /// Whether row `index` of a pane matches `query`, ignoring case.
    pub open spec fn search_matches(self, pane: Pane, query: Seq<char>, index: int) -> bool {
        crate::text::spec_contains(
            crate::text::lowercase_of(self.search_text(pane, index)),
            crate::text::lowercase_of(query),
        )
    }

    /// Applies the query of the search prompt to `target`: an empty query changes nothing; else
    /// the first match after the current row, wrapping around, is selected and reported.
    #[verifier::opaque]
    pub open spec fn after_search(self, target: Pane) -> AppView {
        let query = self.search_query;
        let state = AppView { search_query: Seq::empty(), mode: Mode::Normal, ..self };
        if query.len() == 0 {
            state.with_status("Empty search; position unchanged"@)
        } else {
            match crate::navigation::first_wrapped_match(
                state.dataset_len(target),
                state.selected(target),
                |index: int| state.search_matches(target, query, index),
            ) {
                Some(index) => {
                    let selected = state.selected_in(target, index);
                    selected.with_status(
                        "Match for '"@ + query + "' in "@ + crate::pane::pane_title(target) + " ("@
                            + crate::text::decimal((index + 1) as nat) + "/"@
                            + crate::text::decimal(selected.dataset_len(target) as nat) + ")"@,
                    )
                },
                None => state.with_status(
                    "No match for '"@ + query + "' in "@ + crate::pane::pane_title(target),
                ),
            }
        }
    }

    /// The effect of a normal-mode key: `/` opens the search prompt for the focused pane, `?`
    /// opens help, other keys run their command.
    pub open spec fn after_normal_input(self, input: Input) -> AppView {
        match input {
            Input::Character('/') => AppView {
                pending_g: false,
                search_query: Seq::empty(),
                mode: Mode::SearchEntry { target: self.focus },
                status: "Searching "@ + crate::pane::pane_title(self.focus),
                ..self
            }.normalized(),
            Input::Character('?') => AppView {
                pending_g: false,
                mode: Mode::Help { previous_focus: self.focus },
                status: "Keyboard help open"@,
                ..self
            }.normalized(),
            _ => self.after_command(command_for(input)).normalized(),
        }
    }

    /// The effect of a key in the search prompt: text edits the query, Enter applies it, Escape
    /// cancels; nothing else acts.
    pub open spec fn after_search_input(self, target: Pane, input: Input) -> AppView {
        let state = AppView { pending_g: false, ..self };
        match input {
            Input::Character(c) => AppView { search_query: state.search_query.push(c), ..state },
            Input::Backspace => if state.search_query.len() == 0 {
                state
            } else {
                AppView { search_query: state.search_query.drop_last(), ..state }
            },
            Input::Enter => state.after_search(target),
            Input::Escape => AppView {
                search_query: Seq::empty(),
                mode: Mode::Normal,
                status: "Search cancelled"@,
                ..state
            },
            _ => state,
        }
    }

    /// The effect of a key in help: Escape closes it and restores the focus; nothing else acts.
    pub open spec fn after_help_input(self, previous_focus: Pane, input: Input) -> AppView {
        let state = AppView { pending_g: false, ..self };
        if input == Input::Escape {
            AppView {
                focus: previous_focus,
                mode: Mode::Normal,
                status: "Keyboard help closed"@,
                ..state
            }
        } else {
            state
        }
    }

    /// The effect of a key: the global quit acts in every mode; otherwise the mode decides, and
    /// the result is normalized.
    pub open spec fn after_input(self, input: Input) -> AppView {
        if input == Input::Quit {
            AppView { pending_g: false, ..self }.after_normal_command(Command::Quit)
        } else {
            match self.mode {
                Mode::Normal => self.after_normal_input(input),
                Mode::SearchEntry { target } => self.after_search_input(target, input).normalized(),
                Mode::Help { previous_focus } => self.after_help_input(
                    previous_focus,
                    input,
                ).normalized(),
            }
        }
    }

    /// The state for a terminal of `width` × `height` cells.
    pub open spec fn after_resize(self, width: u16, height: u16) -> AppView {
        AppView {
            terminal_width: width,
            terminal_height: height,
            viewport_heights: spec_viewport_heights(width as int, height as int),
            ..self
        }.normalized()
    }
}

} // verus!

verus! {

impl App {
    fn set_status(&mut self, status: &str)
        ensures
            final(self)@ == old(self)@.with_status(status@),
            final(self).live_well_keyed() == old(self).live_well_keyed(),
    {
        self.status = String::from_str(status);
    }

    fn focus_previous(&mut self, status: &str)
        ensures
            final(self)@ == old(self)@.focused_previous(status@),
            final(self).live_well_keyed() == old(self).live_well_keyed(),
    {
        match self.focus.previous() {
            Some(previous) => {
                self.focus = previous;
                self.status = String::from_str(status);
            },
            None => self.set_status("Already at repository pane"),
        }
    }

    fn focus_next(&mut self, status: &str)
        ensures
            final(self)@ == old(self)@.focused_next(status@),
            final(self).live_well_keyed() == old(self).live_well_keyed(),
    {
        let deepest = self.deepest_meaningful_pane();
        match self.focus.next() {
            Some(next) => {
                if next.index() <= deepest.index() {
                    self.focus = next;
                    self.status = String::from_str(status);
                    return;
                }
            },
            None => {},
        }
        self.set_status("No child pane to open");
    }

    fn select_repository(&mut self, selected: usize)
        ensures
            final(self)@ == old(self)@.repository_selected(selected as int),
            final(self).live_well_keyed() == old(self).live_well_keyed(),
    {
        if selected != self.repositories.selected {
            self.repositories.selected = selected;
            self.commits = ListPosition { selected: 0, scroll: 0 };
            self.files = ListPosition { selected: 0, scroll: 0 };
            self.diff_scroll = 0;
        }
    }

    fn select_commit(&mut self, selected: usize)
        ensures
            final(self)@ == old(self)@.commit_selected(selected as int),
            final(self).live_well_keyed() == old(self).live_well_keyed(),
    {
        if selected != self.commits.selected {
            self.commits.selected = selected;
            self.files = ListPosition { selected: 0, scroll: 0 };
            self.diff_scroll = 0;
        }
    }

    fn select_file(&mut self, selected: usize)
        ensures
            final(self)@ == old(self)@.file_selected(selected as int),
            final(self).live_well_keyed() == old(self).live_well_keyed(),
    {
        if selected != self.files.selected {
            self.files.selected = selected;
            self.diff_scroll = 0;
        }
    }

    fn select_in(&mut self, pane: Pane, index: usize)
        ensures
            final(self)@ == old(self)@.selected_in(pane, index as int),
            final(self).live_well_keyed() == old(self).live_well_keyed(),
    {
        match pane {
            Pane::Repository => self.select_repository(index),
            Pane::Commit => self.select_commit(index),
            Pane::File => self.select_file(index),
            Pane::Diff => self.diff_scroll = index,
        }
    }

    fn half_page_step(&self) -> (step: usize)
        ensures
            step == self@.half_page_step(),
    {
        let half = self.viewport_heights[self.focus.index()] / 2;
        if half < 1 { 1 } else { half }
    }

    fn move_active(&mut self, upward: bool, amount: usize)
        ensures
            final(self)@ == old(self)@.moved(upward, amount as int),
            final(self).live_well_keyed() == old(self).live_well_keyed(),
    {
        match self.focus {
            Pane::Repository => {
                let selected = crate::navigation::moved_index(
                    self.repositories.selected,
                    self.inbox.repositories.len(),
                    upward,
                    amount,
                );
                self.select_repository(selected);
            },
            Pane::Commit => {
                let length = self.current_commits().len();
                let selected = crate::navigation::moved_index(
                    self.commits.selected,
                    length,
                    upward,
                    amount,
                );
                self.select_commit(selected);
            },
            Pane::File => {
                let length = self.current_files().len();
                let selected = crate::navigation::moved_index(
                    self.files.selected,
                    length,
                    upward,
                    amount,
                );
                self.select_file(selected);
            },
            Pane::Diff => {
                self.diff_scroll = if upward {
                    self.diff_scroll.saturating_sub(amount)
                } else {
                    self.diff_scroll.saturating_add(amount)
                };
            },
        }
        if upward {
            self.set_status("Moved up");
        } else {
            self.set_status("Moved down");
        }
    }

    fn dataset_len(&self, pane: Pane) -> (length: usize)
        ensures
            length == self@.dataset_len(pane),
    {
        match pane {
            Pane::Repository => self.inbox.repositories.len(),
            Pane::Commit => self.current_commits().len(),
            Pane::File => self.current_files().len(),
            Pane::Diff => self.current_diff_lines().len(),
        }
    }

    fn move_to_first(&mut self)
        ensures
            final(self)@ == old(self)@.moved_to_first(),
            final(self).live_well_keyed() == old(self).live_well_keyed(),
    {
        let focus = self.focus;
        self.select_in(focus, 0);
        self.set_status("Moved to first position");
    }

    fn move_to_last(&mut self)
        ensures
            final(self)@ == old(self)@.moved_to_last(),
            final(self).live_well_keyed() == old(self).live_well_keyed(),
    {
        let focus = self.focus;
        let last = match focus {
            Pane::Diff => self.max_diff_scroll(),
            _ => self.dataset_len(focus).saturating_sub(1),
        };
        self.select_in(focus, last);
        self.set_status("Moved to last position");
    }

    fn apply_normal(&mut self, command: Command)
        ensures
            final(self)@ == old(self)@.after_normal_command(command),
            final(self).live_well_keyed() == old(self).live_well_keyed(),
    {
        match command {
            Command::Quit => {
                self.should_quit = true;
                self.set_status("Closing ReviewBox");
            },
            Command::FocusPrevious => self.focus_previous("Focus moved left"),
            Command::FocusNext => self.focus_next("Focus moved right"),
            Command::MoveDown => self.move_active(false, 1),
            Command::MoveUp => self.move_active(true, 1),
            Command::GPrefix => self.move_to_first(),
            Command::Last => self.move_to_last(),
            Command::HalfPageDown => {
                let step = self.half_page_step();
                self.move_active(false, step);
            },
            Command::HalfPageUp => {
                let step = self.half_page_step();
                self.move_active(true, step);
            },
            Command::Open => self.focus_next("Opened selected item"),
            Command::Back => self.focus_previous("Returned to parent pane"),
            Command::Unrelated => self.set_status("Key has no action in normal mode"),
        }
    }

    /// Applies a normal-mode command (see `AppView::after_command`).
    pub fn apply(&mut self, command: Command)
        ensures
            final(self)@ == old(self)@.after_command(command),
            final(self).live_well_keyed() == old(self).live_well_keyed(),
    {
        if command == Command::GPrefix {
            if self.pending_g {
                self.pending_g = false;
                self.apply_normal(Command::GPrefix);
            } else {
                self.pending_g = true;
                self.set_status("g: waiting for second g");
            }
            self.normalize();
            return;
        }
        self.pending_g = false;
        match self.mode {
            Mode::Normal => self.apply_normal(command),
            Mode::SearchEntry { .. } | Mode::Help { .. } => {},
        }
        self.normalize();
    }
}

} // verus!

verus! {

/// Whether `text`, lowercased, contains `needle`.
fn lowercase_contains(text: &str, needle: &Vec<char>) -> (found: bool)
    ensures
        found == crate::text::spec_contains(crate::text::lowercase_of(text@), needle@),
{
    let lowered = crate::text::lowercase(text);
    let chars = crate::text::chars_of(lowered.as_str());
    crate::text::contains_chars(chars.as_slice(), needle.as_slice())
}

impl App {
    fn find_match(&self, target: Pane, query: &String) -> (found: Option<usize>)
        ensures
            match found {
                Some(index) => index < self@.dataset_len(target) && crate::navigation::first_wrapped_match(
                    self@.dataset_len(target),
                    self@.selected(target),
                    |i: int| self@.search_matches(target, query@, i),
                ) == Some(index as int),
                None => crate::navigation::first_wrapped_match(
                    self@.dataset_len(target),
                    self@.selected(target),
                    |i: int| self@.search_matches(target, query@, i),
                ) is None,
            },
    {
        let lowered = crate::text::lowercase(query.as_str());
        let needle = crate::text::chars_of(lowered.as_str());
        let ghost state = self@;
        let ghost predicate = |i: int| state.search_matches(target, query@, i);
        match target {
            Pane::Repository => {
                let repositories = &self.inbox.repositories;
                let matches = |index: usize| -> (found: bool)
                    requires
                        index < repositories@.len(),
                    ensures
                        found == crate::text::spec_contains(
                            crate::text::lowercase_of(repositories@[index as int].name@),
                            needle@,
                        ),
                    { lowercase_contains(repositories[index].name.as_str(), &needle) };
                crate::navigation::find_wrapped(
                    repositories.len(),
                    self.repositories.selected,
                    matches,
                    Ghost(predicate),
                )
            },
            Pane::Commit => {
                let commits = self.current_commits();
                let matches = |index: usize| -> (found: bool)
                    requires
                        index < commits@.len(),
                    ensures
                        found == crate::text::spec_contains(
                            crate::text::lowercase_of(
                                crate::inbox::spec_commit_label(
                                    commits@[index as int].sha@,
                                    commits@[index as int].subject@,
                                ),
                            ),
                            needle@,
                        ),
                    {
                        let label = commits[index].label();
                        lowercase_contains(label.as_str(), &needle)
                    };
                crate::navigation::find_wrapped(
                    commits.len(),
                    self.commits.selected,
                    matches,
                    Ghost(predicate),
                )
            },
            Pane::File => {
                let files = self.current_files();
                let matches = |index: usize| -> (found: bool)
                    requires
                        index < files@.len(),
                    ensures
                        found == crate::text::spec_contains(
                            crate::text::lowercase_of(files@[index as int].path@),
                            needle@,
                        ),
                    { lowercase_contains(files[index].path.as_str(), &needle) };
                crate::navigation::find_wrapped(
                    files.len(),
                    self.files.selected,
                    matches,
                    Ghost(predicate),
                )
            },
            Pane::Diff => {
                let lines = self.current_diff_lines();
                let matches = |index: usize| -> (found: bool)
                    requires
                        index < lines@.len(),
                    ensures
                        found == crate::text::spec_contains(
                            crate::text::lowercase_of(lines@[index as int]@),
                            needle@,
                        ),
                    { lowercase_contains(lines[index].as_str(), &needle) };
                crate::navigation::find_wrapped(
                    lines.len(),
                    self.diff_scroll,
                    matches,
                    Ghost(predicate),
                )
            },
        }
    }

    fn apply_search(&mut self, target: Pane)
        ensures
            final(self)@ == old(self)@.after_search(target),
            final(self).live_well_keyed() == old(self).live_well_keyed(),
    {
        proof {
            reveal(AppView::after_search);
        }
        let query = self.search_query.clone();
        self.search_query = String::new();
        self.mode = Mode::Normal;
        if query.as_str().is_empty() {
            self.set_status("Empty search; position unchanged");
            return;
        }
        let found = self.find_match(target, &query);
        match found {
            Some(index) => {
                self.select_in(target, index);
                let length = self.dataset_len(target);
                let mut status = String::from_str("Match for '");
                status.append(query.as_str());
                status.append("' in ");
                status.append(target.title());
                status.append(" (");
                let position = crate::text::decimal_string((index + 1) as u64);
                status.append(position.as_str());
                status.append("/");
                let total = crate::text::decimal_string(length as u64);
                status.append(total.as_str());
                status.append(")");
                self.status = status;
            },
            None => {
                let mut status = String::from_str("No match for '");
                status.append(query.as_str());
                status.append("' in ");
                status.append(target.title());
                self.status = status;
            },
        }
    }
}

} // verus!

verus! {

impl App {
    fn handle_normal_input(&mut self, input: Input)
        ensures
            final(self)@ == old(self)@.after_normal_input(input),
            final(self).live_well_keyed() == old(self).live_well_keyed(),
    {
        let command = match input {
            Input::Character('/') => {
                self.pending_g = false;
                self.search_query = String::new();
                self.mode = Mode::SearchEntry { target: self.focus };
                let mut status = String::from_str("Searching ");
                status.append(self.focus.title());
                self.status = status;
                self.normalize();
                return;
            },
            Input::Character('?') => {
                self.pending_g = false;
                self.mode = Mode::Help { previous_focus: self.focus };
                self.set_status("Keyboard help open");
                self.normalize();
                return;
            },
            Input::Character('q') => Command::Quit,
            Input::Character('h') => Command::FocusPrevious,
            Input::Character('j') => Command::MoveDown,
            Input::Character('k') => Command::MoveUp,
            Input::Character('l') => Command::FocusNext,
            Input::Character('g') => Command::GPrefix,
            Input::Character('G') => Command::Last,
            Input::Enter => Command::Open,
            Input::Escape => Command::Back,
            Input::HalfPageDown => Command::HalfPageDown,
            Input::HalfPageUp => Command::HalfPageUp,
            Input::Character(_) | Input::Backspace | Input::Unrelated | Input::Quit => {
                Command::Unrelated
            },
        };
        self.apply(command);
        self.normalize();
    }

    fn handle_search_input(&mut self, target: Pane, input: Input)
        ensures
            final(self)@ == old(self)@.after_search_input(target, input),
            final(self).live_well_keyed() == old(self).live_well_keyed(),
    {
        self.pending_g = false;
        match input {
            Input::Character(character) => self.search_query.push(character),
            Input::Backspace => {
                self.search_query.pop();
            },
            Input::Enter => self.apply_search(target),
            Input::Escape => {
                self.search_query = String::new();
                self.mode = Mode::Normal;
                self.set_status("Search cancelled");
            },
            Input::HalfPageDown | Input::HalfPageUp | Input::Unrelated | Input::Quit => {},
        }
    }

    fn handle_help_input(&mut self, previous_focus: Pane, input: Input)
        ensures
            final(self)@ == old(self)@.after_help_input(previous_focus, input),
            final(self).live_well_keyed() == old(self).live_well_keyed(),
    {
        self.pending_g = false;
        if input == Input::Escape {
            self.focus = previous_focus;
            self.mode = Mode::Normal;
            self.set_status("Keyboard help closed");
        }
    }

    /// Handles a key in the current mode (see `AppView::after_input`).
    pub fn handle_input(&mut self, input: Input)
        ensures
            final(self)@ == old(self)@.after_input(input),
            final(self).live_well_keyed() == old(self).live_well_keyed(),
    {
        if input == Input::Quit {
            self.pending_g = false;
            self.apply_normal(Command::Quit);
            return;
        }
        match self.mode {
            Mode::Normal => self.handle_normal_input(input),
            Mode::SearchEntry { target } => {
                self.handle_search_input(target, input);
                self.normalize();
            },
            Mode::Help { previous_focus } => {
                self.handle_help_input(previous_focus, input);
                self.normalize();
            },
        }
    }

    /// Adapts the viewports to a terminal of `width` × `height` cells.
    pub fn resize(&mut self, width: u16, height: u16)
        ensures
            final(self)@ == old(self)@.after_resize(width, height),
            final(self).live_well_keyed() == old(self).live_well_keyed(),
    {
        self.terminal_width = width;
        self.terminal_height = height;
        self.viewport_heights = pane_viewport_heights(width, height);
        self.normalize();
    }

    /// The modal state.
    pub fn mode(&self) -> (mode: Mode)
        ensures
            mode == self@.mode,
    {
        self.mode
    }

    /// The focused pane.
    pub fn focus(&self) -> (focus: Pane)
        ensures
            focus == self@.focus,
    {
        self.focus
    }

    /// The selected row of a list pane, or the scroll of the diff.
    pub fn selected(&self, pane: Pane) -> (selected: usize)
        ensures
            selected == self@.selected(pane),
    {
        match pane {
            Pane::Repository => self.repositories.selected,
            Pane::Commit => self.commits.selected,
            Pane::File => self.files.selected,
            Pane::Diff => self.diff_scroll,
        }
    }

    /// The first visible row of a pane.
    pub fn scroll(&self, pane: Pane) -> (scroll: usize)
        ensures
            scroll == self@.scroll(pane),
    {
        match pane {
            Pane::Repository => self.repositories.scroll,
            Pane::Commit => self.commits.scroll,
            Pane::File => self.files.scroll,
            Pane::Diff => self.diff_scroll,
        }
    }

    /// The one-based position of a pane's selection and the pane's row count; `(0, 0)` when the
    /// pane is empty.
    pub fn position(&self, pane: Pane) -> (position: (usize, usize))
        ensures
            position.1 == self@.dataset_len(pane),
            position.0 == (if self@.dataset_len(pane) == 0 {
                0
            } else if self@.selected(pane) + 1 < self@.dataset_len(pane) {
                self@.selected(pane) + 1
            } else {
                self@.dataset_len(pane)
            }),
    {
        let length = self.dataset_len(pane);
        if length == 0 {
            (0, 0)
        } else {
            let one_based = self.selected(pane).saturating_add(1);
            (if one_based < length { one_based } else { length }, length)
        }
    }

    /// Whether a first `g` waits for its second.
    pub fn pending_g(&self) -> (pending: bool)
        ensures
            pending == self@.pending_g,
    {
        self.pending_g
    }

    /// The query being typed in the search prompt.
    pub fn search_query(&self) -> (query: &str)
        ensures
            query@ == self@.search_query,
    {
        self.search_query.as_str()
    }

    /// The status line.
    pub fn status(&self) -> (status: &str)
        ensures
            status@ == self@.status,
    {
        self.status.as_str()
    }

    /// Whether the user asked to quit.
    pub fn should_quit(&self) -> (quit: bool)
        ensures
            quit == self@.should_quit,
    {
        self.should_quit
    }

    /// The loading state of a live inbox.
    pub fn live_state(&self) -> (state: Option<&LiveInboxState>)
        ensures
            match state {
                Some(state) => self@.live == Some(state@),
                None => self@.live is None,
            },
    {
        self.live.as_ref()
    }
}

} // verus!

verus! {

/// The state that `App::new` starts from, before normalization.
pub open spec fn initial_view(source: InboxSource, repositories: Seq<RepositoryView>) -> AppView {
    AppView {
        source,
        repositories,
        terminal_width: 0,
        terminal_height: 0,
        mode: Mode::Normal,
        focus: Pane::Repository,
        repository_position: origin(),
        commit_position: origin(),
        file_position: origin(),
        diff_scroll: 0,
        viewport_heights: seq![0usize, 0usize, 0usize, 0usize],
        pending_g: false,
        search_query: Seq::empty(),
        status: if source is Demo {
            "Offline fictional demo"@
        } else {
            "GitHub loading started"@
        },
        should_quit: false,
        live: if source is Demo {
            None
        } else {
            Some(crate::live::initial_live_view())
        },
    }
}

impl AppView {
    /// Selects again, in the new repository list, the repository named like `repository` and in
    /// it the commit with the SHA of `commit`, where they are found; nothing else changes.
    pub open spec fn reselected(
        self,
        repository: Option<RepositoryView>,
        commit: Option<CommitView>,
    ) -> AppView {
        match repository {
            None => self,
            Some(previous) => match first_position(self.repositories, named_like(previous.name)) {
                None => self,
                Some(index) => {
                    let state = AppView {
                        repository_position: ListPosition {
                            selected: index as usize,
                            ..self.repository_position
                        },
                        ..self
                    };
                    match commit {
                        None => state,
                        Some(selected) => match first_position(self.repositories[index].commits, with_sha(selected.sha)) {
                            None => state,
                            Some(position) => AppView {
                                commit_position: ListPosition {
                                    selected: position as usize,
                                    ..state.commit_position
                                },
                                ..state
                            },
                        },
                    }
                },
            },
        }
    }

    /// The effect of a loader event: without a live inbox nothing happens; otherwise the loading
    /// state takes the event, the repositories follow the loaded ones, the selected repository
    /// and commit are found again by name and full SHA, and the result is normalized.
    pub open spec fn after_load_event(self, event: crate::loading::LoadEvent) -> AppView {
        match self.live {
            None => self,
            Some(live) => {
                let next = live.after_event(event, self.repositories);
                let repositories = if crate::live::changes_repositories(event) {
                    crate::live::loaded_repositories(next.loaded)
                } else {
                    self.repositories
                };
                AppView { live: Some(next), repositories, ..self }.reselected(
                    self.current_repository(),
                    self.current_commit(),
                ).normalized()
            },
        }
    }

    /// Whether a loader event can be applied (see `LiveView::accepts`).
    pub open spec fn accepts(self, event: crate::loading::LoadEvent) -> bool {
        match self.live {
            None => true,
            Some(live) => live.accepts(event),
        }
    }
}

fn position_of_repository(repositories: &Vec<Repository>, name: &String) -> (found: Option<usize>)
    ensures
        match found {
            Some(index) => index < repositories@.len() && first_position(repositories_view(repositories@), named_like(name@)) == Some(index as int),
            None => first_position(repositories_view(repositories@), named_like(name@)) is None,
        },
{
    let ghost items = repositories_view(repositories@);
    let ghost predicate = named_like(name@);
    let mut i: usize = 0;
    while i < repositories.len()
        invariant
            i <= repositories@.len(),
            items == repositories_view(repositories@),
            predicate == named_like(name@),
            first_position(items, predicate) == first_position_from(items, predicate, i as int),
        decreases repositories.len() - i,
    {
        if repositories[i].name == *name {
            return Some(i);
        }
        i = i + 1;
    }
    None
}

fn position_of_commit(commits: &Vec<Commit>, sha: &String) -> (found: Option<usize>)
    ensures
        match found {
            Some(index) => index < commits@.len() && first_position(commits_view(commits@), with_sha(sha@)) == Some(index as int),
            None => first_position(commits_view(commits@), with_sha(sha@)) is None,
        },
{
    let ghost items = commits_view(commits@);
    let ghost predicate = with_sha(sha@);
    let mut i: usize = 0;
    while i < commits.len()
        invariant
            i <= commits@.len(),
            items == commits_view(commits@),
            predicate == with_sha(sha@),
            first_position(items, predicate) == first_position_from(items, predicate, i as int),
        decreases commits.len() - i,
    {
        if commits[i].sha == *sha {
            return Some(i);
        }
        i = i + 1;
    }
    None
}

impl App {
    /// An application over `inbox`: normal mode, repository pane focused, everything at the top;
    /// a live inbox also gets a fresh loading state.
    pub fn new(inbox: Inbox) -> (app: App)
        ensures
            app@ == initial_view(inbox.source, repositories_view(inbox.repositories@)).normalized(),
            app.live_well_keyed(),
    {
        let is_demo = inbox.child_panes_available();
        let status = if is_demo {
            String::from_str("Offline fictional demo")
        } else {
            String::from_str("GitHub loading started")
        };
        let live = if is_demo {
            None
        } else {
            Some(LiveInboxState::new())
        };
        let mut app = App {
            inbox,
            terminal_width: 0,
            terminal_height: 0,
            mode: Mode::Normal,
            focus: Pane::Repository,
            repositories: ListPosition { selected: 0, scroll: 0 },
            commits: ListPosition { selected: 0, scroll: 0 },
            files: ListPosition { selected: 0, scroll: 0 },
            diff_scroll: 0,
            viewport_heights: [0, 0, 0, 0],
            pending_g: false,
            search_query: String::new(),
            status,
            should_quit: false,
            live,
        };
        assert(app@ =~= initial_view(app.inbox.source, repositories_view(app.inbox.repositories@)));
        app.normalize();
        app
    }

    /// Sets the viewport height of each pane (repositories, commits, files, diff), as a layout
    /// does; nothing is normalized.
    pub fn set_viewport_heights(&mut self, heights: [usize; 4])
        ensures
            final(self)@ == (AppView { viewport_heights: heights@, ..old(self)@ }),
            final(self).live_well_keyed() == old(self).live_well_keyed(),
    {
        self.viewport_heights = heights;
    }

    /// Moves the focus to `pane`; nothing is normalized.
    pub fn set_focus(&mut self, pane: Pane)
        ensures
            final(self)@ == (AppView { focus: pane, ..old(self)@ }),
            final(self).live_well_keyed() == old(self).live_well_keyed(),
    {
        self.focus = pane;
    }

    /// Places the selections and the diff scroll as given; nothing is normalized.
    pub fn set_positions(
        &mut self,
        repositories: ListPosition,
        commits: ListPosition,
        files: ListPosition,
        diff_scroll: usize,
    )
        ensures
            final(self)@ == (AppView {
                repository_position: repositories,
                commit_position: commits,
                file_position: files,
                diff_scroll,
                ..old(self)@
            }),
            final(self).live_well_keyed() == old(self).live_well_keyed(),
    {
        self.repositories = repositories;
        self.commits = commits;
        self.files = files;
        self.diff_scroll = diff_scroll;
    }

    /// Whether a loader event can be applied: an index at the end of the machine's range, or a
    /// failure past every count, cannot.
    pub fn accepts_load_event(&self, event: &crate::loading::LoadEvent) -> (accepted: bool)
        ensures
            accepted == self@.accepts(*event),
    {
        match &self.live {
            None => true,
            Some(live) => live.accepts(event),
        }
    }

    /// Applies a loader event where it can be applied (see `accepts_load_event`), and says
    /// whether it was.
    pub fn offer_load_event(&mut self, event: crate::loading::LoadEvent) -> (applied: bool)
        requires
            old(self).live_well_keyed(),
        ensures
            applied == old(self)@.accepts(event),
            applied ==> final(self)@ == old(self)@.after_load_event(event),
            !applied ==> final(self)@ == old(self)@,
            final(self).live_well_keyed(),
    {
        if self.accepts_load_event(&event) {
            self.apply_load_event(event);
            true
        } else {
            false
        }
    }

    /// Applies a loader event (see `AppView::after_load_event`).
    pub fn apply_load_event(&mut self, event: crate::loading::LoadEvent)
        requires
            old(self)@.accepts(event),
            old(self).live_well_keyed(),
        ensures
            final(self)@ == old(self)@.after_load_event(event),
            final(self).live_well_keyed(),
    {
        if self.live.is_none() {
            return;
        }
        let ghost before = self@;
        let selected_repository = match self.current_repository() {
            Some(repository) => Some(repository.name.clone()),
            None => None,
        };
        let selected_commit = match self.current_commit() {
            Some(commit) => Some(commit.sha.clone()),
            None => None,
        };
        let changes = match &event {
            crate::loading::LoadEvent::RepositorySnapshot { .. } => true,
            crate::loading::LoadEvent::RepositoryLoaded { .. } => true,
            _ => false,
        };
        let ghost event_copy = event;
        let mut live = self.live.take().unwrap();
        live.apply_event(event, &self.inbox.repositories);
        if changes {
            self.inbox.repositories = live.loaded_repository_copies();
        }
        self.live = Some(live);
        let ghost updated = self@;
        assert(updated =~= (AppView {
            live: Some(before.live.unwrap().after_event(event_copy, before.repositories)),
            repositories: if crate::live::changes_repositories(event_copy) {
                crate::live::loaded_repositories(
                    before.live.unwrap().after_event(event_copy, before.repositories).loaded,
                )
            } else {
                before.repositories
            },
            ..before
        }));
        match selected_repository {
            Some(name) => {
                match position_of_repository(&self.inbox.repositories, &name) {
                    Some(index) => {
                        self.repositories.selected = index;
                        match selected_commit {
                            Some(sha) => {
                                match position_of_commit(
                                    &self.inbox.repositories[index].commits,
                                    &sha,
                                ) {
                                    Some(position) => {
                                        self.commits.selected = position;
                                    },
                                    None => {},
                                }
                            },
                            None => {},
                        }
                    },
                    None => {},
                }
            },
            None => {},
        }
        assert(self@ =~= updated.reselected(before.current_repository(), before.current_commit()));
        self.normalize();
    }
}

} // verus!
