use vstd::prelude::*;

use crate::app::{initial_view, lemma_normalized_is_normal, lemma_normalized_keeps, AppView};
use crate::inbox::{CommitView, InboxSource, RepositoryView};
use crate::live::MAX_VISIBLE_FAILURES;
use crate::loading::LoadEvent;
use crate::pane::{Command, Input, Mode, Pane};

verus! {

/// Every state that the application reaches is normal: a new application, and the state after
/// any command, resize or loader event, or after any key from a normal state.
#[verifier::rlimit(60)]
pub proof fn law_reachable_states_are_normal(
    state: AppView,
    command: Command,
    input: Input,
    width: u16,
    height: u16,
    event: LoadEvent,
    source: InboxSource,
    repositories: Seq<RepositoryView>,
)
    requires
        state.is_normal(),
    ensures
        initial_view(source, repositories).normalized().is_normal(),
        state.after_command(command).is_normal(),
        state.after_input(input).is_normal(),
        state.after_resize(width, height).is_normal(),
        state.after_load_event(event).is_normal(),
{
    lemma_normalized_is_normal(initial_view(source, repositories));
    lemma_after_command_is_normal(state, command);
    lemma_after_input_is_normal(state, input);
    let resized = AppView {
        terminal_width: width,
        terminal_height: height,
        viewport_heights: crate::navigation::spec_viewport_heights(width as int, height as int),
        ..state
    };
    lemma_normalized_is_normal(resized);
    match state.live {
        None => {},
        Some(live) => {
            let next = live.after_event(event, state.repositories);
            let repositories = if crate::live::changes_repositories(event) {
                crate::live::loaded_repositories(next.loaded)
            } else {
                state.repositories
            };
            let updated = AppView { live: Some(next), repositories, ..state }.reselected(
                state.current_repository(),
                state.current_commit(),
            );
            lemma_normalized_is_normal(updated);
        },
    }
}

#[verifier::rlimit(60)]
proof fn lemma_after_command_is_normal(state: AppView, command: Command)
    requires
        state.viewport_heights.len() == 4,
    ensures
        state.after_command(command).is_normal(),
        state.after_command(command).viewport_heights == state.viewport_heights,
{
    if command == Command::GPrefix {
        if state.pending_g {
            let first = AppView { pending_g: false, ..state }.after_normal_command(Command::GPrefix);
            lemma_normalized_is_normal(first);
            lemma_normalized_keeps(first);
        } else {
            let waiting = AppView { pending_g: true, status: "g: waiting for second g"@, ..state };
            lemma_normalized_is_normal(waiting);
            lemma_normalized_keeps(waiting);
        }
    } else {
        let cleared = AppView { pending_g: false, ..state };
        lemma_normalized_is_normal(cleared.after_normal_command(command));
        lemma_normalized_keeps(cleared.after_normal_command(command));
        lemma_normalized_is_normal(cleared);
        lemma_normalized_keeps(cleared);
    }
}

proof fn lemma_after_input_is_normal(state: AppView, input: Input)
    requires
        state.is_normal(),
    ensures
        state.after_input(input).is_normal(),
{
    if input == Input::Quit {
        lemma_quit_input(state);
    } else {
        match state.mode {
            Mode::Normal => lemma_normal_input_is_normal(state, input),
            Mode::SearchEntry { target } => {
                lemma_search_input_keeps_viewports(state, target, input);
                lemma_normalized_is_normal(state.after_search_input(target, input));
                assert(state.after_input(input) == state.after_search_input(
                    target,
                    input,
                ).normalized());
            },
            Mode::Help { previous_focus } => {
                lemma_normalized_is_normal(state.after_help_input(previous_focus, input));
                assert(state.after_input(input) == state.after_help_input(
                    previous_focus,
                    input,
                ).normalized());
            },
        }
    }
}

#[verifier::rlimit(60)]
proof fn lemma_quit_input(state: AppView)
    requires
        state.is_normal(),
    ensures
        state.after_input(Input::Quit) == (AppView {
            pending_g: false,
            should_quit: true,
            status: "Closing ReviewBox"@,
            ..state
        }),
        state.after_input(Input::Quit).is_normal(),
{
}

proof fn lemma_normal_input_is_normal(state: AppView, input: Input)
    requires
        state.is_normal(),
        state.mode is Normal,
        input != Input::Quit,
    ensures
        state.after_input(input).is_normal(),
{
    assert(state.after_input(input) == state.after_normal_input(input));
    match input {
        Input::Character('/') => lemma_normalized_is_normal(
            AppView {
                pending_g: false,
                search_query: Seq::empty(),
                mode: Mode::SearchEntry { target: state.focus },
                status: "Searching "@ + crate::pane::pane_title(state.focus),
                ..state
            },
        ),
        Input::Character('?') => lemma_normalized_is_normal(
            AppView {
                pending_g: false,
                mode: Mode::Help { previous_focus: state.focus },
                status: "Keyboard help open"@,
                ..state
            },
        ),
        _ => {
            lemma_after_command_is_normal(state, crate::app::command_for(input));
            lemma_normalized_is_normal(state.after_command(crate::app::command_for(input)));
        },
    }
}

proof fn lemma_search_input_keeps_viewports(state: AppView, target: Pane, input: Input)
    ensures
        state.after_search_input(target, input).viewport_heights == state.viewport_heights,
        state.after_search_input(target, input).should_quit == state.should_quit,
{
    crate::app::lemma_after_search_keeps(AppView { pending_g: false, ..state }, target);
}

} // verus!

verus! {

/// In the search prompt a printable key only extends the query: it neither moves, nor changes
/// the focus or the mode, nor quits.
#[verifier::rlimit(60)]
pub proof fn law_search_prompt_captures_characters(state: AppView, target: Pane, character: char)
    requires
        state.is_normal(),
        state.mode == (Mode::SearchEntry { target }),
    ensures
        state.after_input(Input::Character(character)) == (AppView {
            pending_g: false,
            search_query: state.search_query.push(character),
            ..state
        }),
{
    let next = AppView {
        pending_g: false,
        search_query: state.search_query.push(character),
        ..state
    };
    lemma_normalized_is_normal(next);
    assert(state.after_search_input(target, Input::Character(character)) == next);
}

/// Escape in the search prompt discards the query and returns to normal mode without moving.
pub proof fn law_search_escape_cancels(state: AppView, target: Pane)
    requires
        state.is_normal(),
        state.mode == (Mode::SearchEntry { target }),
    ensures
        state.after_input(Input::Escape) == (AppView {
            pending_g: false,
            search_query: Seq::empty(),
            mode: Mode::Normal,
            status: "Search cancelled"@,
            ..state
        }),
{
    let next = AppView {
        pending_g: false,
        search_query: Seq::empty(),
        mode: Mode::Normal,
        status: "Search cancelled"@,
        ..state
    };
    lemma_normalized_is_normal(next);
    assert(state.after_search_input(target, Input::Escape) == next);
}

/// In help every key but Escape and the global quit is ignored.
pub proof fn law_help_ignores_other_keys(state: AppView, previous_focus: Pane, input: Input)
    requires
        state.is_normal(),
        state.mode == (Mode::Help { previous_focus }),
        input != Input::Escape,
        input != Input::Quit,
    ensures
        state.after_input(input) == (AppView { pending_g: false, ..state }),
{
    lemma_normalized_is_normal(AppView { pending_g: false, ..state });
    assert(state.after_help_input(previous_focus, input) == AppView { pending_g: false, ..state });
}

/// Escape closes help and gives the focus back to the pane it was opened from, as far as the
/// data allows.
pub proof fn law_help_escape_restores_focus(state: AppView, previous_focus: Pane)
    requires
        state.is_normal(),
        state.mode == (Mode::Help { previous_focus }),
    ensures
        state.after_input(Input::Escape).mode == Mode::Normal,
        state.after_input(Input::Escape).focus == crate::app::leftmost(
            previous_focus,
            state.deepest_pane(),
        ),
        state.after_input(Input::Escape).selected(Pane::Repository) == state.selected(
            Pane::Repository,
        ),
        state.after_input(Input::Escape).selected(Pane::Commit) == state.selected(Pane::Commit),
        state.after_input(Input::Escape).selected(Pane::File) == state.selected(Pane::File),
        state.after_input(Input::Escape).selected(Pane::Diff) == state.selected(Pane::Diff),
{
    let closed = AppView {
        pending_g: false,
        focus: previous_focus,
        mode: Mode::Normal,
        status: "Keyboard help closed"@,
        ..state
    };
    assert(state.after_help_input(previous_focus, Input::Escape) == closed);
    reveal(AppView::normalized);
    let s1 = closed.normalized_repositories();
    let s2 = s1.normalized_commits();
    let s3 = s2.normalized_files();
    assert(s1 == closed);
    assert(s2 == closed);
    assert(s3 == closed);
}

/// Only an explicit quit ends the application: the global quit key in any mode, or `q` in
/// normal mode.
pub proof fn law_quit_is_explicit(state: AppView, input: Input)
    requires
        state.is_normal(),
    ensures
        state.after_input(input).should_quit == (state.should_quit || input == Input::Quit || ((
        state.mode is Normal) && input == Input::Character('q'))),
{
    if input != Input::Quit {
        match state.mode {
            Mode::Normal => {
                assert(state.after_input(input) == state.after_normal_input(input));
                let command = crate::app::command_for(input);
                lemma_normalized_keeps(
                    AppView {
                        pending_g: false,
                        search_query: Seq::empty(),
                        mode: Mode::SearchEntry { target: state.focus },
                        status: "Searching "@ + crate::pane::pane_title(state.focus),
                        ..state
                    },
                );
                lemma_normalized_keeps(
                    AppView {
                        pending_g: false,
                        mode: Mode::Help { previous_focus: state.focus },
                        status: "Keyboard help open"@,
                        ..state
                    },
                );
                lemma_normalized_keeps(state.after_command(command));
                lemma_command_quits_only_on_quit(state, command);
            },
            Mode::SearchEntry { target } => {
                lemma_search_input_keeps_quit(state, target, input);
                lemma_normalized_keeps(state.after_search_input(target, input));
            },
            Mode::Help { previous_focus } => {
                lemma_normalized_keeps(state.after_help_input(previous_focus, input));
            },
        }
    }
}

proof fn lemma_command_quits_only_on_quit(state: AppView, command: Command)
    ensures
        state.after_command(command).should_quit == (state.should_quit || ((state.mode is Normal)
            && command == Command::Quit)),
{
    let cleared = AppView { pending_g: false, ..state };
    lemma_normalized_keeps(cleared.after_normal_command(command));
    lemma_normalized_keeps(cleared);
    lemma_normalized_keeps(AppView { pending_g: true, status: "g: waiting for second g"@, ..state });
}

proof fn lemma_search_input_keeps_quit(state: AppView, target: Pane, input: Input)
    ensures
        state.after_search_input(target, input).should_quit == state.should_quit,
{
    lemma_search_input_keeps_viewports(state, target, input);
}

/// Escape in the repository pane neither quits nor moves the focus.
pub proof fn law_escape_at_root_does_not_quit(state: AppView)
    requires
        state.is_normal(),
        state.mode is Normal,
        state.focus == Pane::Repository,
    ensures
        state.after_input(Input::Escape).focus == Pane::Repository,
        state.after_input(Input::Escape).should_quit == state.should_quit,
{
    law_quit_is_explicit(state, Input::Escape);
    let back = AppView { pending_g: false, ..state }.after_normal_command(Command::Back);
    lemma_normalized_is_normal(back);
}

/// `g` followed by `g` moves the focused pane to its first row and leaves no `g` pending.
#[verifier::rlimit(60)]
pub proof fn law_gg_moves_to_first(state: AppView)
    requires
        state.is_normal(),
        state.mode is Normal,
        !state.pending_g,
    ensures
        state.after_input(Input::Character('g')).after_input(Input::Character('g')).selected(
            state.focus,
        ) == 0,
        !state.after_input(Input::Character('g')).after_input(Input::Character('g')).pending_g,
{
    let waiting = AppView { pending_g: true, status: "g: waiting for second g"@, ..state };
    lemma_normalized_is_normal(waiting);
    assert(state.after_input(Input::Character('g')) == waiting);
    let first = AppView { pending_g: false, ..waiting }.after_normal_command(Command::GPrefix);
    lemma_normalized_is_normal(first);
    assert(waiting.after_input(Input::Character('g')) == first.normalized().normalized());
    assert(first.selected(state.focus) == 0);
    assert(!first.pending_g);
    reveal(AppView::normalized);
}

/// At most three failures are listed; every further failure is counted instead.
pub proof fn law_failures_are_bounded(state: AppView, failure: crate::loading::LoadFailure)
    requires
        state.live is Some,
        state.live.unwrap().failures.len() <= MAX_VISIBLE_FAILURES,
        state.accepts(LoadEvent::Failure(failure)),
    ensures
        state.after_load_event(LoadEvent::Failure(failure)).live.unwrap().failures.len()
            <= MAX_VISIBLE_FAILURES,
        state.after_load_event(LoadEvent::Failure(failure)).live.unwrap().failures.len()
            + state.after_load_event(LoadEvent::Failure(failure)).live.unwrap().omitted_failures
            == state.live.unwrap().failures.len() + state.live.unwrap().omitted_failures + 1,
{
    let event = LoadEvent::Failure(failure);
    let next = state.live.unwrap().after_event(event, state.repositories);
    let updated = AppView { live: Some(next), ..state }.reselected(
        state.current_repository(),
        state.current_commit(),
    );
    assert(updated.live == Some(next));
    lemma_normalized_keeps(updated);
}

/// The first position found by `first_position` holds an element that satisfies the predicate,
/// and an element that satisfies it guarantees that one is found.
pub proof fn lemma_first_position<T>(items: Seq<T>, predicate: spec_fn(T) -> bool, k: int)
    requires
        0 <= k < items.len(),
        predicate(items[k]),
    ensures
        crate::app::first_position(items, predicate) is Some,
        crate::app::first_position(items, predicate).unwrap() <= k,
{
    lemma_first_position_from(items, predicate, 0, k);
}

proof fn lemma_first_position_from<T>(items: Seq<T>, predicate: spec_fn(T) -> bool, start: int, k: int)
    requires
        0 <= start <= k < items.len(),
        predicate(items[k]),
    ensures
        crate::app::first_position_from(items, predicate, start) is Some,
        crate::app::first_position_from(items, predicate, start).unwrap() <= k,
    decreases k - start,
{
    if start < k && !predicate(items[start]) {
        lemma_first_position_from(items, predicate, start + 1, k);
    }
}

/// What `first_position` finds is a position of the sequence whose element satisfies the
/// predicate.
pub proof fn lemma_first_position_found<T>(items: Seq<T>, predicate: spec_fn(T) -> bool)
    requires
        crate::app::first_position(items, predicate) is Some,
    ensures
        0 <= crate::app::first_position(items, predicate).unwrap() < items.len(),
        predicate(items[crate::app::first_position(items, predicate).unwrap()]),
{
    lemma_first_position_found_from(items, predicate, 0);
}

proof fn lemma_first_position_found_from<T>(items: Seq<T>, predicate: spec_fn(T) -> bool, k: int)
    requires
        crate::app::first_position_from(items, predicate, k) is Some,
    ensures
        0 <= crate::app::first_position_from(items, predicate, k).unwrap() < items.len(),
        predicate(items[crate::app::first_position_from(items, predicate, k).unwrap()]),
    decreases items.len() - k,
{
    if 0 <= k < items.len() && !predicate(items[k]) {
        lemma_first_position_found_from(items, predicate, k + 1);
    }
}

/// A repository snapshot keeps the selection on the same repository name and full commit SHA
/// when the first repository of that name in the new list still has that commit.
pub proof fn law_snapshot_keeps_selection(
    state: AppView,
    repository_index: usize,
    repository: crate::loading::LoadedRepository,
    commit_position: int,
)
    requires
        state.is_normal(),
        state.live is Some,
        state.accepts(LoadEvent::RepositorySnapshot { repository_index, repository }),
        state.current_repository() is Some,
        state.current_commit() is Some,
        ({
            let next = state.live.unwrap().after_event(
                LoadEvent::RepositorySnapshot { repository_index, repository },
                state.repositories,
            );
            let repositories = crate::live::loaded_repositories(next.loaded);
            let named = crate::app::first_position(
                repositories,
                crate::app::named_like(state.current_repository().unwrap().name),
            );
            &&& repositories.len() <= usize::MAX
            &&& commit_position <= usize::MAX
            &&& named is Some
            &&& 0 <= commit_position < repositories[named.unwrap()].commits.len()
            &&& repositories[named.unwrap()].commits[commit_position].sha
                == state.current_commit().unwrap().sha
        }),
    ensures
        ({
            let after = state.after_load_event(
                LoadEvent::RepositorySnapshot { repository_index, repository },
            );
            &&& after.current_repository() is Some
            &&& after.current_repository().unwrap().name == state.current_repository().unwrap().name
            &&& after.current_commit() is Some
            &&& after.current_commit().unwrap().sha == state.current_commit().unwrap().sha
        }),
{
    let event = LoadEvent::RepositorySnapshot { repository_index, repository };
    let next = state.live.unwrap().after_event(event, state.repositories);
    let repositories = crate::live::loaded_repositories(next.loaded);
    let previous = state.current_repository().unwrap();
    let selected = state.current_commit().unwrap();
    let by_name = crate::app::named_like(previous.name);
    lemma_first_position_found(repositories, by_name);
    let index = crate::app::first_position(repositories, by_name).unwrap();
    let by_sha = crate::app::with_sha(selected.sha);
    lemma_first_position(repositories[index].commits, by_sha, commit_position);
    lemma_first_position_found(repositories[index].commits, by_sha);
    let position = crate::app::first_position(repositories[index].commits, by_sha).unwrap();
    let updated = AppView { live: Some(next), repositories, ..state };
    let reselected = updated.reselected(state.current_repository(), state.current_commit());
    assert(reselected.repository_position.selected == index);
    assert(reselected.commit_position.selected == position);
    let s1 = reselected.normalized_repositories();
    assert(s1.repository_position.selected == index);
    let s2 = s1.normalized_commits();
    assert(s2.commit_position.selected == position);
    let s3 = s2.normalized_files();
    let s4 = s3.clamped_diff_and_focus();
    assert(state.after_load_event(event) == s4) by {
        reveal(AppView::normalized);
    }
}

/// Resizing the terminal keeps the focus and every selection of a normal state: only how the
/// lists are scrolled adapts to the new size.
pub proof fn law_resize_keeps_focus_and_selections(state: AppView, width: u16, height: u16)
    requires
        state.is_normal(),
    ensures
        state.after_resize(width, height).focus == state.focus,
        state.after_resize(width, height).repository_position.selected == state.repository_position.selected,
        state.after_resize(width, height).commit_position.selected == state.commit_position.selected,
        state.after_resize(width, height).file_position.selected == state.file_position.selected,
{
    let resized = AppView {
        terminal_width: width,
        terminal_height: height,
        viewport_heights: crate::navigation::spec_viewport_heights(width as int, height as int),
        ..state
    };
    assert(state.after_resize(width, height) == resized.normalized());
    let r = resized.normalized_repositories();
    assert(r.repository_position.selected == state.repository_position.selected);
    assert(r.current_commits() == state.current_commits());
    let c = r.normalized_commits();
    assert(c.commit_position.selected == state.commit_position.selected);
    assert(c.current_files() == state.current_files());
    let f = c.normalized_files();
    assert(f.file_position.selected == state.file_position.selected);
    assert(f.deepest_pane() == state.deepest_pane());
    let done = f.clamped_diff_and_focus();
    assert(done.focus == state.focus);
    assert(done.repository_position == r.repository_position);
    assert(done.commit_position == c.commit_position);
    assert(done.file_position == f.file_position);
    assert(resized.normalized() == done) by {
        reveal(AppView::normalized);
    }
}

} // verus!
