use reviewbox::display::{
    centered_rect, diff_number, failure_category_label, failure_text, list_row, mode_badge,
    pane_frame_text, phase_text, sanitize_display_text, status_text, wrap_text, Area,
};
use reviewbox::app::App;
use reviewbox::day::{parse_date, parse_timezone, select_day, TimezoneSource};
use reviewbox::inbox::{Inbox, Repository};
use reviewbox::live::LivePhase;
use reviewbox::loading::{
    FailureCategory, FailureScope, LoadEvent, LoadFailure, LoadProgress, LoadStatus,
    LoadedRepository, RepositoryCoverage,
};
use reviewbox::navigation::pane_viewport_heights;
use reviewbox::pane::{Mode, Pane};
use reviewbox::terminal::{release_order, Held, TerminalStep};

#[test]
fn control_characters_are_neutralized() {
    assert_eq!(sanitize_display_text("a\tb"), "a    b");
    assert_eq!(sanitize_display_text("line\r"), "line");
    assert_eq!(sanitize_display_text("x\u{1b}[2Jy"), "x\u{fffd}[2Jy");
    assert_eq!(sanitize_display_text("\u{85}é\u{7f}"), "\u{fffd}é\u{fffd}");
    assert_eq!(sanitize_display_text("a\r\r"), "a\u{fffd}");
    assert_eq!(sanitize_display_text(""), "");
}

#[test]
fn fatal_authentication_missing_gh_permission_and_rate_limit_are_distinct() {
    let mut seen = Vec::new();
    for (category, expected) in [
        (FailureCategory::Authentication, "authentication failed"),
        (FailureCategory::MissingGh, "GitHub CLI not found"),
        (
            FailureCategory::PermissionOrNotFound,
            "permission denied or resource unavailable",
        ),
        (FailureCategory::RateLimit, "GitHub API rate limit reached"),
    ] {
        let line = phase_text(LivePhase::Fatal, Some(category));
        assert!(line.contains("LOAD FAILED"));
        assert!(line.contains(expected), "missing {expected:?}");
        assert_eq!(failure_category_label(category), expected);
        assert!(!seen.contains(&line));
        seen.push(line);
    }
    assert_eq!(
        phase_text(LivePhase::Fatal, None),
        "LOAD FAILED — unknown GitHub failure"
    );
}

#[test]
fn complete_empty_day_and_no_owned_repositories_are_not_conflated() {
    let none = phase_text(LivePhase::NoOwnedRepositories, None);
    assert!(none.contains("NO OWNED REPOSITORIES"));
    assert!(!none.contains("EMPTY DAY"));
    let empty = phase_text(LivePhase::EmptyDay, None);
    assert!(empty.contains("EMPTY DAY"));
    assert!(!empty.contains("NO OWNED REPOSITORIES"));
    let incomplete = phase_text(LivePhase::Incomplete, None);
    assert!(incomplete.contains("INCOMPLETE RESULTS"));
    assert!(!incomplete.contains("COMPLETE — daily inbox loaded"));
}

#[test]
fn progress_phases_name_their_counts() {
    assert_eq!(
        phase_text(
            LivePhase::Discovering {
                page: 32,
                owned_repositories: 7
            },
            None
        ),
        "Discovering repositories: page 32, 7 owned found"
    );
    assert_eq!(
        phase_text(
            LivePhase::LoadingCommits {
                repository: 2,
                branch: 1,
                branches: 3,
                page: 0,
                accepted_commits: 12
            },
            None
        ),
        "Loading commits: repository 2, branch 1/3, page 1, 12 accepted"
    );
    assert_eq!(
        phase_text(LivePhase::Authenticating, None),
        "Loading: checking gh authentication"
    );
}

#[test]
fn failures_say_where_what_and_the_http_status() {
    let failure = LoadFailure {
        category: FailureCategory::RateLimit,
        scope: FailureScope::Branch {
            repository_index: 0,
            branch_index: 1,
        },
        http_status: Some(403),
    };
    let text = failure_text(&failure);
    assert_eq!(
        text,
        "repository 1, branch 2: the GitHub API rate limit was reached (HTTP 403)"
    );
    assert!(text.contains("rate limit was reached"));
    assert_eq!(
        failure_text(&LoadFailure {
            category: FailureCategory::Offline,
            scope: FailureScope::Discovery,
            http_status: None,
        }),
        "repository discovery: the network is unavailable"
    );
}

#[test]
fn pending_prefix_is_visible() {
    assert_eq!(mode_badge(Mode::Normal, true), " NORMAL g ");
    assert_eq!(mode_badge(Mode::Normal, false), " NORMAL ");
    assert_eq!(
        mode_badge(
            Mode::SearchEntry {
                target: Pane::Commit
            },
            true
        ),
        " SEARCH "
    );
    assert_eq!(
        mode_badge(
            Mode::Help {
                previous_focus: Pane::Commit
            },
            false
        ),
        " HELP "
    );
}

#[test]
fn status_and_frames_name_the_pane_and_position() {
    assert_eq!(
        status_text(Pane::Commit, "Ready"),
        " Commit • Ready • h/l focus • j/k move • / search • ? help • q quit"
    );
    assert_eq!(pane_frame_text(Pane::File, 2, 8), " File 2/8 ");
    assert_eq!(list_row("src/lib.rs", true), "> src/lib.rs");
    assert_eq!(list_row("src/lib.rs", false), "  src/lib.rs");
    assert_eq!(diff_number(0), "   1 ");
    assert_eq!(diff_number(12344), "12345 ");
}

#[test]
fn modal_overlays_are_safe_at_constrained_and_zero_like_dimensions() {
    let area = Area {
        x: 10,
        y: 20,
        width: 0,
        height: 0,
    };
    assert_eq!(centered_rect(area, 72, 15).width, 0);
    let area = Area {
        x: 0,
        y: 0,
        width: 120,
        height: 32,
    };
    assert_eq!(
        centered_rect(area, 64, 5),
        Area {
            x: 28,
            y: 13,
            width: 64,
            height: 5
        }
    );
    let area = Area {
        x: u16::MAX,
        y: u16::MAX,
        width: 10,
        height: 10,
    };
    assert_eq!(centered_rect(area, 2, 2).x, u16::MAX);
}

#[test]
fn wrapping_keeps_every_character_and_respects_width() {
    assert_eq!(wrap_text("", 10), [""]);
    assert_eq!(wrap_text("abcdef", 4), ["abcd", "ef"]);
    assert_eq!(wrap_text("abc", 0), ["a", "b", "c"]);
    assert_eq!(wrap_text("日本語", 4), ["日本", "語"]);
    assert_eq!(wrap_text("日", 1), ["日"]);
}

#[test]
fn constrained_layout_uses_safe_fallback() {
    for (width, height) in [(1, 1), (10, 3), (59, 15), (40, 8)] {
        assert_eq!(pane_viewport_heights(width, height), [0; 4]);
    }
    assert_eq!(pane_viewport_heights(60, 16), [3, 2, 4, 13]);
}

#[test]
fn help_bindings_are_listed_once_each() {
    let bindings = reviewbox::pane::help_bindings();
    assert!(!bindings.is_empty());
    for (index, binding) in bindings.iter().enumerate() {
        assert!(!binding.keys.is_empty());
        assert!(!binding.action.is_empty());
        assert!(bindings[index + 1..].iter().all(|other| other.keys != binding.keys));
    }
}

#[test]
fn incomplete_outcome_warns_without_a_completion_claim() {
    let selection = select_day(
        parse_date("2024-01-15").unwrap(),
        parse_timezone("Etc/UTC").unwrap(),
        TimezoneSource::Explicit,
    )
    .unwrap();
    let mut app = App::new(Inbox::live(selection));
    app.apply_load_event(LoadEvent::RepositoryLoaded {
        repository_index: 0,
        repository: LoadedRepository {
            repository: Repository {
                name: "fixture/partial".to_owned(),
                commits: Vec::new(),
            },
            branch_count: 2,
            coverage: RepositoryCoverage::BranchesIncomplete { failed_branches: 1 },
        },
    });
    app.apply_load_event(LoadEvent::Failure(LoadFailure {
        category: FailureCategory::RateLimit,
        scope: FailureScope::Branch {
            repository_index: 0,
            branch_index: 1,
        },
        http_status: Some(403),
    }));
    app.apply_load_event(LoadEvent::Finished {
        status: LoadStatus::Incomplete,
        progress: LoadProgress {
            repositories_discovered: 1,
            repositories_processed: 1,
            branches_discovered: 2,
            branches_processed: 2,
            commits_loaded: 0,
        },
    });

    let state = app.live_state().unwrap();
    let phase = phase_text(state.phase, None);
    assert!(phase.contains("INCOMPLETE RESULTS"));
    assert!(!phase.contains("COMPLETE — daily inbox loaded"));
    assert!(!phase.contains("EMPTY DAY"));
    assert!(failure_text(&state.failures()[0]).contains("rate limit was reached"));
    assert_eq!(state.incomplete_repositories(), 1);
}

#[test]
fn live_summary_notes_the_utc_fallback_and_lists_the_counts() {
    let selection = reviewbox::day::select_day(
        reviewbox::day::parse_date("2024-01-15").unwrap(),
        reviewbox::day::parse_timezone("Etc/UTC").unwrap(),
        reviewbox::day::TimezoneSource::Fallback,
    )
    .unwrap();
    let state = reviewbox::live::LiveInboxState::new();
    let lines = reviewbox::display::live_summary_lines(&selection, &state);
    assert_eq!(lines[0], "Selected day: 2024-01-15");
    assert_eq!(lines[1], "Timezone: Etc/UTC (local detection failed; UTC fallback)");
    assert_eq!(lines[2], "");
    assert_eq!(lines[4], "Repositories: 0/0 processed");
    assert_eq!(lines[5], "Branches: 0/0 processed");
    assert_eq!(lines[6], "Commits available: 0");
    assert_eq!(lines.len(), 7);
}

#[test]
fn release_order_gives_back_in_reverse() {
    let all = Held { raw_mode: true, alternate_screen: true, cursor_hidden: true };
    assert_eq!(
        release_order(&all),
        [TerminalStep::ShowCursor, TerminalStep::LeaveAlternateScreen, TerminalStep::DisableRawMode]
    );
    let raw_only = Held { raw_mode: true, alternate_screen: false, cursor_hidden: false };
    assert_eq!(release_order(&raw_only), [TerminalStep::DisableRawMode]);
}
