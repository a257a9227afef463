use reviewbox::app::App;
use reviewbox::day::{parse_date, parse_timezone, select_day, TimezoneSource};
use reviewbox::fixture::DemoFixture;
use reviewbox::inbox::{ChildPane, Commit, FileChange, GitHubAuthor, Inbox, Repository};
use reviewbox::loading::{
    FailureCategory, FailureScope, LoadEvent, LoadFailure, LoadedRepository, RepositoryCoverage,
};
use reviewbox::navigation::ListPosition;
use reviewbox::pane::{Command, Input, Mode, Pane};

fn files() -> Vec<FileChange> {
    ["one.rs", "two.rs", "three.rs"]
        .into_iter()
        .map(|path| FileChange {
            path: path.to_owned(),
            diff_lines: ChildPane::Available(
                ["one", "two", "three", "four", "five", "six"]
                    .into_iter()
                    .map(str::to_owned)
                    .collect(),
            ),
        })
        .collect()
}

fn commit(sha: &str, subject: &str, files: Vec<FileChange>) -> Commit {
    Commit {
        sha: sha.to_owned(),
        subject: subject.to_owned(),
        author: GitHubAuthor {
            login: "fictional".to_owned(),
        },
        authored_at: 1_704_067_200,
        files: ChildPane::Available(files),
    }
}

fn commits() -> Vec<Commit> {
    vec![
        commit("1111111000000000000000000000000000000000", "one", files()),
        commit("2222222000000000000000000000000000000000", "two", files()),
        commit("3333333000000000000000000000000000000000", "three", files()),
    ]
}

fn repositories() -> Vec<Repository> {
    ["fictional/one", "fictional/two", "fictional/three"]
        .into_iter()
        .map(|name| Repository {
            name: name.to_owned(),
            commits: commits(),
        })
        .collect()
}

fn app() -> App {
    let mut app = App::new(Inbox::demo(repositories()));
    app.set_viewport_heights([2; 4]);
    app
}

#[test]
fn focus_moves_with_h_l_and_open_back() {
    let mut app = app();

    app.apply(Command::FocusNext);
    assert_eq!(app.focus(), Pane::Commit);
    app.apply(Command::Open);
    assert_eq!(app.focus(), Pane::File);
    app.apply(Command::FocusPrevious);
    assert_eq!(app.focus(), Pane::Commit);
    app.apply(Command::Open);
    app.apply(Command::Open);
    assert_eq!(app.focus(), Pane::Diff);
    app.apply(Command::Back);
    assert_eq!(app.focus(), Pane::File);
}

#[test]
fn escape_at_root_does_not_quit() {
    let mut app = app();

    app.apply(Command::Back);

    assert_eq!(app.focus(), Pane::Repository);
    assert!(!app.should_quit());
}

#[test]
fn list_movement_clamps_and_resets_children() {
    let mut app = app();
    app.apply(Command::FocusNext);
    app.apply(Command::MoveDown);
    app.apply(Command::FocusNext);
    app.apply(Command::MoveDown);
    assert_eq!(app.selected(Pane::Commit), 1);
    assert_eq!(app.selected(Pane::File), 1);

    app.set_focus(Pane::Repository);
    app.apply(Command::MoveDown);

    assert_eq!(app.selected(Pane::Repository), 1);
    assert_eq!(app.selected(Pane::Commit), 0);
    assert_eq!(app.selected(Pane::File), 0);
    assert_eq!(app.scroll(Pane::Diff), 0);

    for _ in 0..10 {
        app.apply(Command::MoveUp);
    }
    assert_eq!(app.selected(Pane::Repository), 0);
}

#[test]
fn gg_and_uppercase_g_reach_boundaries() {
    let mut app = app();
    app.apply(Command::Last);
    assert_eq!(app.selected(Pane::Repository), 2);
    assert_eq!(app.scroll(Pane::Repository), 1);

    app.apply(Command::GPrefix);
    assert!(app.pending_g());
    app.apply(Command::GPrefix);

    assert_eq!(app.selected(Pane::Repository), 0);
    assert!(!app.pending_g());
}

#[test]
fn unrelated_command_clears_g_before_normal_handling() {
    let mut app = app();

    app.apply(Command::GPrefix);
    app.apply(Command::MoveDown);
    assert_eq!(app.selected(Pane::Repository), 1);
    assert!(!app.pending_g());

    app.apply(Command::GPrefix);
    app.apply(Command::Unrelated);
    app.apply(Command::GPrefix);
    assert!(app.pending_g());
    assert_eq!(app.selected(Pane::Repository), 1);
}

#[test]
fn half_page_uses_active_viewport_with_minimum_step() {
    let mut app = app();
    app.set_viewport_heights([4, 2, 2, 2]);

    app.apply(Command::HalfPageDown);
    assert_eq!(app.selected(Pane::Repository), 2);
    app.apply(Command::HalfPageUp);
    assert_eq!(app.selected(Pane::Repository), 0);

    app.set_viewport_heights([0, 2, 2, 2]);
    app.apply(Command::HalfPageDown);
    assert_eq!(app.selected(Pane::Repository), 1);
}

#[test]
fn diff_navigation_and_boundaries_are_clamped() {
    let mut app = app();
    app.set_focus(Pane::Diff);

    app.apply(Command::Last);
    assert_eq!(app.scroll(Pane::Diff), 4);
    app.apply(Command::MoveDown);
    assert_eq!(app.scroll(Pane::Diff), 4);
    app.apply(Command::HalfPageUp);
    assert_eq!(app.scroll(Pane::Diff), 3);
    app.apply(Command::GPrefix);
    app.apply(Command::GPrefix);
    assert_eq!(app.scroll(Pane::Diff), 0);
    app.apply(Command::MoveUp);
    assert_eq!(app.scroll(Pane::Diff), 0);
}

#[test]
fn resize_keeps_every_position_valid() {
    let mut app = App::new(DemoFixture::load());
    app.resize(100, 30);
    app.apply(Command::Last);
    app.apply(Command::FocusNext);
    app.apply(Command::Last);
    app.apply(Command::FocusNext);
    app.apply(Command::Last);
    app.apply(Command::FocusNext);
    app.apply(Command::Last);

    for (width, height) in [(1, 1), (60, 16), (100, 50), (0, 0)] {
        app.resize(width, height);
        assert!(app.selected(Pane::Repository) < app.inbox().repositories.len());
        assert!(app.selected(Pane::Commit) < app.current_commits().len());
        assert!(app.selected(Pane::File) < app.current_files().len());
        assert!(app.scroll(Pane::Diff) <= app.max_diff_scroll());
    }
}

#[test]
fn empty_and_singleton_collections_never_underflow() {
    let one_repository = Inbox::demo(vec![Repository {
        name: "fictional/only".to_owned(),
        commits: Vec::new(),
    }]);
    let one_nested_repository = Inbox::demo(vec![Repository {
        name: "fictional/only-nested".to_owned(),
        commits: vec![commit(
            "0000001000000000000000000000000000000000",
            "only",
            vec![FileChange {
                path: "only.rs".to_owned(),
                diff_lines: ChildPane::Available(vec!["only line".to_owned()]),
            }],
        )],
    }]);
    for inbox in [
        Inbox::demo(Vec::new()),
        one_repository,
        one_nested_repository,
    ] {
        let mut app = App::new(inbox);
        for command in [
            Command::MoveUp,
            Command::MoveDown,
            Command::HalfPageUp,
            Command::HalfPageDown,
            Command::Last,
            Command::GPrefix,
            Command::GPrefix,
            Command::Open,
            Command::Back,
        ] {
            app.apply(command);
            app.resize(0, 0);
        }

        assert_eq!(app.selected(Pane::Repository), 0);
        assert_eq!(app.scroll(Pane::Diff), 0);
        assert_eq!(app.focus(), Pane::Repository);
    }
}

fn live_inbox() -> Inbox {
    let selection = select_day(
        parse_date("2024-01-15").unwrap(),
        parse_timezone("Etc/UTC").unwrap(),
        TimezoneSource::Explicit,
    )
    .unwrap();
    Inbox::live(selection)
}

#[test]
fn live_inbox_does_not_open_fixture_child_panes() {
    let mut inbox = live_inbox();
    inbox.repositories = vec![Repository {
        name: "owned/repository".to_owned(),
        commits: commits(),
    }];
    let mut app = App::new(inbox);
    app.apply(Command::Open);
    assert_eq!(app.focus(), Pane::Commit);
    app.apply(Command::Open);
    assert_eq!(app.focus(), Pane::Commit);
    assert!(app.current_files().is_empty());
}

#[test]
fn normalization_repairs_all_out_of_range_positions() {
    let mut app = app();
    let out_of_range = ListPosition {
        selected: usize::MAX,
        scroll: usize::MAX,
    };
    app.set_positions(out_of_range, out_of_range, out_of_range, usize::MAX);
    app.set_focus(Pane::Diff);

    app.resize(60, 16);

    assert_eq!(app.selected(Pane::Repository), 2);
    assert_eq!(app.selected(Pane::Commit), 2);
    assert_eq!(app.selected(Pane::File), 2);
    assert!(app.scroll(Pane::Repository) <= app.selected(Pane::Repository));
    assert!(app.scroll(Pane::Commit) <= app.selected(Pane::Commit));
    assert!(app.scroll(Pane::File) <= app.selected(Pane::File));
    assert!(app.scroll(Pane::Diff) <= app.max_diff_scroll());
}

#[test]
fn search_entry_isolates_printable_navigation_and_help_keys() {
    let mut app = app();
    let focus = app.focus();
    let selected = app.selected(Pane::Repository);

    app.handle_input(Input::Character('/'));
    for character in ['h', 'j', 'k', 'l', 'g', 'G', '?', 'q'] {
        app.handle_input(Input::Character(character));
    }

    assert_eq!(
        app.mode(),
        Mode::SearchEntry {
            target: Pane::Repository
        }
    );
    assert_eq!(app.search_query(), "hjklgG?q");
    assert_eq!(app.focus(), focus);
    assert_eq!(app.selected(Pane::Repository), selected);
    assert!(!app.should_quit());
}

#[test]
fn search_query_supports_editing_cancel_and_empty_apply() {
    let mut app = app();
    app.handle_input(Input::Character('l'));
    let focus = app.focus();

    app.handle_input(Input::Character('/'));
    for character in ['t', 'w', 'x'] {
        app.handle_input(Input::Character(character));
    }
    app.handle_input(Input::Backspace);
    assert_eq!(app.search_query(), "tw");
    app.handle_input(Input::Escape);
    assert_eq!(app.mode(), Mode::Normal);
    assert_eq!(app.focus(), focus);
    assert!(app.search_query().is_empty());
    assert_eq!(app.status(), "Search cancelled");

    app.handle_input(Input::Character('/'));
    app.handle_input(Input::Enter);
    assert_eq!(app.mode(), Mode::Normal);
    assert_eq!(app.focus(), focus);
    assert_eq!(app.status(), "Empty search; position unchanged");
}

fn enter_search(app: &mut App, query: &str) {
    app.handle_input(Input::Character('/'));
    for character in query.chars() {
        app.handle_input(Input::Character(character));
    }
    app.handle_input(Input::Enter);
}

#[test]
fn search_selects_list_matches_case_insensitively_and_wraps() {
    let mut app = app();

    enter_search(&mut app, "THREE");
    assert_eq!(app.selected(Pane::Repository), 2);
    assert!(app.status().contains("Match for 'THREE'"));

    enter_search(&mut app, "one");
    assert_eq!(app.selected(Pane::Repository), 0);
    assert!(app.status().contains("(1/3)"));

    app.handle_input(Input::Character('l'));
    enter_search(&mut app, "3333333");
    assert_eq!(app.selected(Pane::Commit), 2);
    app.handle_input(Input::Character('l'));
    enter_search(&mut app, "TWO.RS");
    assert_eq!(app.selected(Pane::File), 1);
}

#[test]
fn diff_search_scrolls_to_match_wraps_and_preserves_no_match_state() {
    let mut app = app();
    app.set_focus(Pane::Diff);

    enter_search(&mut app, "five");
    assert_eq!(app.scroll(Pane::Diff), 4);
    enter_search(&mut app, "one");
    assert_eq!(app.scroll(Pane::Diff), 0);

    let before = app.scroll(Pane::Diff);
    enter_search(&mut app, "not present");
    assert_eq!(app.scroll(Pane::Diff), before);
    assert_eq!(app.status(), "No match for 'not present' in Diff");
}

#[test]
fn help_ignores_normal_commands_then_escape_restores_focus() {
    let mut app = app();
    app.handle_input(Input::Character('l'));
    let focus = app.focus();
    let selected = app.selected(Pane::Commit);

    app.handle_input(Input::Character('?'));
    assert_eq!(
        app.mode(),
        Mode::Help {
            previous_focus: focus
        }
    );
    for input in [
        Input::Character('h'),
        Input::Character('j'),
        Input::Character('/'),
        Input::Character('q'),
        Input::Enter,
    ] {
        app.handle_input(input);
    }
    assert_eq!(app.focus(), focus);
    assert_eq!(app.selected(Pane::Commit), selected);
    assert!(!app.should_quit());

    app.handle_input(Input::Escape);
    assert_eq!(app.mode(), Mode::Normal);
    assert_eq!(app.focus(), focus);
    app.handle_input(Input::Character('j'));
    assert_eq!(app.selected(Pane::Commit), selected + 1);
}

#[test]
fn resize_does_not_retarget_an_active_search() {
    let mut app = app();
    app.set_focus(Pane::File);
    app.handle_input(Input::Character('/'));

    for (width, height) in [(1, 1), (0, 0), (120, 40)] {
        app.resize(width, height);
        assert_eq!(app.mode(), Mode::SearchEntry { target: Pane::File });
        assert_eq!(app.focus(), Pane::File);
    }
}

#[test]
fn quit_is_explicit() {
    let mut app = app();
    app.apply(Command::Quit);
    assert!(app.should_quit());
}

fn live_app() -> App {
    App::new(live_inbox())
}

fn loaded_repository(name: &str, commits: Vec<Commit>) -> LoadedRepository {
    LoadedRepository {
        repository: Repository {
            name: name.to_owned(),
            commits,
        },
        branch_count: 2,
        coverage: RepositoryCoverage::Complete,
    }
}

#[test]
fn loader_snapshots_preserve_repository_and_full_sha_selection() {
    let mut app = live_app();
    let alpha = loaded_repository("fixture/alpha", commits());
    let beta = loaded_repository("fixture/beta", commits());
    app.apply_load_event(LoadEvent::RepositorySnapshot {
        repository_index: 0,
        repository: alpha.clone(),
    });
    app.apply_load_event(LoadEvent::RepositorySnapshot {
        repository_index: 1,
        repository: beta.clone(),
    });
    app.apply(Command::MoveDown);
    app.apply(Command::Open);
    app.apply(Command::MoveDown);
    let selected_sha = app.current_commit().unwrap().sha.clone();

    let mut updated_alpha = alpha;
    updated_alpha.repository.commits.reverse();
    app.apply_load_event(LoadEvent::RepositorySnapshot {
        repository_index: 0,
        repository: updated_alpha,
    });
    let mut updated_beta = beta;
    updated_beta.repository.commits.insert(
        0,
        commit(
            "9999999000000000000000000000000000000000",
            "newest",
            Vec::new(),
        ),
    );
    app.apply_load_event(LoadEvent::RepositorySnapshot {
        repository_index: 1,
        repository: updated_beta,
    });

    assert_eq!(app.current_repository().unwrap().name, "fixture/beta");
    assert_eq!(app.current_commit().unwrap().sha, selected_sha);
    assert_eq!(app.selected(Pane::Commit), 2);
}

#[test]
fn loader_mutations_clamp_positions_and_bound_sanitized_failures() {
    let mut app = live_app();
    app.apply_load_event(LoadEvent::RepositorySnapshot {
        repository_index: 0,
        repository: loaded_repository("fixture/alpha", commits()),
    });
    app.apply(Command::Open);
    app.apply(Command::Last);
    assert_eq!(app.selected(Pane::Commit), 2);

    app.apply_load_event(LoadEvent::RepositorySnapshot {
        repository_index: 0,
        repository: loaded_repository(
            "fixture/alpha",
            vec![commit(
                "1111111000000000000000000000000000000000",
                "one",
                Vec::new(),
            )],
        ),
    });
    for branch_index in 0..5 {
        app.apply_load_event(LoadEvent::Failure(LoadFailure {
            category: FailureCategory::PermissionOrNotFound,
            scope: FailureScope::Branch {
                repository_index: 0,
                branch_index,
            },
            http_status: Some(403),
        }));
    }

    assert_eq!(app.selected(Pane::Commit), 0);
    assert_eq!(app.live_state().unwrap().failures().len(), 3);
    assert_eq!(app.live_state().unwrap().omitted_failures(), 2);
}

#[test]
fn offered_events_are_applied_when_accepted() {
    let mut app = live_app();
    let event = LoadEvent::RepositorySnapshot {
        repository_index: 0,
        repository: loaded_repository("fixture/alpha", commits()),
    };
    assert!(app.accepts_load_event(&event));
    assert!(app.offer_load_event(event));
    assert_eq!(app.inbox().repositories.len(), 1);
    let refused = LoadEvent::RepositoryStarted {
        repository_index: usize::MAX,
        total: 1,
    };
    assert!(!app.offer_load_event(refused));
    assert_eq!(app.inbox().repositories.len(), 1);
}

#[test]
fn demo_fixture_has_owned_nested_navigation_data() {
    let fixture = DemoFixture::load();
    assert!(fixture.repositories.len() > 1);
    assert!(fixture.repositories.iter().all(|repo| !repo.commits.is_empty()));
    assert!(fixture
        .repositories
        .iter()
        .flat_map(|repo| &repo.commits)
        .all(|commit| {
            commit.sha.len() == 40
                && commit.sha.bytes().all(|byte| byte.is_ascii_hexdigit())
                && !commit.subject.is_empty()
                && (!commit.files.as_slice().is_empty()
                    || matches!(&commit.files, ChildPane::Unavailable))
        }));
    assert!(fixture.child_panes_available());

    let primary = &fixture.repositories[0].commits[0];
    let welcome = &primary.files.as_slice()[0];
    assert!(welcome.diff_lines.as_slice().len() > 32);
    assert!(
        welcome
            .diff_lines
            .as_slice()
            .iter()
            .filter(|line| line.contains("@@"))
            .count()
            > 1
    );
    assert!(primary
        .files
        .as_slice()
        .iter()
        .any(|file| matches!(&file.diff_lines, ChildPane::Unavailable)));
    assert!(primary
        .files
        .as_slice()
        .iter()
        .any(|file| file.diff_lines.as_slice().iter().any(|line| line.chars().count() > 160)));
    assert!(matches!(
        &fixture.repositories[0].commits[1].files,
        ChildPane::Unavailable
    ));
}

#[test]
fn full_sha_is_retained_separately_from_its_display_abbreviation() {
    let commit = Commit {
        sha: "0123456789abcdef0123456789abcdef01234567".to_owned(),
        subject: "Keep the source identity".to_owned(),
        author: GitHubAuthor {
            login: "octo".to_owned(),
        },
        authored_at: 1_704_067_200,
        files: ChildPane::Unavailable,
    };
    assert_eq!(commit.display_sha(), "0123456");
    assert_eq!(commit.sha, "0123456789abcdef0123456789abcdef01234567");
    assert_eq!(commit.author.login, "octo");
    assert_eq!(commit.label(), "0123456  Keep the source identity");
}
