use reviewbox::app::App;
use reviewbox::event::{
    apply_app_event, drain_loader_events, translate_key, AppEvent, KeyCode, KeyEvent,
    KeyEventKind, KeyModifiers, LoaderEventSource, NoLoaderEvents, MAX_LOADER_EVENTS_PER_TICK,
};
use reviewbox::day::{parse_date, parse_timezone, select_day, TimezoneSource};
use reviewbox::display::phase_text;
use reviewbox::fixture::DemoFixture;
use reviewbox::inbox::Inbox;
use reviewbox::loading::LoadEvent;
use reviewbox::pane::{Input, Pane};

fn key(code: KeyCode) -> KeyEvent {
    KeyEvent::new(code, KeyModifiers::none())
}

#[test]
fn translates_printable_and_editing_keys_without_assigning_a_mode() {
    for (key, expected) in [
        (key(KeyCode::Char('h')), Input::Character('h')),
        (key(KeyCode::Char('j')), Input::Character('j')),
        (key(KeyCode::Char('/')), Input::Character('/')),
        (key(KeyCode::Char('?')), Input::Character('?')),
        (
            KeyEvent::new(KeyCode::Char('G'), KeyModifiers::shift()),
            Input::Character('G'),
        ),
        (key(KeyCode::Enter), Input::Enter),
        (key(KeyCode::Esc), Input::Escape),
        (key(KeyCode::Backspace), Input::Backspace),
    ] {
        assert_eq!(translate_key(key), Some(expected));
    }
}

#[test]
fn translates_control_movement_and_quit_keys() {
    for (character, expected) in [
        ('d', Input::HalfPageDown),
        ('u', Input::HalfPageUp),
        ('c', Input::Quit),
    ] {
        let key = KeyEvent::new(KeyCode::Char(character), KeyModifiers::control());
        assert_eq!(translate_key(key), Some(expected));
    }
}

#[test]
fn printable_press_is_preserved_but_repeat_and_release_are_ignored() {
    assert_eq!(
        translate_key(key(KeyCode::Char('x'))),
        Some(Input::Character('x'))
    );
    for kind in [KeyEventKind::Repeat, KeyEventKind::Release] {
        let key = KeyEvent::new_with_kind(KeyCode::Char('j'), KeyModifiers::none(), kind);
        assert_eq!(translate_key(key), None);
    }
}

#[test]
fn modified_and_other_keys_are_unrelated() {
    assert_eq!(
        translate_key(KeyEvent::new(KeyCode::Char('x'), KeyModifiers::alt())),
        Some(Input::Unrelated)
    );
    assert_eq!(
        translate_key(KeyEvent::new(KeyCode::Enter, KeyModifiers::control())),
        Some(Input::Unrelated)
    );
    assert_eq!(translate_key(key(KeyCode::Other)), Some(Input::Unrelated));
}

#[test]
fn events_reach_the_modal_reducer_and_the_layout() {
    let mut app = App::new(DemoFixture::load());
    apply_app_event(&mut app, AppEvent::Resize(80, 24));
    apply_app_event(&mut app, AppEvent::Input(Input::Character('j')));
    apply_app_event(&mut app, AppEvent::Input(Input::Character('l')));
    assert_eq!(app.selected(Pane::Repository), 1);
    assert_eq!(app.focus(), Pane::Commit);
    apply_app_event(&mut app, AppEvent::Resize(40, 10));
    assert_eq!((app.terminal_width, app.terminal_height), (40, 10));
    apply_app_event(&mut app, AppEvent::Input(Input::Character('q')));
    assert!(app.should_quit());
}

struct ScriptedLoader {
    events: Vec<LoadEvent>,
    cancelled: bool,
}

impl LoaderEventSource for ScriptedLoader {
    fn try_next(&mut self) -> Option<LoadEvent> {
        if self.events.is_empty() {
            None
        } else {
            Some(self.events.remove(0))
        }
    }

    fn cancel(&mut self) {
        self.cancelled = true;
    }
}

fn live_app() -> App {
    let selection = select_day(
        parse_date("2024-01-15").unwrap(),
        parse_timezone("Europe/Warsaw").unwrap(),
        TimezoneSource::Explicit,
    )
    .unwrap();
    App::new(Inbox::live(selection))
}

#[test]
fn loader_progress_is_redrawn_in_bounded_batches() {
    let mut app = live_app();
    let mut loader = ScriptedLoader {
        events: (1..=40)
            .map(|page| LoadEvent::DiscoveryPage {
                page,
                owned_repositories: page,
            })
            .collect(),
        cancelled: false,
    };

    assert_eq!(drain_loader_events(&mut app, &mut loader), MAX_LOADER_EVENTS_PER_TICK);
    loader.cancel();

    assert!(loader.cancelled);
    assert_eq!(loader.events.len(), 8);
    let output = phase_text(app.live_state().unwrap().phase, None);
    assert!(output.contains("page 32"));
    assert!(!output.contains("page 40"));
    assert_eq!(drain_loader_events(&mut app, &mut loader), 8);
    assert_eq!(drain_loader_events(&mut app, &mut loader), 0);
    assert_eq!(drain_loader_events(&mut app, &mut NoLoaderEvents), 0);
}
