use vstd::prelude::*;

use crate::app::{App, AppView};
use crate::loading::LoadEvent;
use crate::pane::Input;

verus! {

/// The most loader events applied between two redraws.
pub const MAX_LOADER_EVENTS_PER_TICK: usize = 32;

/// A key of the keyboard, as far as the application tells keys apart.
#[derive(Clone, Copy, Debug, PartialEq, Eq, Structural)]
pub enum KeyCode {
    Char(char),
    Enter,
    Esc,
    Backspace,
    /// Any other key.
    Other,
}

/// Whether a key went down, repeats, or went up.
#[derive(Clone, Copy, Debug, PartialEq, Eq, Structural)]
pub enum KeyEventKind {
    Press,
    Repeat,
    Release,
}

/// The modifier keys held with a key.
#[derive(Clone, Copy, Debug, PartialEq, Eq, Structural)]
pub struct KeyModifiers {
    pub shift: bool,
    pub control: bool,
    pub alt: bool,
}

impl KeyModifiers {
    /// No modifier.
    pub fn none() -> (modifiers: KeyModifiers)
        ensures
            modifiers == (KeyModifiers { shift: false, control: false, alt: false }),
    {
        KeyModifiers { shift: false, control: false, alt: false }
    }

    /// Shift alone.
    pub fn shift() -> (modifiers: KeyModifiers)
        ensures
            modifiers == (KeyModifiers { shift: true, control: false, alt: false }),
    {
        KeyModifiers { shift: true, control: false, alt: false }
    }

    /// Control alone.
    pub fn control() -> (modifiers: KeyModifiers)
        ensures
            modifiers == (KeyModifiers { shift: false, control: true, alt: false }),
    {
        KeyModifiers { shift: false, control: true, alt: false }
    }

    /// Alt alone.
    pub fn alt() -> (modifiers: KeyModifiers)
        ensures
            modifiers == (KeyModifiers { shift: false, control: false, alt: true }),
    {
        KeyModifiers { shift: false, control: false, alt: true }
    }
}

/// A key event from the terminal.
#[derive(Clone, Copy, Debug, PartialEq, Eq, Structural)]
pub struct KeyEvent {
    pub code: KeyCode,
    pub modifiers: KeyModifiers,
    pub kind: KeyEventKind,
}

impl KeyEvent {
    /// A key press.
    pub fn new(code: KeyCode, modifiers: KeyModifiers) -> (key: KeyEvent)
        ensures
            key == (KeyEvent { code, modifiers, kind: KeyEventKind::Press }),
    {
        KeyEvent { code, modifiers, kind: KeyEventKind::Press }
    }

    /// A key event of `kind`.
    pub fn new_with_kind(code: KeyCode, modifiers: KeyModifiers, kind: KeyEventKind) -> (key:
        KeyEvent)
        ensures
            key == (KeyEvent { code, modifiers, kind }),
    {
        KeyEvent { code, modifiers, kind }
    }
}

/// The input that a key gives, independent of the application's mode: only presses count;
/// Control with `c`, `d`, `u` quits and moves half a page; a character, Enter, Escape and
/// Backspace count without Control or Alt (Shift is part of the character); anything else is
/// unrelated.
pub open spec fn key_input(key: KeyEvent) -> Option<Input> {
    if key.kind != KeyEventKind::Press {
        None
    } else {
        let control = key.modifiers.control;
        let alt = key.modifiers.alt;
        Some(
            match key.code {
                KeyCode::Char(c) => if control && c == 'c' {
                    Input::Quit
                } else if control && c == 'd' {
                    Input::HalfPageDown
                } else if control && c == 'u' {
                    Input::HalfPageUp
                } else if !control && !alt {
                    Input::Character(c)
                } else {
                    Input::Unrelated
                },
                KeyCode::Enter => if !control && !alt {
                    Input::Enter
                } else {
                    Input::Unrelated
                },
                KeyCode::Esc => if !control && !alt {
                    Input::Escape
                } else {
                    Input::Unrelated
                },
                KeyCode::Backspace => if !control && !alt {
                    Input::Backspace
                } else {
                    Input::Unrelated
                },
                KeyCode::Other => Input::Unrelated,
            },
        )
    }
}

/// See `key_input`.
pub fn translate_key(key: KeyEvent) -> (input: Option<Input>)
    ensures
        input == key_input(key),
{
    if key.kind != KeyEventKind::Press {
        return None;
    }
    let control = key.modifiers.control;
    let alt = key.modifiers.alt;
    let command = match key.code {
        KeyCode::Char(c) => if control && c == 'c' {
            Input::Quit
        } else if control && c == 'd' {
            Input::HalfPageDown
        } else if control && c == 'u' {
            Input::HalfPageUp
        } else if !control && !alt {
            Input::Character(c)
        } else {
            Input::Unrelated
        },
        KeyCode::Enter => if !control && !alt {
            Input::Enter
        } else {
            Input::Unrelated
        },
        KeyCode::Esc => if !control && !alt {
            Input::Escape
        } else {
            Input::Unrelated
        },
        KeyCode::Backspace => if !control && !alt {
            Input::Backspace
        } else {
            Input::Unrelated
        },
        KeyCode::Other => Input::Unrelated,
    };
    Some(command)
}

/// What the terminal tells the application.
#[derive(Clone, Copy, Debug, PartialEq, Eq, Structural)]
pub enum AppEvent {
    Input(Input),
    Resize(u16, u16),
}

/// Where terminal events come from.
pub trait EventSource {
    /// The next event, waiting at most `timeout`; `None` when nothing came.
    fn poll(&mut self, timeout: std::time::Duration) -> std::io::Result<Option<AppEvent>>;
}

/// Applies one terminal event: an input goes to the modal reducer, a resize to the layout.
pub fn apply_app_event(app: &mut App, event: AppEvent)
    requires
        old(app).live_well_keyed(),
    ensures
        final(app).live_well_keyed(),
        match event {
            AppEvent::Input(input) => final(app)@ == old(app)@.after_input(input),
            AppEvent::Resize(width, height) => final(app)@ == old(app)@.after_resize(width, height),
        },
{
    match event {
        AppEvent::Input(input) => app.handle_input(input),
        AppEvent::Resize(width, height) => app.resize(width, height),
    }
}

/// Where loader events come from.
pub trait LoaderEventSource {
    /// The next event, if one is ready.
    fn try_next(&mut self) -> Option<LoadEvent>;

    /// Stops the work behind the events.
    fn cancel(&mut self) {
    }
}

/// A loader with nothing to report.
pub struct NoLoaderEvents;

impl LoaderEventSource for NoLoaderEvents {
    fn try_next(&mut self) -> (event: Option<LoadEvent>)
        ensures
            event is None,
    {
        None
    }
}

/// What offering `event` to `view` leaves: the event applied where the state accepts it,
/// otherwise the state unchanged.
pub open spec fn after_offer(view: AppView, event: LoadEvent) -> AppView {
    if view.accepts(event) {
        view.after_load_event(event)
    } else {
        view
    }
}

/// What offering each of `events` in turn, first to last, leaves of `view`.
pub open spec fn after_offers(view: AppView, events: Seq<LoadEvent>) -> AppView
    decreases events.len(),
{
    if events.len() == 0 {
        view
    } else {
        after_offer(after_offers(view, events.drop_last()), events.last())
    }
}

/// Applies the loader events that are ready, at most `MAX_LOADER_EVENTS_PER_TICK`, so that a
/// busy loader cannot hold off redraws and input; an event the state cannot take is dropped.
/// Returns how many events were taken from the loader: the state is what offering those events,
/// in the order the loader gave them, leaves. How many events the loader has ready is its own
/// affair (`try_next` states nothing), so the number taken is stated only through that sequence.
pub fn drain_loader_events<L: LoaderEventSource>(app: &mut App, loader: &mut L) -> (taken: usize)
    requires
        old(app).live_well_keyed(),
    ensures
        final(app).live_well_keyed(),
        taken <= MAX_LOADER_EVENTS_PER_TICK,
        exists|events: Seq<LoadEvent>|
            events.len() == taken && final(app)@ == #[trigger] after_offers(old(app)@, events),
{
    let mut taken: usize = 0;
    let ghost mut events: Seq<LoadEvent> = Seq::empty();
    while taken < MAX_LOADER_EVENTS_PER_TICK
        invariant
            app.live_well_keyed(),
            taken <= MAX_LOADER_EVENTS_PER_TICK,
            events.len() == taken,
            app@ == after_offers(old(app)@, events),
        decreases MAX_LOADER_EVENTS_PER_TICK - taken,
    {
        let event = match loader.try_next() {
            None => return taken,
            Some(event) => event,
        };
        let ghost before = events;
        app.offer_load_event(event);
        proof {
            events = events.push(event);
            assert(events.drop_last() =~= before);
        }
        taken = taken + 1;
    }
    taken
}

} // verus!
