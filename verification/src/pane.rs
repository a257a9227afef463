use vstd::prelude::*;

verus! {

/// The four review panes, from the outermost to the innermost.
#[derive(Clone, Copy, Debug, PartialEq, Eq, PartialOrd, Ord, Structural)]
pub enum Pane {
    Repository,
    Commit,
    File,
    Diff,
}

/// The modal state of the application.
#[derive(Clone, Copy, Debug, PartialEq, Eq, Structural)]
pub enum Mode {
    Normal,
    SearchEntry { target: Pane },
    Help { previous_focus: Pane },
}

/// Normal-mode commands.
#[derive(Clone, Copy, Debug, PartialEq, Eq, Structural)]
pub enum Command {
    Quit,
    FocusPrevious,
    FocusNext,
    MoveDown,
    MoveUp,
    GPrefix,
    Last,
    HalfPageDown,
    HalfPageUp,
    Open,
    Back,
    Unrelated,
}

/// Keyboard input after translation, before any mode has given it a meaning.
#[derive(Clone, Copy, Debug, PartialEq, Eq, Structural)]
pub enum Input {
    Character(char),
    Backspace,
    Enter,
    Escape,
    HalfPageDown,
    HalfPageUp,
    Quit,
    Unrelated,
}

/// The position of a pane from the left: 0 for repositories through 3 for the diff.
pub open spec fn pane_index(pane: Pane) -> int {
    match pane {
        Pane::Repository => 0,
        Pane::Commit => 1,
        Pane::File => 2,
        Pane::Diff => 3,
    }
}

/// The pane at position `index` (0 through 3).
pub open spec fn pane_at(index: int) -> Pane {
    if index <= 0 {
        Pane::Repository
    } else if index == 1 {
        Pane::Commit
    } else if index == 2 {
        Pane::File
    } else {
        Pane::Diff
    }
}

/// The title of a pane.
pub open spec fn pane_title(pane: Pane) -> Seq<char> {
    match pane {
        Pane::Repository => "Repository"@,
        Pane::Commit => "Commit"@,
        Pane::File => "File"@,
        Pane::Diff => "Diff"@,
    }
}

impl Pane {
    /// The pane's title.
    pub fn title(self) -> (title: &'static str)
        ensures
            title@ == pane_title(self),
    {
        match self {
            Pane::Repository => "Repository",
            Pane::Commit => "Commit",
            Pane::File => "File",
            Pane::Diff => "Diff",
        }
    }

    /// The pane's position from the left.
    pub fn index(self) -> (index: usize)
        ensures
            index == pane_index(self),
    {
        match self {
            Pane::Repository => 0,
            Pane::Commit => 1,
            Pane::File => 2,
            Pane::Diff => 3,
        }
    }

    /// The pane to the left, if any.
    pub fn previous(self) -> (previous: Option<Pane>)
        ensures
            match previous {
                Some(pane) => pane_index(self) > 0 && pane_index(pane) == pane_index(self) - 1,
                None => self == Pane::Repository,
            },
    {
        match self {
            Pane::Repository => None,
            Pane::Commit => Some(Pane::Repository),
            Pane::File => Some(Pane::Commit),
            Pane::Diff => Some(Pane::File),
        }
    }

    /// The pane to the right, if any.
    pub fn next(self) -> (next: Option<Pane>)
        ensures
            match next {
                Some(pane) => pane_index(self) < 3 && pane_index(pane) == pane_index(self) + 1,
                None => self == Pane::Diff,
            },
    {
        match self {
            Pane::Repository => Some(Pane::Commit),
            Pane::Commit => Some(Pane::File),
            Pane::File => Some(Pane::Diff),
            Pane::Diff => None,
        }
    }
}

/// A key binding as the help overlay lists it.
#[derive(Clone, Copy, Debug, PartialEq, Eq)]
pub struct HelpBinding {
    pub keys: &'static str,
    pub action: &'static str,
}

/// The keys that the help overlay lists and their actions, in order.
pub open spec fn help_table() -> Seq<(Seq<char>, Seq<char>)> {
    seq![
        ("h / l"@, "focus previous / next pane"@),
        ("j / k"@, "move or scroll down / up"@),
        ("gg / G"@, "first / last position"@),
        ("Ctrl-d / Ctrl-u"@, "move down / up half a pane"@),
        ("Enter / Escape"@, "open child / return to parent"@),
        ("/"@, "search the focused pane"@),
        ("?"@, "open this help"@),
        ("q / Ctrl-c"@, "quit from normal mode / quit globally"@),
        ("Search: text, Backspace"@, "edit the query"@),
        ("Search: Enter / Escape"@, "apply / cancel"@),
        ("Help: Escape"@, "close help"@),
    ]
}

/// The keys that the help overlay lists, with their actions.
pub fn help_bindings() -> (bindings: Vec<HelpBinding>)
    ensures
        bindings@.len() == 11,
        bindings@.len() == help_table().len(),
        forall|i: int| 0 <= i < bindings@.len() ==> (#[trigger] bindings@[i]).keys@ == help_table()[i].0
            && bindings@[i].action@ == help_table()[i].1,
{
    let mut bindings: Vec<HelpBinding> = Vec::new();
    bindings.push(HelpBinding { keys: "h / l", action: "focus previous / next pane" });
    bindings.push(HelpBinding { keys: "j / k", action: "move or scroll down / up" });
    bindings.push(HelpBinding { keys: "gg / G", action: "first / last position" });
    bindings.push(HelpBinding { keys: "Ctrl-d / Ctrl-u", action: "move down / up half a pane" });
    bindings.push(HelpBinding { keys: "Enter / Escape", action: "open child / return to parent" });
    bindings.push(HelpBinding { keys: "/", action: "search the focused pane" });
    bindings.push(HelpBinding { keys: "?", action: "open this help" });
    bindings.push(
        HelpBinding { keys: "q / Ctrl-c", action: "quit from normal mode / quit globally" },
    );
    bindings.push(HelpBinding { keys: "Search: text, Backspace", action: "edit the query" });
    bindings.push(HelpBinding { keys: "Search: Enter / Escape", action: "apply / cancel" });
    bindings.push(HelpBinding { keys: "Help: Escape", action: "close help" });
    bindings
}

} // verus!
