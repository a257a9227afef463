use vstd::prelude::*;

use crate::day::DaySelection;
use crate::text::{chars_of, string_from_chars};

verus! {

/// The repositories shown by the panes, and where they come from.
#[derive(Clone, Debug, PartialEq, Eq)]
pub struct Inbox {
    pub source: InboxSource,
    pub repositories: Vec<Repository>,
}

impl Inbox {
    /// An offline inbox over fictional repositories.
    pub fn demo(repositories: Vec<Repository>) -> (inbox: Inbox)
        ensures
            inbox.source == InboxSource::Demo,
            inbox.repositories == repositories,
    {
        Inbox { source: InboxSource::Demo, repositories }
    }

    /// A live inbox for `selection` whose repositories are still to be loaded.
    pub fn live(selection: DaySelection) -> (inbox: Inbox)
        ensures
            inbox.source == (InboxSource::Live { selection }),
            inbox.repositories@.len() == 0,
    {
        Inbox { source: InboxSource::Live { selection }, repositories: Vec::new() }
    }

    /// Whether the file and diff panes can be opened: only the demo carries commit files.
    pub open spec fn spec_child_panes_available(&self) -> bool {
        self.source is Demo
    }

    /// Whether the file and diff panes can be opened.
    pub fn child_panes_available(&self) -> (available: bool)
        ensures
            available == self.spec_child_panes_available(),
    {
        match self.source {
            InboxSource::Demo => true,
            InboxSource::Live { .. } => false,
        }
    }
}

/// Where the repositories of an inbox come from.
#[derive(Clone, Debug, PartialEq, Eq)]
pub enum InboxSource {
    Demo,
    Live { selection: DaySelection },
}

/// A repository and the commits of the selected day.
#[derive(Debug, PartialEq, Eq)]
pub struct Repository {
    pub name: String,
    pub commits: Vec<Commit>,
}

/// One commit: its full SHA, subject line, author and the changed files when they are known.
#[derive(Debug, PartialEq, Eq)]
pub struct Commit {
    pub sha: String,
    pub subject: String,
    pub author: GitHubAuthor,
    /// Author time, in whole seconds since the Unix epoch (UTC).
    pub authored_at: i64,
    pub files: ChildPane<FileChange>,
}

/// Number of SHA characters shown in lists.
pub const DISPLAY_SHA_LENGTH: usize = 7;

/// The first seven characters of a SHA (all of it when it is shorter).
pub open spec fn spec_display_sha(sha: Seq<char>) -> Seq<char> {
    if sha.len() <= DISPLAY_SHA_LENGTH { sha } else { sha.take(DISPLAY_SHA_LENGTH as int) }
}

/// The list label of a commit: its short SHA, two spaces and its subject.
pub open spec fn spec_commit_label(sha: Seq<char>, subject: Seq<char>) -> Seq<char> {
    spec_display_sha(sha) + seq![' ', ' '] + subject
}

impl Commit {
    /// The abbreviated SHA shown in lists; the full SHA stays in `sha`.
    pub fn display_sha(&self) -> (short: String)
        ensures
            short@ == spec_display_sha(self.sha@),
    {
        let chars = chars_of(self.sha.as_str());
        let mut short: Vec<char> = Vec::new();
        let mut i: usize = 0;
        while i < chars.len() && i < DISPLAY_SHA_LENGTH
            invariant
                chars@ == self.sha@,
                i <= chars.len(),
                i <= DISPLAY_SHA_LENGTH,
                short@ == chars@.take(i as int),
            decreases chars.len() - i,
        {
            short.push(chars[i]);
            i = i + 1;
        }
        assert(short@ =~= spec_display_sha(self.sha@));
        string_from_chars(short.as_slice())
    }

    /// The list label: short SHA, two spaces, subject.
    pub fn label(&self) -> (label: String)
        ensures
            label@ == spec_commit_label(self.sha@, self.subject@),
    {
        let mut label = self.display_sha();
        label.append("  ");
        label.append(self.subject.as_str());
        proof {
            reveal_strlit("  ");
        }
        label
    }
}

/// The GitHub account that authored a commit.
#[derive(Debug, PartialEq, Eq)]
pub struct GitHubAuthor {
    pub login: String,
}

/// A changed file of a commit and its diff lines when they are known.
#[derive(Debug, PartialEq, Eq)]
pub struct FileChange {
    pub path: String,
    pub diff_lines: ChildPane<String>,
}

/// The children of an item: a list, or the statement that they could not be provided.
#[derive(Debug, PartialEq, Eq)]
pub enum ChildPane<T> {
    Available(Vec<T>),
    Unavailable,
}

impl<T> ChildPane<T> {
    /// The children as a sequence: empty when they are unavailable.
    pub open spec fn items(&self) -> Seq<T> {
        match self {
            ChildPane::Available(values) => values@,
            ChildPane::Unavailable => Seq::empty(),
        }
    }

    /// The children, or nothing when they are unavailable.
    pub fn as_slice(&self) -> (items: &[T])
        ensures
            items@ == self.items(),
    {
        match self {
            ChildPane::Available(values) => values.as_slice(),
            ChildPane::Unavailable => &[],
        }
    }
}

} // verus!

verus! {

/// The content of a commit, as values.
pub struct CommitView {
    pub sha: Seq<char>,
    pub subject: Seq<char>,
    pub author: Seq<char>,
    pub authored_at: int,
    pub files: Option<Seq<FileView>>,
}

/// The content of a changed file, as values.
pub struct FileView {
    pub path: Seq<char>,
    pub diff_lines: Option<Seq<Seq<char>>>,
}

/// The content of a repository, as values.
pub struct RepositoryView {
    pub name: Seq<char>,
    pub commits: Seq<CommitView>,
}

impl View for FileChange {
    type V = FileView;

    open spec fn view(&self) -> FileView {
        FileView { path: self.path@, diff_lines: self.diff_lines@ }
    }
}

impl<T: View> View for ChildPane<T> {
    type V = Option<Seq<T::V>>;

    open spec fn view(&self) -> Option<Seq<T::V>> {
        match self {
            ChildPane::Available(values) => Some(values@.map_values(|value: T| value@)),
            ChildPane::Unavailable => None,
        }
    }
}

impl View for Commit {
    type V = CommitView;

    open spec fn view(&self) -> CommitView {
        CommitView {
            sha: self.sha@,
            subject: self.subject@,
            author: self.author.login@,
            authored_at: self.authored_at as int,
            files: self.files@,
        }
    }
}

impl View for Repository {
    type V = RepositoryView;

    open spec fn view(&self) -> RepositoryView {
        RepositoryView { name: self.name@, commits: self.commits@.map_values(|commit: Commit| commit@) }
    }
}

/// The repositories of an inbox, as values.
pub open spec fn repositories_view(repositories: Seq<Repository>) -> Seq<RepositoryView> {
    repositories.map_values(|repository: Repository| repository@)
}

impl Clone for GitHubAuthor {
    fn clone(&self) -> (copy: Self)
        ensures
            copy.login@ == self.login@,
    {
        GitHubAuthor { login: self.login.clone() }
    }
}

impl Clone for ChildPane<String> {
    fn clone(&self) -> (copy: Self)
        ensures
            copy@ == self@,
    {
        match self {
            ChildPane::Available(values) => {
                let copied = values.clone();
                assert forall|i: int| 0 <= i < values@.len() implies copied@[i]@ == values@[i]@ by {
                    assert(cloned(values[i], copied[i]));
                }
                assert(copied@.map_values(|value: String| value@) =~= values@.map_values(
                    |value: String| value@,
                ));
                ChildPane::Available(copied)
            },
            ChildPane::Unavailable => ChildPane::Unavailable,
        }
    }
}

impl Clone for FileChange {
    fn clone(&self) -> (copy: Self)
        ensures
            copy@ == self@,
    {
        FileChange { path: self.path.clone(), diff_lines: self.diff_lines.clone() }
    }
}

impl Clone for ChildPane<FileChange> {
    fn clone(&self) -> (copy: Self)
        ensures
            copy@ == self@,
    {
        match self {
            ChildPane::Available(values) => {
                let copied = values.clone();
                assert forall|i: int| 0 <= i < values@.len() implies copied@[i]@ == values@[i]@ by {
                    assert(cloned(values[i], copied[i]));
                }
                assert(copied@.map_values(|value: FileChange| value@) =~= values@.map_values(
                    |value: FileChange| value@,
                ));
                ChildPane::Available(copied)
            },
            ChildPane::Unavailable => ChildPane::Unavailable,
        }
    }
}

impl Clone for Commit {
    fn clone(&self) -> (copy: Self)
        ensures
            copy@ == self@,
    {
        Commit {
            sha: self.sha.clone(),
            subject: self.subject.clone(),
            author: self.author.clone(),
            authored_at: self.authored_at,
            files: self.files.clone(),
        }
    }
}

impl Clone for Repository {
    fn clone(&self) -> (copy: Self)
        ensures
            copy@ == self@,
    {
        let commits = self.commits.clone();
        assert forall|i: int| 0 <= i < self.commits@.len() implies commits@[i]@
            == self.commits@[i]@ by {
            assert(cloned(self.commits[i], commits[i]));
        }
        assert(commits@.map_values(|commit: Commit| commit@) =~= self.commits@.map_values(
            |commit: Commit| commit@,
        ));
        Repository { name: self.name.clone(), commits }
    }
}

} // verus!
