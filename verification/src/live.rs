use vstd::prelude::*;

use crate::inbox::{Repository, RepositoryView};
use crate::keyed::{
    keys_increasing, saturated, sum_counts, total_count, upsert, upserted,
};
use crate::loading::{
    LoadEvent, LoadFailure, LoadProgress, LoadStatus, LoadedRepository, RepositoryCoverage,
};

verus! {

/// The most failures a live inbox lists; later ones are only counted.
pub const MAX_VISIBLE_FAILURES: usize = 3;

/// What the live loading is doing, or how it ended.
#[derive(Clone, Copy, Debug, PartialEq, Eq, Structural)]
pub enum LivePhase {
    Authenticating,
    Discovering { page: usize, owned_repositories: usize },
    LoadingRepository { repository: usize, total: usize },
    LoadingBranches { repository: usize, page: usize, branches: usize },
    LoadingCommits {
        repository: usize,
        branch: usize,
        branches: usize,
        page: usize,
        accepted_commits: usize,
    },
    Complete,
    EmptyDay,
    NoOwnedRepositories,
    Incomplete,
    Fatal,
}

/// The loading state of a live inbox: phase, progress, a bounded failure list, and the
/// repositories loaded so far keyed by their discovery index.
#[derive(Debug)]
pub struct LiveInboxState {
    pub phase: LivePhase,
    pub progress: LoadProgress,
    failures: Vec<LoadFailure>,
    omitted_failures: usize,
    loaded: Vec<(usize, LoadedRepository)>,
    branch_totals: Vec<(usize, usize)>,
    branches_done: Vec<(usize, usize)>,
}

/// The loading state of a live inbox, as values.
pub struct LiveView {
    pub phase: LivePhase,
    pub progress: LoadProgress,
    pub failures: Seq<LoadFailure>,
    pub omitted_failures: usize,
    pub loaded: Seq<(usize, LoadedRepository)>,
    pub branch_totals: Seq<(usize, usize)>,
    pub branches_done: Seq<(usize, usize)>,
}

impl View for LiveInboxState {
    type V = LiveView;

    closed spec fn view(&self) -> LiveView {
        LiveView {
            phase: self.phase,
            progress: self.progress,
            failures: self.failures@,
            omitted_failures: self.omitted_failures,
            loaded: self.loaded@,
            branch_totals: self.branch_totals@,
            branches_done: self.branches_done@,
        }
    }
}

/// The number of commits in the loaded repositories.
pub open spec fn commit_total(loaded: Seq<(usize, LoadedRepository)>) -> int
    decreases loaded.len(),
{
    if loaded.len() == 0 {
        0
    } else {
        commit_total(loaded.drop_last()) + loaded.last().1.repository.commits@.len()
    }
}

/// The number of loaded repositories whose branches were not all read.
pub open spec fn incomplete_total(loaded: Seq<(usize, LoadedRepository)>) -> int
    decreases loaded.len(),
{
    if loaded.len() == 0 {
        0
    } else {
        incomplete_total(loaded.drop_last()) + (if loaded.last().1.coverage
            == RepositoryCoverage::Complete {
            0int
        } else {
            1int
        })
    }
}

/// The loaded repositories in the order of their discovery index.
pub open spec fn loaded_repositories(loaded: Seq<(usize, LoadedRepository)>) -> Seq<RepositoryView> {
    loaded.map_values(|entry: (usize, LoadedRepository)| entry.1.repository@)
}

/// The phase that a finished load ends in: a fatal or incomplete status is kept; a complete load
/// distinguishes no repositories, repositories without commits, and a populated inbox.
pub open spec fn finished_phase(status: LoadStatus, repositories: Seq<RepositoryView>) -> LivePhase {
    match status {
        LoadStatus::Fatal => LivePhase::Fatal,
        LoadStatus::Incomplete => LivePhase::Incomplete,
        LoadStatus::Complete => if repositories.len() == 0 {
            LivePhase::NoOwnedRepositories
        } else if forall|i: int|
            0 <= i < repositories.len() ==> (#[trigger] repositories[i]).commits.len() == 0 {
            LivePhase::EmptyDay
        } else {
            LivePhase::Complete
        },
    }
}

impl LiveView {
    /// The entries of the state are ordered by key.
    pub open spec fn well_keyed(self) -> bool {
        &&& keys_increasing(self.loaded)
        &&& keys_increasing(self.branch_totals)
        &&& keys_increasing(self.branches_done)
    }

    /// Whether `event` can be applied: the indices it carries can be counted from one, and a
    /// failure that is only counted does not overflow the counter.
    pub open spec fn accepts(self, event: LoadEvent) -> bool {
        match event {
            LoadEvent::RepositoryStarted { repository_index, .. } => repository_index < usize::MAX,
            LoadEvent::BranchPage { repository_index, .. } => repository_index < usize::MAX,
            LoadEvent::BranchStarted { repository_index, branch_index, .. } => repository_index
                < usize::MAX && branch_index < usize::MAX,
            LoadEvent::CommitPage { repository_index, branch_index, .. } => repository_index
                < usize::MAX && branch_index < usize::MAX,
            LoadEvent::RepositorySnapshot { repository_index, .. } => repository_index
                < usize::MAX,
            LoadEvent::RepositoryLoaded { repository_index, .. } => repository_index < usize::MAX,
            LoadEvent::Failure(_) => self.failures.len() < MAX_VISIBLE_FAILURES
                || self.omitted_failures < usize::MAX,
            _ => true,
        }
    }

    /// The state after `event`, where `repositories` are the inbox repositories when it arrives.
    pub open spec fn after_event(self, event: LoadEvent, repositories: Seq<RepositoryView>) -> LiveView {
        match event {
            LoadEvent::DiscoveryPage { page, owned_repositories } => LiveView {
                progress: LoadProgress { repositories_discovered: owned_repositories, ..self.progress },
                phase: LivePhase::Discovering { page, owned_repositories },
                ..self
            },
            LoadEvent::RepositoriesDiscovered { total } => LiveView {
                progress: LoadProgress { repositories_discovered: total, ..self.progress },
                phase: LivePhase::LoadingRepository { repository: 0, total },
                ..self
            },
            LoadEvent::RepositoryStarted { repository_index, total } => LiveView {
                phase: LivePhase::LoadingRepository {
                    repository: (repository_index + 1) as usize,
                    total,
                },
                ..self
            },
            LoadEvent::BranchPage { repository_index, page, branches } => {
                let totals = upserted(self.branch_totals, repository_index, branches);
                LiveView {
                    branch_totals: totals,
                    progress: LoadProgress {
                        branches_discovered: saturated(sum_counts(totals)),
                        ..self.progress
                    },
                    phase: LivePhase::LoadingBranches {
                        repository: (repository_index + 1) as usize,
                        page,
                        branches,
                    },
                    ..self
                }
            },
            LoadEvent::BranchStarted { repository_index, branch_index, total } => LiveView {
                phase: LivePhase::LoadingCommits {
                    repository: (repository_index + 1) as usize,
                    branch: (branch_index + 1) as usize,
                    branches: total,
                    page: 0,
                    accepted_commits: 0,
                },
                ..self
            },
            LoadEvent::CommitPage { repository_index, branch_index, page, accepted_commits } => {
                let branches = match self.phase {
                    LivePhase::LoadingCommits { branches, .. } => branches,
                    _ => (branch_index + 1) as usize,
                };
                LiveView {
                    phase: LivePhase::LoadingCommits {
                        repository: (repository_index + 1) as usize,
                        branch: (branch_index + 1) as usize,
                        branches,
                        page,
                        accepted_commits,
                    },
                    ..self
                }
            },
            LoadEvent::RepositorySnapshot { repository_index, repository } => {
                let (done, processed) = match self.phase {
                    LivePhase::LoadingCommits { repository: current, branch, .. } => if current
                        == repository_index + 1 {
                        let done = upserted(self.branches_done, repository_index, branch);
                        (done, saturated(sum_counts(done)))
                    } else {
                        (self.branches_done, self.progress.branches_processed)
                    },
                    _ => (self.branches_done, self.progress.branches_processed),
                };
                let loaded = upserted(self.loaded, repository_index, repository);
                LiveView {
                    branches_done: done,
                    loaded,
                    progress: LoadProgress {
                        branches_processed: processed,
                        commits_loaded: saturated(commit_total(loaded)),
                        ..self.progress
                    },
                    ..self
                }
            },
            LoadEvent::RepositoryLoaded { repository_index, repository } => {
                let totals = upserted(self.branch_totals, repository_index, repository.branch_count);
                let done = upserted(self.branches_done, repository_index, repository.branch_count);
                let loaded = upserted(self.loaded, repository_index, repository);
                let processed = if self.progress.repositories_processed > repository_index {
                    self.progress.repositories_processed
                } else {
                    (repository_index + 1) as usize
                };
                LiveView {
                    branch_totals: totals,
                    branches_done: done,
                    loaded,
                    progress: LoadProgress {
                        repositories_processed: processed,
                        branches_discovered: saturated(sum_counts(totals)),
                        branches_processed: saturated(sum_counts(done)),
                        commits_loaded: saturated(commit_total(loaded)),
                        ..self.progress
                    },
                    ..self
                }
            },
            LoadEvent::Failure(failure) => if self.failures.len() < MAX_VISIBLE_FAILURES {
                LiveView { failures: self.failures.push(failure), ..self }
            } else {
                LiveView { omitted_failures: (self.omitted_failures + 1) as usize, ..self }
            },
            LoadEvent::Finished { status, progress } => LiveView {
                progress,
                phase: finished_phase(status, repositories),
                ..self
            },
        }
    }
}

/// Whether an event replaces the loaded repositories that the inbox shows.
pub open spec fn changes_repositories(event: LoadEvent) -> bool {
    event is RepositorySnapshot || event is RepositoryLoaded
}

} // verus!

verus! {

proof fn lemma_commit_total_nonnegative(loaded: Seq<(usize, LoadedRepository)>)
    ensures
        commit_total(loaded) >= 0,
    decreases loaded.len(),
{
    if loaded.len() > 0 {
        lemma_commit_total_nonnegative(loaded.drop_last());
    }
}

/// How a load that finished with `status` ends, whatever came before: a fatal or incomplete
/// status is kept; a complete load with no repository has no owned repositories, one whose
/// repositories hold no commit at all is an empty day, and it is complete exactly when some
/// repository holds a commit.
pub proof fn law_finished_load_phase(
    view: LiveView,
    status: LoadStatus,
    progress: LoadProgress,
    repositories: Seq<RepositoryView>,
)
    ensures
        ({
            let phase = view.after_event(LoadEvent::Finished { status, progress }, repositories).phase;
            &&& status == LoadStatus::Fatal ==> phase == LivePhase::Fatal
            &&& status == LoadStatus::Incomplete ==> phase == LivePhase::Incomplete
            &&& status == LoadStatus::Complete && repositories.len() == 0 ==> phase
                == LivePhase::NoOwnedRepositories
            &&& status == LoadStatus::Complete && repositories.len() > 0 && (forall|i: int|
                0 <= i < repositories.len() ==> (#[trigger] repositories[i]).commits.len() == 0)
                ==> phase == LivePhase::EmptyDay
            &&& status == LoadStatus::Complete && (exists|i: int|
                0 <= i < repositories.len() && (#[trigger] repositories[i]).commits.len() > 0)
                ==> phase == LivePhase::Complete
            &&& phase == LivePhase::Complete ==> status == LoadStatus::Complete && exists|i: int|
                0 <= i < repositories.len() && (#[trigger] repositories[i]).commits.len() > 0
        }),
{
}

/// The failures that `events` report, in order.
pub open spec fn reported_failures(events: Seq<LoadEvent>) -> Seq<LoadFailure>
    decreases events.len(),
{
    if events.len() == 0 {
        Seq::empty()
    } else {
        let earlier = reported_failures(events.drop_last());
        match events.last() {
            LoadEvent::Failure(failure) => earlier.push(failure),
            _ => earlier,
        }
    }
}

/// The loading state after each of `events` in turn, from `view`, with `repositories` shown.
pub open spec fn after_events(view: LiveView, events: Seq<LoadEvent>, repositories: Seq<RepositoryView>) -> LiveView
    decreases events.len(),
{
    if events.len() == 0 {
        view
    } else {
        after_events(view, events.drop_last(), repositories).after_event(events.last(), repositories)
    }
}

/// The number of failures that stay listed out of `count` reported.
pub open spec fn listed_count(count: int) -> int {
    if count < MAX_VISIBLE_FAILURES {
        count
    } else {
        MAX_VISIBLE_FAILURES as int
    }
}

/// Over any run of loader events from the start, the listed failures are the first three that
/// were reported, in order, and every later one is counted as omitted (as long as the count fits
/// in a `usize`).
pub proof fn law_first_failures_listed_rest_counted(events: Seq<LoadEvent>, repositories: Seq<RepositoryView>)
    requires
        reported_failures(events).len() <= usize::MAX,
    ensures
        after_events(initial_live_view(), events, repositories).failures
            == reported_failures(events).take(listed_count(reported_failures(events).len() as int)),
        after_events(initial_live_view(), events, repositories).omitted_failures
            == reported_failures(events).len() - listed_count(reported_failures(events).len() as int),
    decreases events.len(),
{
    if events.len() > 0 {
        let earlier = events.drop_last();
        let reported = reported_failures(events);
        let before = reported_failures(earlier);
        assert(before.len() <= reported.len());
        law_first_failures_listed_rest_counted(earlier, repositories);
        let view = after_events(initial_live_view(), earlier, repositories);
        match events.last() {
            LoadEvent::Failure(failure) => {
                assert(reported == before.push(failure));
                if before.len() < MAX_VISIBLE_FAILURES {
                    assert(view.failures.push(failure) =~= reported.take(listed_count(reported.len() as int)));
                } else {
                    assert(before.take(listed_count(before.len() as int)) =~= reported.take(listed_count(reported.len() as int)));
                }
            },
            _ => {
                assert(reported == before);
            },
        }
    } else {
        assert(reported_failures(events).take(0) =~= Seq::<LoadFailure>::empty());
    }
}

/// The loading state before anything is loaded: authenticating, with zero progress.
pub open spec fn initial_live_view() -> LiveView {
    LiveView {
        phase: LivePhase::Authenticating,
        progress: LoadProgress {
            repositories_discovered: 0,
            repositories_processed: 0,
            branches_discovered: 0,
            branches_processed: 0,
            commits_loaded: 0,
        },
        failures: Seq::empty(),
        omitted_failures: 0,
        loaded: Seq::empty(),
        branch_totals: Seq::empty(),
        branches_done: Seq::empty(),
    }
}

impl LiveInboxState {
    /// The state before anything is loaded: authenticating, with zero progress.
    pub fn new() -> (state: LiveInboxState)
        ensures
            state@ == initial_live_view(),
            state@.well_keyed(),
    {
        let state = LiveInboxState {
            phase: LivePhase::Authenticating,
            progress: LoadProgress::zero(),
            failures: Vec::new(),
            omitted_failures: 0,
            loaded: Vec::new(),
            branch_totals: Vec::new(),
            branches_done: Vec::new(),
        };
        assert(state@.failures =~= Seq::empty());
        state
    }

    /// The failures that are listed, oldest first.
    pub fn failures(&self) -> (failures: &[LoadFailure])
        ensures
            failures@ == self@.failures,
    {
        self.failures.as_slice()
    }

    /// The number of failures beyond the listed ones.
    /// How far the load has come.
    pub fn current_phase(&self) -> (phase: LivePhase)
        ensures
            phase == self@.phase,
    {
        self.phase
    }

    /// The load's counters.
    pub fn current_progress(&self) -> (progress: LoadProgress)
        ensures
            progress == self@.progress,
    {
        self.progress
    }

    pub fn omitted_failures(&self) -> (omitted: usize)
        ensures
            omitted == self@.omitted_failures,
    {
        self.omitted_failures
    }

    /// The number of commits in the loaded repositories, saturating at `usize::MAX`.
    pub fn available_commits(&self) -> (total: usize)
        ensures
            total == saturated(commit_total(self@.loaded)),
    {
        let mut total: usize = 0;
        let mut i: usize = 0;
        while i < self.loaded.len()
            invariant
                i <= self.loaded@.len(),
                total == saturated(commit_total(self.loaded@.take(i as int))),
            decreases self.loaded.len() - i,
        {
            assert(self.loaded@.take(i + 1).drop_last() =~= self.loaded@.take(i as int));
            proof {
                lemma_commit_total_nonnegative(self.loaded@.take(i as int));
            }
            total = total.saturating_add(self.loaded[i].1.repository.commits.len());
            i = i + 1;
        }
        assert(self.loaded@.take(self.loaded@.len() as int) =~= self.loaded@);
        total
    }

    /// The number of loaded repositories whose branches were not all read.
    pub fn incomplete_repositories(&self) -> (count: usize)
        ensures
            count == incomplete_total(self@.loaded),
    {
        let mut count: usize = 0;
        let mut i: usize = 0;
        while i < self.loaded.len()
            invariant
                i <= self.loaded@.len(),
                count == incomplete_total(self.loaded@.take(i as int)),
                count <= i,
            decreases self.loaded.len() - i,
        {
            assert(self.loaded@.take(i + 1).drop_last() =~= self.loaded@.take(i as int));
            match self.loaded[i].1.coverage {
                RepositoryCoverage::Complete => {},
                RepositoryCoverage::BranchesIncomplete { .. } => {
                    count = count + 1;
                },
            }
            i = i + 1;
        }
        assert(self.loaded@.take(self.loaded@.len() as int) =~= self.loaded@);
        count
    }

    /// Copies of the loaded repositories, in the order of their discovery index.
    pub fn loaded_repository_copies(&self) -> (repositories: Vec<Repository>)
        ensures
            crate::inbox::repositories_view(repositories@) == loaded_repositories(self@.loaded),
    {
        let mut repositories: Vec<Repository> = Vec::new();
        let mut i: usize = 0;
        while i < self.loaded.len()
            invariant
                i <= self.loaded@.len(),
                crate::inbox::repositories_view(repositories@) == loaded_repositories(
                    self.loaded@.take(i as int),
                ),
            decreases self.loaded.len() - i,
        {
            let copy = self.loaded[i].1.repository.clone();
            let ghost before = repositories@;
            assert(crate::inbox::repositories_view(before).len() == before.len());
            assert(loaded_repositories(self.loaded@.take(i as int)).len() == i);
            repositories.push(copy);
            assert forall|j: int| 0 <= j < i implies #[trigger] repositories@[j]@
                == self.loaded@[j].1.repository@ by {
                assert(repositories@[j] == before[j]);
                assert(crate::inbox::repositories_view(before)[j] == loaded_repositories(
                    self.loaded@.take(i as int),
                )[j]);
            }
            assert(crate::inbox::repositories_view(repositories@) =~= loaded_repositories(
                self.loaded@.take(i + 1),
            ));
            i = i + 1;
        }
        assert(self.loaded@.take(self.loaded@.len() as int) =~= self.loaded@);
        repositories
    }

    /// Whether every entry list is ordered by key.
    pub open spec fn well_keyed(&self) -> bool {
        self@.well_keyed()
    }

    /// Whether `event` can be applied (see `LiveView::accepts`).
    pub fn accepts(&self, event: &LoadEvent) -> (accepted: bool)
        ensures
            accepted == self@.accepts(*event),
    {
        match event {
            LoadEvent::RepositoryStarted { repository_index, .. } => *repository_index < usize::MAX,
            LoadEvent::BranchPage { repository_index, .. } => *repository_index < usize::MAX,
            LoadEvent::BranchStarted { repository_index, branch_index, .. } => *repository_index
                < usize::MAX && *branch_index < usize::MAX,
            LoadEvent::CommitPage { repository_index, branch_index, .. } => *repository_index
                < usize::MAX && *branch_index < usize::MAX,
            LoadEvent::RepositorySnapshot { repository_index, .. } => *repository_index
                < usize::MAX,
            LoadEvent::RepositoryLoaded { repository_index, .. } => *repository_index < usize::MAX,
            LoadEvent::Failure(_) => self.failures.len() < MAX_VISIBLE_FAILURES
                || self.omitted_failures < usize::MAX,
            _ => true,
        }
    }
}

} // verus!

verus! {

/// Whether some repository has a commit.
fn any_commits(repositories: &Vec<Repository>) -> (found: bool)
    ensures
        found == !(forall|i: int|
            0 <= i < repositories@.len() ==> (#[trigger] crate::inbox::repositories_view(
                repositories@,
            )[i]).commits.len() == 0),
{
    let mut i: usize = 0;
    while i < repositories.len()
        invariant
            i <= repositories@.len(),
            forall|j: int|
                0 <= j < i ==> (#[trigger] crate::inbox::repositories_view(repositories@)[j]).commits.len()
                    == 0,
        decreases repositories.len() - i,
    {
        if repositories[i].commits.len() > 0 {
            assert(crate::inbox::repositories_view(repositories@)[i as int].commits.len() > 0);
            return true;
        }
        i = i + 1;
    }
    false
}

impl LiveInboxState {
    /// Applies a loader event; `repositories` are the repositories that the inbox shows when it
    /// arrives.
    pub fn apply_event(&mut self, event: LoadEvent, repositories: &Vec<Repository>)
        requires
            old(self)@.accepts(event),
            old(self)@.well_keyed(),
        ensures
            final(self)@ == old(self)@.after_event(
                event,
                crate::inbox::repositories_view(repositories@),
            ),
            final(self)@.well_keyed(),
    {
        match event {
            LoadEvent::DiscoveryPage { page, owned_repositories } => {
                self.progress.repositories_discovered = owned_repositories;
                self.phase = LivePhase::Discovering { page, owned_repositories };
            },
            LoadEvent::RepositoriesDiscovered { total } => {
                self.progress.repositories_discovered = total;
                self.phase = LivePhase::LoadingRepository { repository: 0, total };
            },
            LoadEvent::RepositoryStarted { repository_index, total } => {
                self.phase = LivePhase::LoadingRepository {
                    repository: repository_index + 1,
                    total,
                };
            },
            LoadEvent::BranchPage { repository_index, page, branches } => {
                upsert(&mut self.branch_totals, repository_index, branches);
                self.progress.branches_discovered = total_count(&self.branch_totals);
                self.phase = LivePhase::LoadingBranches {
                    repository: repository_index + 1,
                    page,
                    branches,
                };
            },
            LoadEvent::BranchStarted { repository_index, branch_index, total } => {
                self.phase = LivePhase::LoadingCommits {
                    repository: repository_index + 1,
                    branch: branch_index + 1,
                    branches: total,
                    page: 0,
                    accepted_commits: 0,
                };
            },
            LoadEvent::CommitPage { repository_index, branch_index, page, accepted_commits } => {
                let branches = match self.phase {
                    LivePhase::LoadingCommits { branches, .. } => branches,
                    _ => branch_index + 1,
                };
                self.phase = LivePhase::LoadingCommits {
                    repository: repository_index + 1,
                    branch: branch_index + 1,
                    branches,
                    page,
                    accepted_commits,
                };
            },
            LoadEvent::RepositorySnapshot { repository_index, repository } => {
                match self.phase {
                    LivePhase::LoadingCommits { repository: current, branch, .. } => {
                        if current == repository_index + 1 {
                            upsert(&mut self.branches_done, repository_index, branch);
                            self.progress.branches_processed = total_count(&self.branches_done);
                        }
                    },
                    _ => {},
                }
                upsert(&mut self.loaded, repository_index, repository);
                self.progress.commits_loaded = self.available_commits();
            },
            LoadEvent::RepositoryLoaded { repository_index, repository } => {
                let branch_count = repository.branch_count;
                upsert(&mut self.branch_totals, repository_index, branch_count);
                upsert(&mut self.branches_done, repository_index, branch_count);
                upsert(&mut self.loaded, repository_index, repository);
                if self.progress.repositories_processed <= repository_index {
                    self.progress.repositories_processed = repository_index + 1;
                }
                self.progress.branches_discovered = total_count(&self.branch_totals);
                self.progress.branches_processed = total_count(&self.branches_done);
                self.progress.commits_loaded = self.available_commits();
            },
            LoadEvent::Failure(failure) => {
                if self.failures.len() < MAX_VISIBLE_FAILURES {
                    self.failures.push(failure);
                } else {
                    self.omitted_failures = self.omitted_failures + 1;
                }
            },
            LoadEvent::Finished { status, progress } => {
                self.progress = progress;
                self.phase = match status {
                    LoadStatus::Fatal => LivePhase::Fatal,
                    LoadStatus::Incomplete => LivePhase::Incomplete,
                    LoadStatus::Complete => if repositories.len() == 0 {
                        LivePhase::NoOwnedRepositories
                    } else if !any_commits(repositories) {
                        LivePhase::EmptyDay
                    } else {
                        LivePhase::Complete
                    },
                };
            },
        }
    }
}

} // verus!
