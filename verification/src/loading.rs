use vstd::prelude::*;

use crate::inbox::{Repository, RepositoryView};

verus! {

/// Why a loading step failed, as shown to the user.
#[derive(Clone, Copy, Debug, PartialEq, Eq, Structural)]
pub enum FailureCategory {
    Authentication,
    MissingGh,
    PermissionOrNotFound,
    RateLimit,
    MalformedResponse,
    MalformedJson,
    Offline,
    Transport,
    Command,
    Api,
    Cancelled,
}

/// Which part of the loading a failure concerns.
#[derive(Clone, Copy, Debug, PartialEq, Eq, Structural)]
pub enum FailureScope {
    Authentication,
    Discovery,
    Repository { repository_index: usize },
    Branch { repository_index: usize, branch_index: usize },
}

/// A sanitized loading failure.
#[derive(Clone, Copy, Debug, PartialEq, Eq, Structural)]
pub struct LoadFailure {
    pub category: FailureCategory,
    pub scope: FailureScope,
    pub http_status: Option<u16>,
}

/// How a whole load ended.
#[derive(Clone, Copy, Debug, PartialEq, Eq, Structural)]
pub enum LoadStatus {
    Complete,
    Incomplete,
    Fatal,
}

/// Counters of the loading progress.
#[derive(Clone, Copy, Debug, PartialEq, Eq, Structural)]
pub struct LoadProgress {
    pub repositories_discovered: usize,
    pub repositories_processed: usize,
    pub branches_discovered: usize,
    pub branches_processed: usize,
    pub commits_loaded: usize,
}

impl LoadProgress {
    /// Progress before anything is loaded: every counter zero.
    pub fn zero() -> (progress: LoadProgress)
        ensures
            progress == (LoadProgress {
                repositories_discovered: 0,
                repositories_processed: 0,
                branches_discovered: 0,
                branches_processed: 0,
                commits_loaded: 0,
            }),
    {
        LoadProgress {
            repositories_discovered: 0,
            repositories_processed: 0,
            branches_discovered: 0,
            branches_processed: 0,
            commits_loaded: 0,
        }
    }
}

/// How completely the branches of a repository were read.
#[derive(Clone, Copy, Debug, PartialEq, Eq, Structural)]
pub enum RepositoryCoverage {
    Complete,
    BranchesIncomplete { failed_branches: usize },
}

/// A repository as loaded so far, with its branch count and coverage.
#[derive(Debug)]
pub struct LoadedRepository {
    pub repository: Repository,
    pub branch_count: usize,
    pub coverage: RepositoryCoverage,
}

/// The content of a loaded repository, as values.
pub struct LoadedRepositoryView {
    pub repository: RepositoryView,
    pub branch_count: usize,
    pub coverage: RepositoryCoverage,
}

impl View for LoadedRepository {
    type V = LoadedRepositoryView;

    open spec fn view(&self) -> LoadedRepositoryView {
        LoadedRepositoryView {
            repository: self.repository@,
            branch_count: self.branch_count,
            coverage: self.coverage,
        }
    }
}

impl Clone for LoadedRepository {
    fn clone(&self) -> (copy: Self)
        ensures
            copy@ == self@,
    {
        LoadedRepository {
            repository: self.repository.clone(),
            branch_count: self.branch_count,
            coverage: self.coverage,
        }
    }
}

/// What the loader reports to the application.
#[derive(Clone, Debug)]
pub enum LoadEvent {
    DiscoveryPage { page: usize, owned_repositories: usize },
    RepositoriesDiscovered { total: usize },
    RepositoryStarted { repository_index: usize, total: usize },
    BranchPage { repository_index: usize, page: usize, branches: usize },
    BranchStarted { repository_index: usize, branch_index: usize, total: usize },
    CommitPage {
        repository_index: usize,
        branch_index: usize,
        page: usize,
        accepted_commits: usize,
    },
    RepositorySnapshot { repository_index: usize, repository: LoadedRepository },
    RepositoryLoaded { repository_index: usize, repository: LoadedRepository },
    Failure(LoadFailure),
    Finished { status: LoadStatus, progress: LoadProgress },
}

} // verus!
