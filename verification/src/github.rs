//! Repositories, whatever their origin, and the search that discovers them.

pub mod graphql;
pub mod search;

use vstd::prelude::*;
use vstd::std_specs::convert::FromSpec;
use time::OffsetDateTime;
use crate::database::repository::GitRepository;
use crate::percentage::Percentage;
use graphql::{git_suffix, RepositoryInfo, RepositoryRecord};

pub use graphql::{LanguageNode, Languages, ProgrammingLanguage};
pub use search::{GitHubRepoSearch, RepoSearchResults};

verus! {

#[derive(Debug)]
enum RepositoryInner {
    GitHub(RepositoryInfo),
    Database(GitRepository),
}

/// A repository, discovered by a search or read back from the store. Both
/// origins answer the same questions, so nothing that uses a repository has to
/// know where it came from.
#[derive(Debug)]
pub struct Repository {
    inner: RepositoryInner,
}

impl View for Repository {
    type V = RepositoryRecord;

    closed spec fn view(&self) -> RepositoryRecord {
        match self.inner {
            RepositoryInner::GitHub(repo) => repo@,
            RepositoryInner::Database(repo) => repo@,
        }
    }
}

impl Clone for Repository {
    fn clone(&self) -> (copy: Repository)
        ensures
            copy@ == self@,
    {
        match &self.inner {
            RepositoryInner::GitHub(repo) => Repository {
                inner: RepositoryInner::GitHub(repo.clone()),
            },
            RepositoryInner::Database(repo) => Repository {
                inner: RepositoryInner::Database(repo.clone()),
            },
        }
    }
}

impl Repository {
    /// A repository that a search discovered.
    pub fn from_search(value: RepositoryInfo) -> (repository: Repository)
        ensures
            repository@ == value@,
    {
        Repository { inner: RepositoryInner::GitHub(value) }
    }

    /// A repository that was read back from the store.
    pub fn from_row(value: GitRepository) -> (repository: Repository)
        ensures
            repository@ == value@,
    {
        Repository { inner: RepositoryInner::Database(value) }
    }

    pub fn id(&self) -> (id: &str)
        ensures
            id@ == self@.id,
    {
        match &self.inner {
            RepositoryInner::GitHub(repo) => repo.id(),
            RepositoryInner::Database(repo) => repo.id(),
        }
    }

    pub fn name_with_owner(&self) -> (name: &str)
        ensures
            name@ == self@.name_with_owner,
    {
        match &self.inner {
            RepositoryInner::GitHub(repo) => repo.name_with_owner(),
            RepositoryInner::Database(repo) => repo.name_with_owner(),
        }
    }

    /// The address to browse the repository at. It is the clone address with
    /// exactly the `.git` suffix removed, for every repository.
    pub fn url(&self) -> (url: &str)
        ensures
            url@ == self@.url(),
            url@ + git_suffix() == self@.git_url,
    {
        match &self.inner {
            RepositoryInner::GitHub(repo) => repo.url(),
            RepositoryInner::Database(repo) => repo.url(),
        }
    }

    /// The address to clone the repository from. It always ends with `.git`.
    pub fn git_url(&self) -> (git_url: &str)
        ensures
            git_url@ == self@.git_url,
            self@.well_formed(),
    {
        match &self.inner {
            RepositoryInner::GitHub(repo) => repo.git_url(),
            RepositoryInner::Database(repo) => repo.git_url(),
        }
    }

    pub fn percent_of_code_in_rust(&self) -> (percent: Percentage)
        ensures
            percent@ == self@.percent_of_code_in_rust,
    {
        match &self.inner {
            RepositoryInner::GitHub(repo) => repo.percent_of_code_in_rust(),
            RepositoryInner::Database(repo) => repo.percent_of_code_in_rust(),
        }
    }

    pub fn commit_hash(&self) -> (hash: &str)
        ensures
            hash@ == self@.commit_hash,
    {
        match &self.inner {
            RepositoryInner::GitHub(repo) => repo.commit_hash(),
            RepositoryInner::Database(repo) => repo.commit_hash(),
        }
    }

    pub fn is_fork(&self) -> (is_fork: bool)
        ensures
            is_fork == self@.is_fork,
    {
        match &self.inner {
            RepositoryInner::GitHub(repo) => repo.is_fork(),
            RepositoryInner::Database(repo) => repo.is_fork(),
        }
    }

    pub fn is_locked(&self) -> (is_locked: bool)
        ensures
            is_locked == self@.is_locked,
    {
        match &self.inner {
            RepositoryInner::GitHub(repo) => repo.is_locked(),
            RepositoryInner::Database(repo) => repo.is_locked(),
        }
    }

    pub fn archived_at(&self) -> (archived_at: Option<OffsetDateTime>)
        ensures
            archived_at == self@.archived_at,
    {
        match &self.inner {
            RepositoryInner::GitHub(repo) => repo.archived_at(),
            RepositoryInner::Database(repo) => repo.archived_at(),
        }
    }

    pub fn pushed_at(&self) -> (pushed_at: OffsetDateTime)
        ensures
            pushed_at == self@.pushed_at,
    {
        match &self.inner {
            RepositoryInner::GitHub(repo) => repo.pushed_at(),
            RepositoryInner::Database(repo) => repo.pushed_at(),
        }
    }

    pub fn updated_at(&self) -> (updated_at: OffsetDateTime)
        ensures
            updated_at == self@.updated_at,
    {
        match &self.inner {
            RepositoryInner::GitHub(repo) => repo.updated_at(),
            RepositoryInner::Database(repo) => repo.updated_at(),
        }
    }
}

impl From<RepositoryInfo> for Repository {
    fn from(value: RepositoryInfo) -> (repository: Repository) {
        Repository { inner: RepositoryInner::GitHub(value) }
    }
}

impl vstd::std_specs::convert::FromSpecImpl<RepositoryInfo> for Repository {
    open spec fn obeys_from_spec() -> bool {
        true
    }

    closed spec fn from_spec(value: RepositoryInfo) -> Repository {
        Repository { inner: RepositoryInner::GitHub(value) }
    }
}

impl From<GitRepository> for Repository {
    fn from(value: GitRepository) -> (repository: Repository) {
        Repository { inner: RepositoryInner::Database(value) }
    }
}

impl vstd::std_specs::convert::FromSpecImpl<GitRepository> for Repository {
    open spec fn obeys_from_spec() -> bool {
        true
    }

    closed spec fn from_spec(value: GitRepository) -> Repository {
        Repository { inner: RepositoryInner::Database(value) }
    }
}

/// A repository made from a search result says what the search result says.
pub proof fn lemma_from_search_keeps_record(value: RepositoryInfo)
    ensures
        <Repository as FromSpec<RepositoryInfo>>::from_spec(value)@ == value@,
{
}

/// A repository made from a stored row says what the row says.
pub proof fn lemma_from_row_keeps_record(value: GitRepository)
    ensures
        <Repository as FromSpec<GitRepository>>::from_spec(value)@ == value@,
{
}

} // verus!
