//! A repository as a stored row gives it back.

use vstd::prelude::*;
use vstd::string::*;
use time::OffsetDateTime;
use crate::github::graphql::{
    browse_address, ensure_git_suffix, git_suffix, with_git_suffix, RepositoryRecord,
};
use crate::percentage::Percentage;
use crate::text::ends_with;

verus! {

/// One row of the repository table.
#[derive(Debug)]
pub struct GitRepository {
    id: String,
    name_with_owner: String,
    git_url: String,
    percent_of_code_in_rust: Percentage,
    commit_hash: String,
    is_fork: bool,
    is_locked: bool,
    archived_at: Option<OffsetDateTime>,
    pushed_at: OffsetDateTime,
    updated_at: OffsetDateTime,
}

impl View for GitRepository {
    type V = RepositoryRecord;

    closed spec fn view(&self) -> RepositoryRecord {
        RepositoryRecord {
            id: self.id@,
            name_with_owner: self.name_with_owner@,
            git_url: self.git_url@,
            percent_of_code_in_rust: self.percent_of_code_in_rust@,
            commit_hash: self.commit_hash@,
            is_fork: self.is_fork,
            is_locked: self.is_locked,
            archived_at: self.archived_at,
            pushed_at: self.pushed_at,
            updated_at: self.updated_at,
        }
    }
}

impl Clone for GitRepository {
    fn clone(&self) -> (copy: GitRepository)
        ensures
            copy@ == self@,
    {
        proof {
            use_type_invariant(self);
        }
        GitRepository {
            id: self.id.clone(),
            name_with_owner: self.name_with_owner.clone(),
            git_url: self.git_url.clone(),
            percent_of_code_in_rust: self.percent_of_code_in_rust,
            commit_hash: self.commit_hash.clone(),
            is_fork: self.is_fork,
            is_locked: self.is_locked,
            archived_at: self.archived_at,
            pushed_at: self.pushed_at,
            updated_at: self.updated_at,
        }
    }
}

impl GitRepository {
    #[verifier::type_invariant]
    spec fn keeps_suffix(&self) -> bool {
        ends_with(self.git_url@, git_suffix())
    }

    /// Takes the columns of one row. The clone address gets its `.git` suffix
    /// where the row lacks it, so that every record has it.
    pub fn new(
        id: String,
        name_with_owner: String,
        git_url: String,
        percent_of_code_in_rust: Percentage,
        commit_hash: String,
        is_fork: bool,
        is_locked: bool,
        archived_at: Option<OffsetDateTime>,
        pushed_at: OffsetDateTime,
        updated_at: OffsetDateTime,
    ) -> (row: GitRepository)
        ensures
            row@ == (RepositoryRecord {
                id: id@,
                name_with_owner: name_with_owner@,
                git_url: with_git_suffix(git_url@),
                percent_of_code_in_rust: percent_of_code_in_rust@,
                commit_hash: commit_hash@,
                is_fork,
                is_locked,
                archived_at,
                pushed_at,
                updated_at,
            }),
            row@.well_formed(),
    {
        let git_url = ensure_git_suffix(git_url);
        GitRepository {
            id,
            name_with_owner,
            git_url,
            percent_of_code_in_rust,
            commit_hash,
            is_fork,
            is_locked,
            archived_at,
            pushed_at,
            updated_at,
        }
    }

    pub fn id(&self) -> (id: &str)
        ensures
            id@ == self@.id,
    {
        self.id.as_str()
    }

    pub fn name_with_owner(&self) -> (name: &str)
        ensures
            name@ == self@.name_with_owner,
    {
        self.name_with_owner.as_str()
    }

    /// The address to browse the repository at: the clone address without
    /// `.git`.
    pub fn url(&self) -> (url: &str)
        ensures
            url@ == self@.url(),
            url@ + git_suffix() == self@.git_url,
    {
        proof {
            use_type_invariant(self);
        }
        browse_address(self.git_url.as_str())
    }

    pub fn git_url(&self) -> (git_url: &str)
        ensures
            git_url@ == self@.git_url,
            self@.well_formed(),
    {
        proof {
            use_type_invariant(self);
        }
        self.git_url.as_str()
    }

    pub fn percent_of_code_in_rust(&self) -> (percent: Percentage)
        ensures
            percent@ == self@.percent_of_code_in_rust,
    {
        self.percent_of_code_in_rust
    }

    pub fn commit_hash(&self) -> (hash: &str)
        ensures
            hash@ == self@.commit_hash,
    {
        self.commit_hash.as_str()
    }

    pub fn is_fork(&self) -> (is_fork: bool)
        ensures
            is_fork == self@.is_fork,
    {
        self.is_fork
    }

    pub fn is_locked(&self) -> (is_locked: bool)
        ensures
            is_locked == self@.is_locked,
    {
        self.is_locked
    }

    pub fn archived_at(&self) -> (archived_at: Option<OffsetDateTime>)
        ensures
            archived_at == self@.archived_at,
    {
        self.archived_at
    }

    pub fn pushed_at(&self) -> (pushed_at: OffsetDateTime)
        ensures
            pushed_at == self@.pushed_at,
    {
        self.pushed_at
    }

    pub fn updated_at(&self) -> (updated_at: OffsetDateTime)
        ensures
            updated_at == self@.updated_at,
    {
        self.updated_at
    }
}

} // verus!
