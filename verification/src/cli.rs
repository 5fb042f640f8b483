//! What can be asked for on the command line.

use vstd::prelude::*;
use crate::github::search::{repo_of, GitHubRepoSearch, SearchConfig, MAX_REPOSITORIES_PER_PAGE};

verus! {

/// The command line.
#[derive(Debug)]
pub struct Cli {
    pub command: Commands,
}

/// The commands.
#[derive(Debug)]
pub enum Commands {
    /// Add repositories from the search into the database.
    AddRepositories {
        /// Limit of how many repositories to fetch on each page.
        limit: u16,
        /// Max number of pages to query.
        max_pages: u8,
        /// Filter for repositories that have this number of stars or more.
        stars: u16,
        /// The name of the repository to add: a name like `rustfmt`, or the
        /// name with the owner like `rust-lang/rustfmt`.
        repo: Option<String>,
        /// Print the repository details instead of storing them.
        dry_run: bool,
    },
    /// Check repositories out and store the configuration files found.
    ExtractRustfmtToml {
        /// Most repositories to check out.
        limit: u16,
        /// Print the configuration files instead of storing them.
        dry_run: bool,
    },
}

/// How a search is set for a page size, a number of pages, a number of stars
/// and, where one is given, a name.
pub open spec fn search_config(
    api_key: Seq<char>,
    user_agent: Seq<char>,
    limit: u16,
    max_pages: u8,
    stars: u16,
    repo: Option<Seq<char>>,
) -> SearchConfig {
    SearchConfig {
        api_key,
        user_agent,
        min_stars: stars as nat,
        limit: if limit <= MAX_REPOSITORIES_PER_PAGE {
            limit as nat
        } else {
            MAX_REPOSITORIES_PER_PAGE as nat
        },
        max_requests: Some(max_pages as nat),
        repo_name: match repo {
            Some(name) => Some(repo_of(name)),
            None => None,
        },
    }
}

impl Commands {
    /// The search that the command asks for, if it asks for one.
    pub fn search<'a>(&self, api_key: &'a str, user_agent: &'a str) -> (search: Option<
        GitHubRepoSearch<'a>,
    >)
        ensures
            match *self {
                Commands::AddRepositories { limit, max_pages, stars, repo, dry_run } => search
                    matches Some(s) && s@ == search_config(
                    api_key@,
                    user_agent@,
                    limit,
                    max_pages,
                    stars,
                    match repo {
                        Some(name) => Some(name@),
                        None => None,
                    },
                ),
                Commands::ExtractRustfmtToml { limit, dry_run } => search.is_none(),
            },
    {
        match self {
            Commands::AddRepositories { limit, max_pages, stars, repo, dry_run } => {
                let mut github_search = GitHubRepoSearch::new(api_key, user_agent);
                github_search.repositories_per_page(*limit as usize).max_pages(
                    *max_pages as usize,
                ).min_stars(*stars as usize);
                if let Some(name) = repo {
                    github_search.repository_name(name.as_str());
                }
                Some(github_search)
            },
            Commands::ExtractRustfmtToml { limit, dry_run } => None,
        }
    }

    /// Most repositories to check out, where the command asks for checkouts.
    pub fn checkout_limit(&self) -> (limit: Option<i32>)
        ensures
            match *self {
                Commands::AddRepositories { limit: l, max_pages, stars, repo, dry_run } => limit
                    .is_none(),
                Commands::ExtractRustfmtToml { limit: l, dry_run } => limit == Some(l as i32),
            },
    {
        match self {
            Commands::AddRepositories { limit, max_pages, stars, repo, dry_run } => None,
            Commands::ExtractRustfmtToml { limit, dry_run } => Some(*limit as i32),
        }
    }

    /// The command only prints what it finds.
    pub fn dry_run(&self) -> (dry: bool)
        ensures
            match *self {
                Commands::AddRepositories { limit, max_pages, stars, repo, dry_run } => dry
                    == dry_run,
                Commands::ExtractRustfmtToml { limit, dry_run } => dry == dry_run,
            },
    {
        match self {
            Commands::AddRepositories { limit, max_pages, stars, repo, dry_run } => *dry_run,
            Commands::ExtractRustfmtToml { limit, dry_run } => *dry_run,
        }
    }
}

} // verus!
