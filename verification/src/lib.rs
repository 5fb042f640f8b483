//! Discovers repositories through a cursor-paginated search, inspects their
//! checkouts for formatter configuration files, and prepares what is written
//! to the store, with every decision stated as a contract and proved.
//!
//! The library sends nothing and reads nothing. It says which request to make
//! and which statement to run, and takes what came back.

pub mod cli;
pub mod database;
pub mod git;
pub mod github;
pub mod outside;
pub mod percentage;
pub mod rustfmt_toml;
pub mod text;
pub mod vectors;

pub use database::search::lookup_repositories;
pub use database::store::{store_in_db, store_rustfmt_configs};
pub use git::ClonedRepo;
pub use github::{
    GitHubRepoSearch, LanguageNode, ProgrammingLanguage, RepoSearchResults, Repository,
};
pub use percentage::Percentage;
pub use rustfmt_toml::RustfmtConfig;
