//! What is written to and read from the relational store.

pub mod ingestion;
pub mod merge;
pub mod model;
pub mod repository;
pub mod search;
pub mod statement;
pub mod store;
