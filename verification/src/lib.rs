//! Verified core of a personal-finance ingestion pipeline: bank transactions
//! are fetched on a schedule, classified into spending buckets through a
//! fallback chain of language-model providers, and persisted with one
//! annotation per transaction.

pub mod auth;
pub mod bank;
pub mod classifier;
pub mod config;
pub mod db;
pub mod models;
pub mod search;
pub mod text;
