//! The logic of a tool that exports Salesforce objects to Parquet files: which fields an
//! export takes, what its columns hold, where it is written, how a batch goes on, and when
//! an access token is used again.

pub mod civil;
pub mod columns;
pub mod config;
pub mod export;
pub mod fetch;
pub mod fields;
pub mod json;
pub mod listing;
pub mod output;
pub mod text;
pub mod token_cache;
