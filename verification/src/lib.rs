//! The fetch and cache engine of a comic downloader: which episodes to
//! fetch, what each episode still lacks, how a download pass proceeds, and
//! how its progress is reported.
pub mod cache;
pub mod config;
pub mod exports;
pub mod fetch;
pub mod integrity;
pub mod login;
pub mod network;
pub mod ord;
pub mod progress;
pub mod range;
pub mod text;
pub mod utils;
pub mod worker;
