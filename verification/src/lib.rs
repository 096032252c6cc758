//! Fetching of multi-file remote repositories into a local, content-addressed
//! cache: addressing, cache layout, metadata resolution, chunk planning and
//! the retry policy, with their contracts.

pub mod text;
pub mod error;
pub mod paths;
pub mod repo;
pub mod locator;
pub mod chunks;
pub mod resolve;
pub mod retry;
pub mod cache;
pub mod api;
pub mod client;
