//! Audits the freshness of the packages named by an npm dependency-lock
//! manifest: it extracts the registry identifiers from the manifest, fetches
//! each package's publish-time history under a bounded concurrency window,
//! reduces each history to its most recent non-metadata publication, and
//! sorts the resulting facts by timestamp.

pub mod json;
pub mod manifest;
pub mod opts;
pub mod parse;
pub mod reduce;
pub mod schedule;
pub mod sort;
pub mod strutil;
