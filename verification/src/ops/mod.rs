//! Analyses of a directory tree and of a Git history, and their text reports.

pub mod classify;
pub mod cleanup;
pub mod storage;
pub mod duplicate;
pub mod git_history;
pub mod archive;
pub mod search;
