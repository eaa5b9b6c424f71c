//! Plain values that describe a repository, and the reading of what the
//! git command line prints.

pub mod git_wrapper;
pub mod libgit;
pub mod pattern;
pub mod repo;
