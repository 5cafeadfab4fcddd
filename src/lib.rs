//! Browse a repository's commit history while a background walk is still
//! filling it, and inspect the files of each commit.

pub mod object_id;
pub mod history;
pub mod cursor;
pub mod snapshot;
pub mod git_handle;
pub mod startup;
