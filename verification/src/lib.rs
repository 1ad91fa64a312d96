//! boswell watches git repositories and commits and pushes what changes in
//! them, reporting a push that cannot land as a GitHub issue.
//!
//! The library holds every decision: the commit subject, the steps of a sync
//! pass with its retry ladder, the filing of a report, and the watch loop's
//! timing. Each is a function from state and answer to next state and request,
//! stated over values and proved; running `git`, sleeping, reading the file
//! watcher and calling the GitHub API are left to the program around it.
pub mod config;
pub mod daemon;
pub mod git;
pub mod issue;
pub mod subject;
pub mod sync;
pub mod text;
