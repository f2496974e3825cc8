//! Synchronisation and versioning logic for a file-backed document store
//! shared by several connected clients: advisory file locks, change events,
//! self-write suppression for the filesystem watcher, and the decisions of
//! the version-control layer.

pub mod assets;
pub mod assoc;
pub mod clock;
pub mod config;
pub mod daily;
pub mod filesystem;
pub mod frontmatter;
pub mod git;
pub mod hub;
pub mod locks;
pub mod notes;
pub mod paths;
pub mod projects;
pub mod search;
pub mod tasks;
pub mod text;
pub mod watcher;
pub mod yaml;
