//! Profile synchronisation engine for harness configuration directories.
//!
//! A profile is a stored snapshot of a tool's live configuration tree. The
//! library decides which files move where when a profile is captured,
//! switched in or saved back; the caller performs the file operations.

pub mod text;
pub mod profile_name;
pub mod source;
pub mod mirror;
pub mod tree;
pub mod error;
pub mod marker;
pub mod registry;
pub mod manager;
pub mod capture;
pub mod order;
pub mod catalog;
pub mod laws;
pub mod harness;
pub mod commands;
pub mod targets;
