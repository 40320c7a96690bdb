//! The errors that the engine reports.

use vstd::prelude::*;

verus! {

/// What can go wrong in a profile operation.
#[derive(Debug)]
pub enum Error {
    /// No configuration directory could be found; the reason is attached.
    ConfigNotFound(String),
    /// The settings could not be read or written.
    Config(String),
    /// A profile of that name is already stored.
    ProfileExists(String),
    /// No profile of that name is stored.
    ProfileNotFound(String),
    /// A file operation failed.
    Io(String),
    /// The harness could not answer.
    Harness(String),
}

} // verus!
