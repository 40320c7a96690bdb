//! The subcommands of the command line.

use vstd::prelude::*;

verus! {

/// What the user asks for.
#[derive(Debug)]
pub enum Commands {
    /// Show the status of all harnesses.
    Status,
    /// List the available profiles.
    List,
    /// Show the details of one profile.
    Show { name: String },
    /// Apply a profile: make its configuration the live one.
    Apply { name: String },
}

} // verus!
