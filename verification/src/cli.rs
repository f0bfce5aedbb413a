//! The commands that the program understands.

use vstd::prelude::*;

verus! {

/// One invocation of the program.
#[derive(Debug, Clone, PartialEq, Eq)]
pub enum Command {
    /// Rebuild every local package whose recipe changed upstream.
    Update,
    /// Build and install the named packages.
    Install { packages: Vec<String> },
    /// List the packages that match a term.
    Search { term: String },
}

} // verus!
