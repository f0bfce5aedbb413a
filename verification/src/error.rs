//! The ways in which a tool can fail.

use vstd::prelude::*;
use crate::text::Text;

verus! {

/// The step of a run whose tool ended with a failure.
#[derive(Clone, Copy, PartialEq, Eq, Structural, Debug)]
pub enum ToolError {
    /// Cloning a repository.
    Clone,
    /// Cleaning a package directory.
    Clean,
    /// Pulling into a package directory.
    Pull,
    /// Building a package.
    Build,
    /// Installing dependencies by name.
    Install,
    /// Asking whether a package is installed.
    Query,
    /// Installing built archives.
    InstallLocal,
}

impl ToolError {
    /// The sentence that names the failure.
    pub open spec fn text(self) -> Text {
        match self {
            ToolError::Clone => "non-zero exit code during git clone"@,
            ToolError::Clean => "non-zero exit code during git clean"@,
            ToolError::Pull => "non-zero exit code during git fetch"@,
            ToolError::Build => "non-zero exit code during makepkg"@,
            ToolError::Install => "non-zero exit code during pacman -S"@,
            ToolError::Query => "non-zero exit code during pacman -Q"@,
            ToolError::InstallLocal => "non-zero exit code during pacman -U"@,
        }
    }

    /// The sentence that names the failure.
    pub fn message(&self) -> (message: &'static str)
        ensures
            message@ == self.text(),
    {
        match self {
            ToolError::Clone => "non-zero exit code during git clone",
            ToolError::Clean => "non-zero exit code during git clean",
            ToolError::Pull => "non-zero exit code during git fetch",
            ToolError::Build => "non-zero exit code during makepkg",
            ToolError::Install => "non-zero exit code during pacman -S",
            ToolError::Query => "non-zero exit code during pacman -Q",
            ToolError::InstallLocal => "non-zero exit code during pacman -U",
        }
    }
}

/// What the end of a tool means for the step that ran it: the step failed
/// exactly when the tool did not succeed.
pub fn exit_outcome(success: bool, step: ToolError) -> (outcome: Result<(), ToolError>)
    ensures
        outcome == if success {
            Ok::<(), ToolError>(())
        } else {
            Err::<(), ToolError>(step)
        },
{
    if success {
        Ok(())
    } else {
        Err(step)
    }
}

} // verus!
