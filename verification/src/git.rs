//! Where a package's recipe is cloned from and how a pull is read.

use vstd::prelude::*;
use vstd::string::*;
use crate::error::ToolError;
use crate::text::{contains_text, occurs_in, Text};

verus! {

/// The address of the repository that holds the recipe of `name`.
pub open spec fn clone_url_text(name: Text) -> Text {
    "https://aur.archlinux.org/"@ + name + ".git"@
}

/// The address of the repository that holds the recipe of the package `name`.
pub fn clone_url(name: &str) -> (url: String)
    ensures
        url@ == clone_url_text(name@),
{
    let mut url = String::from_str("https://aur.archlinux.org/");
    url.append(name);
    url.append(".git");
    url
}

/// Whether a pull brought new content, judged by what it printed: it did
/// unless the output holds the word "Already".
pub fn pull_changed(stdout: &str) -> (changed: bool)
    ensures
        changed == !occurs_in("Already"@, stdout@),
{
    !contains_text(stdout, "Already")
}

/// What a pull says, from whether it succeeded and what it printed: a
/// pull that did not succeed is a failure, whatever it printed.
pub fn pull_outcome(success: bool, stdout: &str) -> (changed: Result<bool, ToolError>)
    ensures
        changed == if success {
            Ok::<bool, ToolError>(!occurs_in("Already"@, stdout@))
        } else {
            Err::<bool, ToolError>(ToolError::Pull)
        },
{
    if success {
        Ok(pull_changed(stdout))
    } else {
        Err(ToolError::Pull)
    }
}

} // verus!
