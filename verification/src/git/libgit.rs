//! What this crate takes from libgit2, through the `git2` crate.

use vstd::prelude::*;

verus! {

/// What `git2::Branch::name_is_valid` answers for `name`: `Some(valid)` where
/// it returns `Ok(valid)`, `None` where it returns an error.
pub uninterp spec fn branch_name_check(name: Seq<char>) -> Option<bool>;

/// Calls `git2::Branch::name_is_valid`, which asks libgit2 whether `name` is
/// well-formed as a branch name, and hands an error back as its message. The
/// answer depends on the name alone, so the contract gives it the name
/// `branch_name_check`; it claims nothing of which names are well-formed, nor
/// of the message.
#[verifier::external_body]
pub(crate) fn check_branch_name(name: &str) -> (checked: Result<bool, String>)
    ensures
        match checked {
            Ok(valid) => branch_name_check(name@) == Some(valid),
            Err(_) => branch_name_check(name@) is None,
        },
{
    git2::Branch::name_is_valid(name).map_err(|error| error.message().to_string())
}

} // verus!
