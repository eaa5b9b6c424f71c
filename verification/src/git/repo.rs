use vstd::prelude::*;
use vstd::string::*;

use crate::error::Error;
use crate::git::git_wrapper::GitBranch;
use crate::git::libgit::{branch_name_check, check_branch_name};

verus! {

/// git takes `name` as the name of a branch.
pub open spec fn well_formed_branch_name(name: Seq<char>) -> bool {
    branch_name_check(name) == Some(true)
}

/// Some listed branch bears `name`, letter for letter.
pub open spec fn is_local_branch(branches: Seq<GitBranch>, name: Seq<char>) -> bool {
    exists|i: int| 0 <= i < branches.len() && (#[trigger] branches[i]).name@ == name
}

/// Whether an answer of libgit2 says that a name is well-formed. An answer
/// that is an error does not.
pub fn accepts(checked: &Result<bool, String>) -> (well_formed: bool)
    ensures
        well_formed == (*checked == Ok::<bool, String>(true)),
{
    match checked {
        Ok(valid) => *valid,
        Err(_) => false,
    }
}

/// Whether git takes `name` as the name of a branch. A name that libgit2
/// cannot examine counts as malformed.
pub fn is_well_formed_branch_name(name: &str) -> (well_formed: bool)
    ensures
        well_formed == well_formed_branch_name(name@),
{
    let checked = check_branch_name(name);
    accepts(&checked)
}

/// The verdict on a name that no listed branch bears, given the answer of
/// libgit2: the answer itself, an error with its reason.
pub fn verdict_of(checked: Result<bool, String>) -> (verdict: Result<bool, Error>)
    ensures
        verdict == (match checked {
            Ok(valid) => Ok::<bool, Error>(valid),
            Err(reason) => Err(Error::Git(reason)),
        }),
{
    match checked {
        Ok(valid) => Ok(valid),
        Err(reason) => Err(Error::Git(reason)),
    }
}

/// Whether some listed branch bears `name`.
pub fn is_taken(local_branches: &Vec<GitBranch>, name: &String) -> (taken: bool)
    ensures
        taken == is_local_branch(local_branches@, name@),
{
    let mut i: usize = 0;
    while i < local_branches.len()
        invariant
            i <= local_branches.len(),
            forall|j: int| 0 <= j < i ==> (#[trigger] local_branches@[j]).name@ != name@,
        decreases local_branches.len() - i,
    {
        if local_branches[i].name == *name {
            return true;
        }
        i += 1;
    }
    false
}

/// Whether `name` can be given to a new branch beside `local_branches`: no
/// listed branch bears it and git takes it as a branch name. The name is only
/// examined if it is free, and an error comes back exactly where that
/// examination fails.
pub fn validate_branch_name(local_branches: &Vec<GitBranch>, name: &String) -> (verdict: Result<
    bool,
    Error,
>)
    ensures
        is_local_branch(local_branches@, name@) ==> verdict == Ok::<bool, Error>(false),
        !is_local_branch(local_branches@, name@) ==> match branch_name_check(name@) {
            Some(valid) => verdict == Ok::<bool, Error>(valid),
            None => verdict matches Err(Error::Git(_)),
        },
{
    if is_taken(local_branches, name) {
        return Ok(false);
    }
    verdict_of(check_branch_name(name.as_str()))
}

/// The full name of the reference under which a local branch is kept.
pub open spec fn branch_reference_of(branch_name: Seq<char>) -> Seq<char> {
    "refs/heads/"@ + branch_name
}

/// The full name of the reference under which the local branch
/// `branch_name` is kept: what is resolved and made the head to check the
/// branch out.
pub fn branch_reference(branch_name: &str) -> (reference: String)
    ensures
        reference@ == branch_reference_of(branch_name@),
{
    let mut reference = String::from_str("refs/heads/");
    reference.append(branch_name);
    reference
}

/// The index of the first name at or after `from` that is `wanted`; the
/// number of names if there is none. A branch without a readable name has
/// no name here.
pub open spec fn first_named(names: Seq<Option<String>>, wanted: Seq<char>, from: int) -> int
    decreases names.len() - from,
{
    if from < 0 || from >= names.len() {
        names.len() as int
    } else if names[from] matches Some(name) && name@ == wanted {
        from
    } else {
        first_named(names, wanted, from + 1)
    }
}

/// Which of the branches that the repository lists is to be deleted as
/// `to_delete`: the first that bears its name. `names` holds the name of each
/// listed branch in the order of the listing, `None` for a branch whose name
/// cannot be read; such a branch is passed over. `None` says that no listed
/// branch bears the name, and then nothing is deleted.
pub fn branch_to_delete(names: &Vec<Option<String>>, to_delete: &GitBranch) -> (found: Option<
    usize,
>)
    ensures
        match found {
            Some(at) => at < names@.len() && at == first_named(names@, to_delete.name@, 0),
            None => first_named(names@, to_delete.name@, 0) == names@.len(),
        },
{
    let mut at: usize = 0;
    while at < names.len()
        invariant
            at <= names.len(),
            first_named(names@, to_delete.name@, 0) == first_named(
                names@,
                to_delete.name@,
                at as int,
            ),
        decreases names.len() - at,
    {
        match &names[at] {
            Some(name) => {
                if *name == to_delete.name {
                    return Some(at);
                }
            },
            None => {},
        }
        at += 1;
    }
    None
}

} // verus!
