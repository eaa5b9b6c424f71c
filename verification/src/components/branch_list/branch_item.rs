use vstd::prelude::*;

use crate::git::git_wrapper::GitBranch;

verus! {

/// One row of the branch list: a branch and the marks that the interface
/// keeps on it.
#[derive(Debug, PartialEq, Eq)]
pub struct BranchItem {
    pub branch: GitBranch,
    /// Set only on the draft row of a branch that is being named.
    pub staged_for_creation: bool,
    pub staged_for_deletion: bool,
    /// Whether the draft's name is acceptable; read only on a draft row.
    pub is_valid_name: bool,
}

impl BranchItem {
    /// The checked-out branch is never staged for deletion.
    pub open spec fn wf(self) -> bool {
        self.branch.is_head ==> !self.staged_for_deletion
    }

    /// The item after a request to set its deletion mark to `stage`: the
    /// checked-out branch refuses the request.
    pub open spec fn staged(self, stage: bool) -> BranchItem {
        if self.branch.is_head {
            self
        } else {
            BranchItem { staged_for_deletion: stage, ..self }
        }
    }

    /// The item once `name` has been checked out: it is the head exactly if
    /// it bears that name, and a head loses its deletion mark.
    pub open spec fn checked_out(self, name: Seq<char>) -> BranchItem {
        let is_head = self.branch.name@ == name;
        BranchItem {
            branch: GitBranch { is_head, ..self.branch },
            staged_for_deletion: self.staged_for_deletion && !is_head,
            ..self
        }
    }

    /// An unmarked row for `branch`.
    pub fn new(branch: GitBranch, is_valid_name: bool) -> (item: Self)
        ensures
            item == (BranchItem {
                branch,
                staged_for_creation: false,
                staged_for_deletion: false,
                is_valid_name,
            }),
            item.wf(),
    {
        BranchItem { branch, staged_for_creation: false, staged_for_deletion: false, is_valid_name }
    }

    /// Sets or clears the deletion mark, unless this is the checked-out
    /// branch, which stays as it is.
    pub fn stage_for_deletion(&mut self, stage: bool)
        ensures
            *final(self) == old(self).staged(stage),
            old(self).wf() ==> final(self).wf(),
    {
        if self.branch.is_head {
            return ;
        }
        self.staged_for_deletion = stage;
    }

    /// Records that `name` is now the checked-out branch.
    pub fn mark_checked_out(&mut self, name: &String)
        ensures
            *final(self) == old(self).checked_out(name@),
            final(self).wf(),
    {
        let is_head = name_matches(&self.branch.name, name);
        self.branch.is_head = is_head;
        if is_head {
            self.staged_for_deletion = false;
        }
    }
}

/// Whether a branch name is, letter for letter, the name asked for.
pub fn name_matches(name: &String, wanted: &String) -> (same: bool)
    ensures
        same == (name@ == wanted@),
{
    *name == *wanted
}

impl Clone for BranchItem {
    fn clone(&self) -> (copy: Self)
        ensures
            copy == *self,
    {
        BranchItem {
            branch: self.branch.clone(),
            staged_for_creation: self.staged_for_creation,
            staged_for_deletion: self.staged_for_deletion,
            is_valid_name: self.is_valid_name,
        }
    }
}

} // verus!
