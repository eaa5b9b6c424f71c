//! The mathematical model of the branch list: what each operation makes of
//! the rows and of the cursor.

use vstd::prelude::*;

use crate::components::branch_list::branch_item::BranchItem;
use crate::error::Error;
use crate::git::git_wrapper::GitBranch;
use crate::order::name_le;

verus! {

/// The index brought into `0..len`: an index past the end stands for the
/// last row. Of an empty list it is 0.
pub open spec fn clamp_index(len: nat, index: nat) -> nat {
    if len == 0 {
        0
    } else if index >= len {
        (len - 1) as nat
    } else {
        index
    }
}

/// The cursor after a step down, which wraps from the last row to the first.
/// On an empty list the cursor stays.
pub open spec fn next_index(len: nat, index: nat) -> nat {
    if len == 0 {
        index
    } else if clamp_index(len, index) + 1 == len {
        0
    } else {
        clamp_index(len, index) + 1
    }
}

/// The cursor after a step up, which wraps from the first row to the last.
/// On an empty list the cursor stays.
pub open spec fn previous_index(len: nat, index: nat) -> nat {
    if len == 0 {
        index
    } else if clamp_index(len, index) == 0 {
        (len - 1) as nat
    } else {
        (clamp_index(len, index) - 1) as nat
    }
}

/// The unmarked row that stands for a branch the backend has listed.
pub open spec fn listed_item(branch: GitBranch) -> BranchItem {
    BranchItem {
        branch,
        staged_for_creation: false,
        staged_for_deletion: false,
        is_valid_name: true,
    }
}

/// The rows for the branches that the backend has listed, in its order.
pub open spec fn listed_items(branches: Seq<GitBranch>) -> Seq<BranchItem> {
    branches.map_values(|branch: GitBranch| listed_item(branch))
}

/// The row of a branch that has just been created under `name`.
pub open spec fn created_item(name: String) -> BranchItem {
    listed_item(GitBranch { name, is_head: false, upstream: None })
}

/// The rows once `name` has been checked out.
pub open spec fn with_head(items: Seq<BranchItem>, name: Seq<char>) -> Seq<BranchItem> {
    items.map_values(|item: BranchItem| item.checked_out(name))
}

/// Some row bears `name`, letter for letter.
pub open spec fn is_listed(items: Seq<BranchItem>, name: Seq<char>) -> bool {
    exists|i: int| 0 <= i < items.len() && (#[trigger] items[i]).branch.name@ == name
}

/// The number of rows that bear `name`.
pub open spec fn count_named(items: Seq<BranchItem>, name: Seq<char>) -> nat
    decreases items.len(),
{
    if items.len() == 0 {
        0
    } else if items.last().branch.name@ == name {
        count_named(items.drop_last(), name) + 1
    } else {
        count_named(items.drop_last(), name)
    }
}

/// The index of the first row at or after `from` that bears `name`; the
/// length of the list if there is none.
pub open spec fn position_from(items: Seq<BranchItem>, name: Seq<char>, from: int) -> int
    decreases items.len() - from,
{
    if from < 0 || from >= items.len() {
        items.len() as int
    } else if items[from].branch.name@ == name {
        from
    } else {
        position_from(items, name, from + 1)
    }
}

/// The cursor that points at the first row named `name`, or at the first row
/// of all if no row bears the name.
pub open spec fn cursor_on(items: Seq<BranchItem>, name: Seq<char>) -> nat {
    if position_from(items, name, 0) < items.len() {
        position_from(items, name, 0) as nat
    } else {
        0
    }
}

/// No two rows bear the same name.
pub open spec fn names_distinct(items: Seq<BranchItem>) -> bool {
    forall|i: int, j: int|
        0 <= i < j < items.len() ==> (#[trigger] items[i]).branch.name@ != (
        #[trigger] items[j]).branch.name@
}

/// At most one row is the checked-out branch.
pub open spec fn at_most_one_head(items: Seq<BranchItem>) -> bool {
    forall|i: int, j: int|
        0 <= i < j < items.len() ==> !((#[trigger] items[i]).branch.is_head && (
        #[trigger] items[j]).branch.is_head)
}

/// The rows stand in the order of their names.
pub open spec fn sorted_by_name(items: Seq<BranchItem>) -> bool {
    forall|i: int, j: int|
        0 <= i < j < items.len() ==> name_le(
            (#[trigger] items[i]).branch.name@,
            (#[trigger] items[j]).branch.name@,
        )
}

/// `item` put into rows that stand in order: behind every row whose name
/// comes no later than its own.
pub open spec fn insert_by_name(sorted: Seq<BranchItem>, item: BranchItem) -> Seq<BranchItem>
    decreases sorted.len(),
{
    if sorted.len() == 0 {
        seq![item]
    } else if name_le(sorted.last().branch.name@, item.branch.name@) {
        sorted.push(item)
    } else {
        insert_by_name(sorted.drop_last(), item).push(sorted.last())
    }
}

/// The rows in the order of their names, rows of one name in the order in
/// which they stood.
pub open spec fn sort_by_name(items: Seq<BranchItem>) -> Seq<BranchItem>
    decreases items.len(),
{
    if items.len() == 0 {
        items
    } else {
        insert_by_name(sort_by_name(items.drop_last()), items.last())
    }
}

/// The number of rows before index `i` that are staged for deletion.
pub open spec fn staged_before(items: Seq<BranchItem>, i: int) -> nat
    decreases i,
{
    if i <= 0 || i > items.len() {
        0
    } else if items[i - 1].staged_for_deletion {
        staged_before(items, i - 1) + 1
    } else {
        staged_before(items, i - 1)
    }
}

/// The names of the rows that are staged for deletion, in the order of the
/// rows.
pub open spec fn staged_names(items: Seq<BranchItem>) -> Seq<String>
    decreases items.len(),
{
    if items.len() == 0 {
        Seq::empty()
    } else if items.last().staged_for_deletion {
        staged_names(items.drop_last()).push(items.last().branch.name)
    } else {
        staged_names(items.drop_last())
    }
}

/// Row `i` leaves the list in a batch deletion: it is staged, and the
/// deletion of the staged row of its rank was reported and succeeded.
/// `outcomes` holds one report for each staged row, in the order of the rows.
pub open spec fn doomed(items: Seq<BranchItem>, outcomes: Seq<Result<(), Error>>, i: int) -> bool {
    &&& 0 <= i < items.len()
    &&& items[i].staged_for_deletion
    &&& staged_before(items, i) < outcomes.len()
    &&& outcomes[staged_before(items, i) as int] is Ok
}

/// The rows at or after index `from` that stay in a batch deletion, in their
/// order.
pub open spec fn survivors_from(
    items: Seq<BranchItem>,
    outcomes: Seq<Result<(), Error>>,
    from: int,
) -> Seq<BranchItem>
    decreases items.len() - from,
{
    if from < 0 || from >= items.len() {
        Seq::empty()
    } else if doomed(items, outcomes, from) {
        survivors_from(items, outcomes, from + 1)
    } else {
        seq![items[from]] + survivors_from(items, outcomes, from + 1)
    }
}

/// The rows that stay in a batch deletion.
pub open spec fn survivors(items: Seq<BranchItem>, outcomes: Seq<Result<(), Error>>) -> Seq<
    BranchItem,
> {
    survivors_from(items, outcomes, 0)
}

/// The failure that was reported last, if any deletion failed.
pub open spec fn last_failure(outcomes: Seq<Result<(), Error>>) -> Option<Error>
    decreases outcomes.len(),
{
    if outcomes.len() == 0 {
        None
    } else {
        match outcomes.last() {
            Err(error) => Some(error),
            Ok(_) => last_failure(outcomes.drop_last()),
        }
    }
}

/// Rows that stay are handed on as they are: where no row of `a..b` leaves,
/// the rows that stay from `a` on are those rows followed by the rows that
/// stay from `b` on.
pub proof fn lemma_survivors_keep_run(
    items: Seq<BranchItem>,
    outcomes: Seq<Result<(), Error>>,
    a: int,
    b: int,
)
    requires
        0 <= a <= b <= items.len(),
        forall|j: int| a <= j < b ==> !doomed(items, outcomes, j),
    ensures
        survivors_from(items, outcomes, a) == items.subrange(a, b) + survivors_from(
            items,
            outcomes,
            b,
        ),
    decreases b - a,
{
    if a == b {
        assert(items.subrange(a, b) + survivors_from(items, outcomes, b) =~= survivors_from(
            items,
            outcomes,
            b,
        ));
    } else {
        lemma_survivors_keep_run(items, outcomes, a + 1, b);
        assert(seq![items[a]] + (items.subrange(a + 1, b) + survivors_from(items, outcomes, b))
            =~= items.subrange(a, b) + survivors_from(items, outcomes, b));
    }
}

/// Every row that stays in a batch deletion is a row of the list as it was.
pub proof fn lemma_survivors_are_items(
    items: Seq<BranchItem>,
    outcomes: Seq<Result<(), Error>>,
    from: int,
)
    requires
        0 <= from,
    ensures
        forall|k: int|
            0 <= k < survivors_from(items, outcomes, from).len() ==> items.contains(
                #[trigger] survivors_from(items, outcomes, from)[k],
            ),
    decreases items.len() - from,
{
    if from < items.len() {
        lemma_survivors_are_items(items, outcomes, from + 1);
        let rest = survivors_from(items, outcomes, from + 1);
        assert forall|k: int| 0 <= k < survivors_from(items, outcomes, from).len() implies items.contains(
            #[trigger] survivors_from(items, outcomes, from)[k],
        ) by {
            if !doomed(items, outcomes, from) && k > 0 {
                assert(survivors_from(items, outcomes, from)[k] == rest[k - 1]);
            }
        }
    }
}

} // verus!
