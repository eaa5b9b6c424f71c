//! What holds of the branch list whatever the keys pressed and whatever the
//! backend answers.

use vstd::prelude::*;

use crate::action::{Action, KeyCode, KeyEvent};
use crate::components::branch_list::branch_input::{acceptable_name, types_char};
use crate::components::branch_list::branch_item::BranchItem;
use crate::components::branch_list::model::{
    at_most_one_head,
    count_named,
    created_item,
    doomed,
    insert_by_name,
    is_listed,
    names_distinct,
    position_from,
    sort_by_name,
    sorted_by_name,
    survivors_from,
    with_head,
};
use crate::components::branch_list::sorting::{
    lemma_sort_by_name_count,
    lemma_sort_by_name_of_sorted,
    lemma_sort_by_name_rows,
    lemma_sort_by_name_sorted,
};
use crate::components::branch_list::request::{BackendCall, Request};
use crate::components::branch_list::state::{batch_answer, BranchListState};
use crate::error::Error;
use crate::order::name_le;

verus! {

/// The state after a walk of the cursor: each move is a step down (`true`)
/// or a step up (`false`).
pub open spec fn after_moves(state: BranchListState, moves: Seq<bool>) -> BranchListState
    decreases moves.len(),
{
    if moves.len() == 0 {
        state
    } else if moves.last() {
        after_moves(state, moves.drop_last()).after_next()
    } else {
        after_moves(state, moves.drop_last()).after_previous()
    }
}

/// However the cursor is moved over a list that has rows, the rows stay as
/// they are and the cursor points at one of them: from the start in a
/// well-formed list, and after the first move in any.
pub proof fn law_cursor_stays_on_a_row(state: BranchListState, moves: Seq<bool>)
    requires
        state.items.len() > 0,
        state.wf() || moves.len() > 0,
    ensures
        after_moves(state, moves).items == state.items,
        after_moves(state, moves).selected_index < state.items.len(),
{
    lemma_moves_keep_rows(state, moves);
}

/// Moving the cursor changes nothing but the cursor.
pub proof fn lemma_moves_keep_rows(state: BranchListState, moves: Seq<bool>)
    ensures
        after_moves(state, moves) == (BranchListState {
            selected_index: after_moves(state, moves).selected_index,
            ..state
        }),
    decreases moves.len(),
{
    if moves.len() > 0 {
        lemma_moves_keep_rows(state, moves.drop_last());
    }
}

/// The cursor wraps around: a step down from the last row leads to the
/// first, a step up from the first row leads to the last.
pub proof fn law_cursor_wraps(state: BranchListState)
    requires
        state.items.len() > 0,
    ensures
        state.selected_index == state.items.len() - 1 ==> state.after_next().selected_index == 0,
        state.selected_index == 0 ==> state.after_previous().selected_index == state.items.len()
            - 1,
{
}

/// The checked-out branch cannot be staged for deletion: whatever mark is
/// asked for while the cursor is on it, the state stays as it is and the
/// branch stays unmarked.
pub proof fn law_head_is_never_staged(state: BranchListState, stage: bool)
    requires
        state.wf(),
        state.selected() is Some,
        state.selected().unwrap().branch.is_head,
    ensures
        state.after_staging(stage) == state,
        !state.after_staging(stage).selected().unwrap().staged_for_deletion,
{
    assert(state.after_staging(stage).items =~= state.items);
}

/// Staging the row under the cursor and unstaging it again leaves the state
/// as it was, if the row was not staged before.
pub proof fn law_stage_then_unstage(state: BranchListState)
    requires
        state.wf(),
        state.selected() matches Some(item) ==> !item.staged_for_deletion,
    ensures
        state.after_staging(true).after_staging(false) == state,
{
    if state.selected() is Some {
        assert(state.after_staging(true).after_staging(false).items =~= state.items);
    }
}

/// No row bears a name that is not listed.
pub proof fn lemma_unlisted_name_counts_zero(items: Seq<BranchItem>, name: Seq<char>)
    requires
        !is_listed(items, name),
    ensures
        count_named(items, name) == 0,
    decreases items.len(),
{
    if items.len() > 0 {
        assert forall|i: int| 0 <= i < items.drop_last().len() implies (
        #[trigger] items.drop_last()[i]).branch.name@ != name by {
            assert(items[i].branch.name@ != name);
        }
        lemma_unlisted_name_counts_zero(items.drop_last(), name);
    }
}

/// A checkout changes no name.
pub proof fn lemma_with_head_count(items: Seq<BranchItem>, head: Seq<char>, name: Seq<char>)
    ensures
        count_named(with_head(items, head), name) == count_named(items, name),
    decreases items.len(),
{
    if items.len() > 0 {
        lemma_with_head_count(items.drop_last(), head, name);
        assert(with_head(items, head).drop_last() =~= with_head(items.drop_last(), head));
    }
}

/// Where exactly one row bears a name, the first row that bears it is the
/// only one.
pub proof fn lemma_single_name(items: Seq<BranchItem>, name: Seq<char>)
    requires
        count_named(items, name) == 1,
    ensures
        0 <= position_from(items, name, 0) < items.len(),
        forall|i: int|
            0 <= i < items.len() ==> ((#[trigger] items[i]).branch.name@ == name <==> i
                == position_from(items, name, 0)),
{
    lemma_position_from(items, name, 0);
    let at = position_from(items, name, 0);
    lemma_count_named_bounds(items, name);
    if at >= items.len() {
        lemma_unlisted_name_counts_zero(items, name);
    }
    assert forall|i: int| 0 <= i < items.len() && i != at implies (
    #[trigger] items[i]).branch.name@ != name by {
        if items[i].branch.name@ == name {
            lemma_two_rows_count(items, name, at, i);
        }
    }
}

/// The first row at or after `from` that bears `name` bears it, and no row
/// between does.
pub proof fn lemma_position_from(items: Seq<BranchItem>, name: Seq<char>, from: int)
    requires
        0 <= from,
    ensures
        from <= position_from(items, name, from) || position_from(items, name, from)
            == items.len(),
        position_from(items, name, from) <= items.len(),
        position_from(items, name, from) < items.len() ==> items[position_from(
            items,
            name,
            from,
        )].branch.name@ == name,
        forall|i: int|
            from <= i < position_from(items, name, from) && i < items.len() ==> (
            #[trigger] items[i]).branch.name@ != name,
    decreases items.len() - from,
{
    if from < items.len() && items[from].branch.name@ != name {
        lemma_position_from(items, name, from + 1);
    }
}

/// No more rows bear a name than there are rows.
pub proof fn lemma_count_named_bounds(items: Seq<BranchItem>, name: Seq<char>)
    ensures
        count_named(items, name) <= items.len(),
    decreases items.len(),
{
    if items.len() > 0 {
        lemma_count_named_bounds(items.drop_last(), name);
    }
}

/// Two rows that bear a name count for two.
pub proof fn lemma_two_rows_count(items: Seq<BranchItem>, name: Seq<char>, i: int, j: int)
    requires
        0 <= i < items.len(),
        0 <= j < items.len(),
        i != j,
        items[i].branch.name@ == name,
        items[j].branch.name@ == name,
    ensures
        count_named(items, name) >= 2,
    decreases items.len(),
{
    let front = items.drop_last();
    let last = items.len() - 1;
    if i == last || j == last {
        let other = if i == last {
            j
        } else {
            i
        };
        lemma_one_row_counts(front, name, other);
    } else {
        lemma_two_rows_count(front, name, i, j);
    }
}

/// A row that bears a name counts for one.
pub proof fn lemma_one_row_counts(items: Seq<BranchItem>, name: Seq<char>, i: int)
    requires
        0 <= i < items.len(),
        items[i].branch.name@ == name,
    ensures
        count_named(items, name) >= 1,
    decreases items.len(),
{
    if i < items.len() - 1 {
        lemma_one_row_counts(items.drop_last(), name, i);
    }
}

/// After a branch has been created and checked out, exactly one row bears
/// its name, that row is the head and lies under the cursor, no other row is
/// the head, and the rows stand in the order of their names.
pub proof fn law_created_branch_is_the_one_head(
    state: BranchListState,
    name: String,
    created: Result<(), Error>,
    checked_out: Result<(), Error>,
)
    requires
        acceptable_name(state.items, name@),
        created is Ok,
        checked_out is Ok,
    ensures
        ({
            let after = state.after_creation(name, created, checked_out);
            &&& after.items.len() == state.items.len() + 1
            &&& count_named(after.items, name@) == 1
            &&& after.selected_index < after.items.len()
            &&& forall|i: int|
                0 <= i < after.items.len() ==> ((#[trigger] after.items[i]).branch.name@ == name@
                    <==> i == after.selected_index)
            &&& forall|i: int|
                0 <= i < after.items.len() ==> ((#[trigger] after.items[i]).branch.is_head <==> i
                    == after.selected_index)
            &&& sorted_by_name(after.items)
        }),
{
    let grown = state.items.push(created_item(name));
    let sorted = sort_by_name(grown);
    let after = state.after_creation(name, created, checked_out);
    lemma_unlisted_name_counts_zero(state.items, name@);
    assert(grown.drop_last() =~= state.items);
    lemma_sort_by_name_count(grown, name@);
    lemma_sort_by_name_rows(grown);
    lemma_sort_by_name_sorted(grown);
    lemma_with_head_count(sorted, name@, name@);
    lemma_single_name(after.items, name@);
    assert forall|i: int, j: int| 0 <= i < j < after.items.len() implies name_le(
        (#[trigger] after.items[i]).branch.name@,
        (#[trigger] after.items[j]).branch.name@,
    ) by {
        assert(name_le(sorted[i].branch.name@, sorted[j].branch.name@));
    }
}

/// Where no two rows bear one name, no name is borne by more than one row.
pub proof fn lemma_distinct_names_count(items: Seq<BranchItem>, name: Seq<char>)
    requires
        names_distinct(items),
    ensures
        count_named(items, name) <= 1,
    decreases items.len(),
{
    if items.len() > 0 {
        let front = items.drop_last();
        assert forall|i: int, j: int| 0 <= i < j < front.len() implies (
        #[trigger] front[i]).branch.name@ != (#[trigger] front[j]).branch.name@ by {
            assert(items[i].branch.name@ != items[j].branch.name@);
        }
        lemma_distinct_names_count(front, name);
        if items.last().branch.name@ == name {
            assert forall|i: int| 0 <= i < front.len() implies (#[trigger] front[i]).branch.name@
                != name by {
                assert(items[i].branch.name@ != items[items.len() - 1].branch.name@);
            }
            lemma_unlisted_name_counts_zero(front, name);
        }
    }
}

/// The creation of a branch under an acceptable name leaves no two rows with
/// one name, if there were none before, whether the checkout that follows
/// succeeds or not.
pub proof fn law_creation_keeps_names_distinct(
    state: BranchListState,
    name: String,
    created: Result<(), Error>,
    checked_out: Result<(), Error>,
)
    requires
        names_distinct(state.items),
    ensures
        names_distinct(state.after_creation(name, created, checked_out).items),
{
    let after = state.after_creation(name, created, checked_out).items;
    if acceptable_name(state.items, name@) && created is Ok {
        let grown = state.items.push(created_item(name));
        let sorted = sort_by_name(grown);
        lemma_sort_by_name_rows(grown);
        assert(grown.drop_last() =~= state.items);
        assert forall|i: int, j: int| 0 <= i < j < after.len() implies (
        #[trigger] after[i]).branch.name@ != (#[trigger] after[j]).branch.name@ by {
            let shared = sorted[i].branch.name@;
            if sorted[j].branch.name@ == shared {
                lemma_two_rows_count(sorted, shared, i, j);
                lemma_sort_by_name_count(grown, shared);
                lemma_distinct_names_count(state.items, shared);
                if shared == name@ {
                    lemma_unlisted_name_counts_zero(state.items, shared);
                }
            }
        }
    }
}

/// Where the rows stand in the order of their names, a new branch's row is
/// put in among them and every other row keeps its place among the others.
pub proof fn law_creation_into_sorted_rows_inserts(state: BranchListState, name: String)
    requires
        sorted_by_name(state.items),
    ensures
        state.with_created(name).items == insert_by_name(state.items, created_item(name)),
{
    let grown = state.items.push(created_item(name));
    assert(grown.drop_last() =~= state.items);
    lemma_sort_by_name_of_sorted(state.items);
}

/// The number of rows in `from..to` that leave in a batch deletion.
pub open spec fn doomed_between(
    items: Seq<BranchItem>,
    outcomes: Seq<Result<(), Error>>,
    from: int,
    to: int,
) -> int
    decreases to - from,
{
    if from >= to {
        0
    } else if doomed(items, outcomes, from) {
        doomed_between(items, outcomes, from + 1, to) + 1
    } else {
        doomed_between(items, outcomes, from + 1, to)
    }
}

/// The rows that stay from `from` on are as many as do not leave, and each
/// row that stays has moved up by the number of rows that left before it.
pub proof fn lemma_survivors_from_places(
    items: Seq<BranchItem>,
    outcomes: Seq<Result<(), Error>>,
    from: int,
)
    requires
        0 <= from <= items.len(),
    ensures
        survivors_from(items, outcomes, from).len() == items.len() - from - doomed_between(
            items,
            outcomes,
            from,
            items.len() as int,
        ),
        forall|i: int|
            from <= i < items.len() ==> 0 <= #[trigger] doomed_between(items, outcomes, from, i)
                <= i - from,
        forall|i: int|
            from <= i < items.len() && !doomed(items, outcomes, i) ==> {
                let at = i - from - #[trigger] doomed_between(items, outcomes, from, i);
                &&& 0 <= at < survivors_from(items, outcomes, from).len()
                &&& survivors_from(items, outcomes, from)[at] == items[i]
            },
    decreases items.len() - from,
{
    if from < items.len() {
        lemma_survivors_from_places(items, outcomes, from + 1);
        let here = survivors_from(items, outcomes, from);
        let rest = survivors_from(items, outcomes, from + 1);
        assert forall|i: int| from <= i < items.len() implies 0 <= #[trigger] doomed_between(
            items,
            outcomes,
            from,
            i,
        ) <= i - from by {
            if i > from {
                assert(0 <= doomed_between(items, outcomes, from + 1, i) <= i - from - 1);
            }
        }
        lemma_doomed_between_bounds(items, outcomes, from + 1, items.len() as int);
        assert forall|i: int| from <= i < items.len() && !doomed(items, outcomes, i) implies {
            let at = i - from - #[trigger] doomed_between(items, outcomes, from, i);
            &&& 0 <= at < here.len()
            &&& here[at] == items[i]
        } by {
            if i > from {
                let deeper = i - (from + 1) - doomed_between(items, outcomes, from + 1, i);
                if !doomed(items, outcomes, from) {
                    assert(here[deeper + 1] == rest[deeper]);
                }
            }
        }
    }
}

/// No more rows leave from a range than the range holds.
pub proof fn lemma_doomed_between_bounds(
    items: Seq<BranchItem>,
    outcomes: Seq<Result<(), Error>>,
    from: int,
    to: int,
)
    requires
        from <= to,
    ensures
        0 <= doomed_between(items, outcomes, from, to) <= to - from,
    decreases to - from,
{
    if from < to {
        lemma_doomed_between_bounds(items, outcomes, from + 1, to);
    }
}

/// A batch deletion removes the staged rows whose deletion succeeded and
/// nothing else: every other row (each row that is not staged, and each
/// staged row whose deletion failed) stays as it is, marks and all, and
/// moves up by the number of rows that left before it, so that the rows that
/// stay keep their order.
pub proof fn law_batch_deletion_keeps_the_rest(
    state: BranchListState,
    outcomes: Seq<Result<(), Error>>,
)
    ensures
        ({
            let after = state.after_staged_deletion(outcomes);
            let len = state.items.len() as int;
            &&& after.items.len() == len - doomed_between(state.items, outcomes, 0, len)
            &&& forall|i: int|
                0 <= i < len && !doomed(state.items, outcomes, i) ==> {
                    let at = i - #[trigger] doomed_between(state.items, outcomes, 0, i);
                    &&& 0 <= at < after.items.len()
                    &&& after.items[at] == state.items[i]
                }
            &&& forall|i: int|
                0 <= i < len && !(#[trigger] state.items[i]).staged_for_deletion ==> !doomed(
                    state.items,
                    outcomes,
                    i,
                )
            &&& after.items.len() > 0 ==> after.selected_index < after.items.len()
        }),
{
    lemma_survivors_from_places(state.items, outcomes, 0);
}

/// A batch deletion never removes the checked-out branch, whatever the
/// backend answers.
pub proof fn law_batch_deletion_spares_the_head(
    state: BranchListState,
    outcomes: Seq<Result<(), Error>>,
    i: int,
)
    requires
        state.wf(),
        0 <= i < state.items.len(),
        state.items[i].branch.is_head,
    ensures
        !doomed(state.items, outcomes, i),
        state.after_staged_deletion(outcomes).items.contains(state.items[i]),
{
    lemma_survivors_from_places(state.items, outcomes, 0);
    let at = i - doomed_between(state.items, outcomes, 0, i);
}

/// The index in the list of the row that stands at index `k` among the rows
/// that stay from `from` on.
pub open spec fn origin_from(
    items: Seq<BranchItem>,
    outcomes: Seq<Result<(), Error>>,
    from: int,
    k: int,
) -> int
    decreases items.len() - from,
{
    if from < 0 || from >= items.len() {
        items.len() as int
    } else if doomed(items, outcomes, from) {
        origin_from(items, outcomes, from + 1, k)
    } else if k <= 0 {
        from
    } else {
        origin_from(items, outcomes, from + 1, k - 1)
    }
}

/// The rows that stay are rows of the list in the order of the list: each
/// comes from an index of its own, and a later row from a later index.
pub proof fn lemma_survivors_keep_order(
    items: Seq<BranchItem>,
    outcomes: Seq<Result<(), Error>>,
    from: int,
)
    requires
        0 <= from <= items.len(),
    ensures
        forall|k: int|
            0 <= k < survivors_from(items, outcomes, from).len() ==> {
                let origin = #[trigger] origin_from(items, outcomes, from, k);
                &&& from <= origin < items.len()
                &&& survivors_from(items, outcomes, from)[k] == items[origin]
            },
        forall|k: int, l: int|
            0 <= k < l < survivors_from(items, outcomes, from).len() ==> #[trigger] origin_from(
                items,
                outcomes,
                from,
                k,
            ) < #[trigger] origin_from(items, outcomes, from, l),
    decreases items.len() - from,
{
    if from < items.len() {
        lemma_survivors_keep_order(items, outcomes, from + 1);
        let here = survivors_from(items, outcomes, from);
        let rest = survivors_from(items, outcomes, from + 1);
        if !doomed(items, outcomes, from) {
            assert forall|k: int| 0 <= k < here.len() implies {
                let origin = #[trigger] origin_from(items, outcomes, from, k);
                &&& from <= origin < items.len()
                &&& here[k] == items[origin]
            } by {
                if k > 0 {
                    assert(here[k] == rest[k - 1]);
                    let origin = origin_from(items, outcomes, from + 1, k - 1);
                }
            }
            assert forall|k: int, l: int| 0 <= k < l < here.len() implies #[trigger] origin_from(
                items,
                outcomes,
                from,
                k,
            ) < #[trigger] origin_from(items, outcomes, from, l) by {
                let later = origin_from(items, outcomes, from + 1, l - 1);
                if k > 0 {
                    assert(origin_from(items, outcomes, from + 1, k - 1) < later);
                }
            }
        } else {
            assert forall|k: int| 0 <= k < here.len() implies {
                let origin = #[trigger] origin_from(items, outcomes, from, k);
                &&& from <= origin < items.len()
                &&& here[k] == items[origin]
            } by {
                let origin = origin_from(items, outcomes, from + 1, k);
                assert(from + 1 <= origin < items.len());
            }
            assert forall|k: int, l: int| 0 <= k < l < here.len() implies #[trigger] origin_from(
                items,
                outcomes,
                from,
                k,
            ) < #[trigger] origin_from(items, outcomes, from, l) by {
                assert(origin_from(items, outcomes, from + 1, k) < origin_from(
                    items,
                    outcomes,
                    from + 1,
                    l,
                ));
            }
        }
    }
}

/// Deleting branches upsets neither the names nor the head: where no two
/// rows bore one name before a batch deletion, none do after it, and where
/// at most one row was the head, at most one is.
pub proof fn law_batch_deletion_keeps_names_and_head(
    state: BranchListState,
    outcomes: Seq<Result<(), Error>>,
)
    ensures
        names_distinct(state.items) ==> names_distinct(
            state.after_staged_deletion(outcomes).items,
        ),
        at_most_one_head(state.items) ==> at_most_one_head(
            state.after_staged_deletion(outcomes).items,
        ),
{
    let after = state.after_staged_deletion(outcomes).items;
    lemma_survivors_keep_order(state.items, outcomes, 0);
    if names_distinct(state.items) {
        assert forall|k: int, l: int| 0 <= k < l < after.len() implies (
        #[trigger] after[k]).branch.name@ != (#[trigger] after[l]).branch.name@ by {
            let first = origin_from(state.items, outcomes, 0, k);
            let second = origin_from(state.items, outcomes, 0, l);
        }
    }
    if at_most_one_head(state.items) {
        assert forall|k: int, l: int| 0 <= k < l < after.len() implies !((
        #[trigger] after[k]).branch.is_head && (#[trigger] after[l]).branch.is_head) by {
            let first = origin_from(state.items, outcomes, 0, k);
            let second = origin_from(state.items, outcomes, 0, l);
            assert(!(state.items[first].branch.is_head && state.items[second].branch.is_head));
        }
    }
}

/// The same holds of the deletion of the branch under the cursor.
pub proof fn law_deletion_keeps_names_and_head(state: BranchListState, outcome: Result<(), Error>)
    ensures
        names_distinct(state.items) ==> names_distinct(state.after_deletion(outcome).items),
        at_most_one_head(state.items) ==> at_most_one_head(state.after_deletion(outcome).items),
{
    let after = state.after_deletion(outcome).items;
    if state.selected() is Some && outcome is Ok {
        let gone = state.selected_index as int;
        if names_distinct(state.items) {
            assert forall|k: int, l: int| 0 <= k < l < after.len() implies (
            #[trigger] after[k]).branch.name@ != (#[trigger] after[l]).branch.name@ by {
                let first = if k < gone {
                    k
                } else {
                    k + 1
                };
                let second = if l < gone {
                    l
                } else {
                    l + 1
                };
            }
        }
        if at_most_one_head(state.items) {
            assert forall|k: int, l: int| 0 <= k < l < after.len() implies !((
            #[trigger] after[k]).branch.is_head && (#[trigger] after[l]).branch.is_head) by {
                let first = if k < gone {
                    k
                } else {
                    k + 1
                };
                let second = if l < gone {
                    l
                } else {
                    l + 1
                };
                assert(!(state.items[first].branch.is_head && state.items[second].branch.is_head));
            }
        }
    }
}

/// A draft that bears the name of a row cannot be submitted: once its last
/// character is typed it is judged unacceptable, and Enter then changes
/// nothing, asks for no action and asks nothing of the backend.
pub proof fn law_taken_name_is_not_submitted(state: BranchListState, key: KeyEvent)
    requires
        types_char(key),
        is_listed(state.items, state.input.draft().push(key.code->Char_0)),
    ensures
        ({
            let typed = state.after_action(Action::UpdateNewBranchName(key));
            let enter = Action::UpdateNewBranchName(
                KeyEvent { code: KeyCode::Enter, modifiers: key.modifiers },
            );
            &&& typed.input.value == Some(state.input.draft().push(key.code->Char_0))
            &&& typed.input.is_valid == Some(false)
            &&& typed.items == state.items
            &&& typed.mode == state.mode
            &&& typed.after_action(enter) == typed
            &&& forall|next: Option<Action>| #[trigger] typed.hands_on(enter, next) ==> next is None
            &&& forall|request: Option<Request>| #[trigger]
                typed.asks(enter, request) ==> request is None
        }),
{
}

/// A checkout leaves exactly the rows of the checked-out name as heads:
/// where no two rows bear one name, at most one row is the head afterwards.
pub proof fn law_checkout_leaves_one_head(state: BranchListState, outcome: Result<(), Error>)
    requires
        names_distinct(state.items),
        state.selected() is Some,
        outcome is Ok,
    ensures
        at_most_one_head(state.after_checkout(outcome).items),
        names_distinct(state.after_checkout(outcome).items),
        state.after_checkout(outcome).selected().unwrap().branch.is_head,
{
    let after = state.after_checkout(outcome);
    let name = state.selected().unwrap().branch.name@;
    assert forall|i: int, j: int| 0 <= i < j < after.items.len() implies !((
    #[trigger] after.items[i]).branch.is_head && (#[trigger] after.items[j]).branch.is_head) by {
        assert(state.items[i].branch.name@ != state.items[j].branch.name@);
    }
    assert forall|i: int, j: int| 0 <= i < j < after.items.len() implies (
    #[trigger] after.items[i]).branch.name@ != (#[trigger] after.items[j]).branch.name@ by {
        assert(state.items[i].branch.name@ != state.items[j].branch.name@);
    }
}

/// The state once the backend has answered each of `requests` in turn.
pub open spec fn after_answers(
    state: BranchListState,
    requests: Seq<Request>,
    answers: Seq<Result<(), Error>>,
) -> BranchListState
    decreases requests.len(),
{
    if requests.len() == 0 || answers.len() != requests.len() {
        state
    } else {
        after_answers(state, requests.drop_last(), answers.drop_last()).after_answer(
            requests.last(),
            answers.last(),
        )
    }
}

/// The request at index `i + 1` is the one that follows the request at index
/// `i` and its answer.
pub open spec fn follows_on(
    requests: Seq<Request>,
    answers: Seq<Result<(), Error>>,
    i: int,
) -> bool {
    BranchListState::asks_next(requests[i], answers[i], Some(requests[i + 1]))
}

/// `requests` are the requests of one batch deletion, each following from
/// the one before and its answer.
pub open spec fn is_batch(requests: Seq<Request>, answers: Seq<Result<(), Error>>) -> bool {
    &&& requests.len() == answers.len()
    &&& requests.len() > 0
    &&& requests[0] matches Request::DeleteStaged { rest, .. } && rest@.len() + 1 == requests.len()
    &&& forall|i: int| 0 <= i < requests.len() - 1 ==> #[trigger] follows_on(requests, answers, i)
}

/// The staged branches that a request of a batch deletion names: the one to
/// delete now and those still to be deleted.
pub open spec fn batch_names(request: Request) -> Seq<String> {
    match request {
        Request::DeleteStaged { name, rest, .. } => seq![name] + rest@,
        _ => Seq::empty(),
    }
}

/// The answers that a request of a batch deletion knows already.
pub open spec fn batch_outcomes(request: Request) -> Seq<Result<(), Error>> {
    match request {
        Request::DeleteStaged { outcomes, .. } => outcomes@,
        _ => Seq::empty(),
    }
}

/// Within a batch deletion each request carries on where the one before
/// left off: it names the staged branches that are left and knows the
/// answers so far.
pub proof fn lemma_batch_goes_on(
    requests: Seq<Request>,
    answers: Seq<Result<(), Error>>,
    upto: int,
)
    requires
        is_batch(requests, answers),
        0 <= upto < requests.len(),
    ensures
        requests[upto] is DeleteStaged,
        batch_names(requests[upto]) == batch_names(requests[0]).skip(upto),
        batch_outcomes(requests[upto]) == batch_outcomes(requests[0]) + answers.take(upto),
    decreases upto,
{
    if upto == 0 {
        assert(batch_outcomes(requests[0]) + answers.take(0) =~= batch_outcomes(requests[0]));
    } else {
        lemma_batch_goes_on(requests, answers, upto - 1);
        let before = requests[upto - 1];
        assert(follows_on(requests, answers, upto - 1));
        let left = before->DeleteStaged_rest@;
        assert(batch_names(requests[upto]) =~= left);
        assert(batch_names(requests[0]).skip(upto - 1).skip(1) =~= batch_names(requests[0]).skip(
            upto,
        ));
    }
}

/// The answer to a request of a batch deletion that is not the last leaves
/// the list as it is.
pub proof fn lemma_batch_waits_for_the_last(
    state: BranchListState,
    request: Request,
    outcome: Result<(), Error>,
)
    requires
        request is DeleteStaged,
        batch_names(request).len() > 1,
    ensures
        state.after_answer(request, outcome) == state,
{
}

/// Within a batch deletion the list stays as it is until the last answer.
pub proof fn lemma_batch_keeps_the_list(
    state: BranchListState,
    requests: Seq<Request>,
    answers: Seq<Result<(), Error>>,
    upto: int,
)
    requires
        is_batch(requests, answers),
        0 <= upto < requests.len(),
    ensures
        after_answers(state, requests.take(upto), answers.take(upto)) == state,
    decreases upto,
{
    if upto > 0 {
        lemma_batch_keeps_the_list(state, requests, answers, upto - 1);
        lemma_batch_goes_on(requests, answers, upto - 1);
        let before = requests[upto - 1];
        lemma_batch_waits_for_the_last(state, before, answers[upto - 1]);
        assert(requests.take(upto).drop_last() =~= requests.take(upto - 1));
        assert(answers.take(upto).drop_last() =~= answers.take(upto - 1));
    }
}

/// The answer to the last request of a batch deletion makes of the list what
/// the answers taken together say.
pub proof fn lemma_batch_ends(
    state: BranchListState,
    request: Request,
    outcome: Result<(), Error>,
)
    requires
        request is DeleteStaged,
        batch_names(request).len() == 1,
    ensures
        state.after_answer(request, outcome) == state.after_staged_deletion(
            batch_outcomes(request).push(outcome),
        ).with_result(batch_answer(batch_outcomes(request).push(outcome))),
{
}

/// A batch deletion asks for the deletion of every staged branch in turn,
/// whatever the answers: each request is for the next of the names that the
/// first request holds, and once the last answer is in the list is what the
/// answers taken together make of it, with the last failure as the current
/// error.
pub proof fn law_batch_deletion_asks_for_every_staged_branch(
    state: BranchListState,
    requests: Seq<Request>,
    answers: Seq<Result<(), Error>>,
)
    requires
        is_batch(requests, answers),
    ensures
        forall|i: int|
            0 <= i < requests.len() ==> (#[trigger] requests[i]).call_spec() == BackendCall::Delete(
                batch_names(requests[0])[i],
            ),
        after_answers(state, requests, answers) == state.after_staged_deletion(
            batch_outcomes(requests[0]) + answers,
        ).with_result(batch_answer(batch_outcomes(requests[0]) + answers)),
{
    let last = requests.len() - 1;
    assert forall|i: int| 0 <= i < requests.len() implies (#[trigger] requests[i]).call_spec()
        == BackendCall::Delete(batch_names(requests[0])[i]) by {
        lemma_batch_goes_on(requests, answers, i);
        assert(batch_names(requests[i])[0] == batch_names(requests[0]).skip(i)[0]);
    }
    lemma_batch_goes_on(requests, answers, last);
    lemma_batch_keeps_the_list(state, requests, answers, last);
    lemma_batch_ends(state, requests[last], answers[last]);
    assert(batch_outcomes(requests[last]).push(answers[last]) =~= batch_outcomes(requests[0])
        + answers);
}

/// A creation that is served in two requests, the creation and the checkout
/// of the new branch, comes to what the two answers taken together make of
/// the list, with the first failure as the current error.
pub proof fn law_creation_in_two_steps(
    state: BranchListState,
    name: String,
    created: Result<(), Error>,
    checked_out: Result<(), Error>,
)
    requires
        acceptable_name(state.items, name@),
        created is Ok,
    ensures
        state.after_answer(Request::Create { name }, created).after_answer(
            Request::CheckoutCreated { name },
            checked_out,
        ) == state.after_creation(name, created, checked_out).with_result(
            state.creation_answer(name, created, checked_out),
        ),
{
}

} // verus!
