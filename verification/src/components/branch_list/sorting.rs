//! Putting rows in the order of their names.

use vstd::prelude::*;
use vstd::utf8::encode_utf8;

use crate::components::branch_list::branch_item::BranchItem;
use crate::components::branch_list::model::{
    count_named,
    insert_by_name,
    sort_by_name,
    sorted_by_name,
};
use crate::order::{lemma_bytes_le_total, lemma_bytes_le_transitive, name_le, name_le_exec};

verus! {

/// Where `item` goes into `rows`: at the index `at` behind which every row's
/// name comes later than the item's, and before which the nearest row's name
/// does not.
pub proof fn lemma_insert_by_name_at(rows: Seq<BranchItem>, item: BranchItem, at: int)
    requires
        0 <= at <= rows.len(),
        forall|q: int|
            at <= q < rows.len() ==> !name_le((#[trigger] rows[q]).branch.name@, item.branch.name@),
        at > 0 ==> name_le(rows[at - 1].branch.name@, item.branch.name@),
    ensures
        insert_by_name(rows, item) == rows.insert(at, item),
    decreases rows.len() - at,
{
    if at < rows.len() {
        let front = rows.drop_last();
        assert forall|q: int| at <= q < front.len() implies !name_le(
            (#[trigger] front[q]).branch.name@,
            item.branch.name@,
        ) by {}
        lemma_insert_by_name_at(front, item, at);
    }
}

/// Putting a row in changes how many rows bear a name only by that row.
pub proof fn lemma_insert_by_name_count(rows: Seq<BranchItem>, item: BranchItem, name: Seq<char>)
    ensures
        count_named(insert_by_name(rows, item), name) == count_named(rows, name) + (if item.branch.name@
            == name {
            1nat
        } else {
            0nat
        }),
    decreases rows.len(),
{
    let placed = insert_by_name(rows, item);
    if rows.len() == 0 || name_le(rows.last().branch.name@, item.branch.name@) {
        assert(placed.drop_last() =~= rows);
    } else {
        lemma_insert_by_name_count(rows.drop_last(), item, name);
        assert(placed.drop_last() =~= insert_by_name(rows.drop_last(), item));
    }
}

/// Sorting leaves each name borne by as many rows as before.
pub proof fn lemma_sort_by_name_count(rows: Seq<BranchItem>, name: Seq<char>)
    ensures
        count_named(sort_by_name(rows), name) == count_named(rows, name),
    decreases rows.len(),
{
    if rows.len() > 0 {
        lemma_sort_by_name_count(rows.drop_last(), name);
        lemma_insert_by_name_count(sort_by_name(rows.drop_last()), rows.last(), name);
    }
}

/// Putting a row in adds that row and no other: the list grows by one, and
/// each of its rows is the new row or one of the rows before.
pub proof fn lemma_insert_by_name_rows(rows: Seq<BranchItem>, item: BranchItem)
    ensures
        insert_by_name(rows, item).len() == rows.len() + 1,
        forall|k: int|
            0 <= k < insert_by_name(rows, item).len() ==> {
                let row = #[trigger] insert_by_name(rows, item)[k];
                row == item || rows.contains(row)
            },
    decreases rows.len(),
{
    let placed = insert_by_name(rows, item);
    if rows.len() > 0 && !name_le(rows.last().branch.name@, item.branch.name@) {
        lemma_insert_by_name_rows(rows.drop_last(), item);
    }
    assert forall|k: int| 0 <= k < placed.len() implies {
        let row = #[trigger] placed[k];
        row == item || rows.contains(row)
    } by {}
}

/// Putting a row in loses no row: the new row and every row before are in
/// the list afterwards.
pub proof fn lemma_insert_by_name_holds(rows: Seq<BranchItem>, item: BranchItem)
    ensures
        insert_by_name(rows, item).contains(item),
        forall|k: int| 0 <= k < rows.len() ==> insert_by_name(rows, item).contains(#[trigger] rows[k]),
    decreases rows.len(),
{
    let placed = insert_by_name(rows, item);
    lemma_insert_by_name_rows(rows, item);
    if rows.len() == 0 || name_le(rows.last().branch.name@, item.branch.name@) {
        assert(placed[rows.len() as int] == item);
        assert forall|k: int| 0 <= k < rows.len() implies placed.contains(#[trigger] rows[k]) by {
            assert(placed[k] == rows[k]);
        }
    } else {
        let front = rows.drop_last();
        let inner = insert_by_name(front, item);
        lemma_insert_by_name_holds(front, item);
        lemma_insert_by_name_rows(front, item);
        let at = choose|at: int| 0 <= at < inner.len() && inner[at] == item;
        assert(placed[at] == item);
        assert forall|k: int| 0 <= k < rows.len() implies placed.contains(#[trigger] rows[k]) by {
            if k < front.len() {
                let q = choose|q: int| 0 <= q < inner.len() && inner[q] == front[k];
                assert(placed[q] == rows[k]);
            } else {
                assert(placed[inner.len() as int] == rows[k]);
            }
        }
    }
}

/// Sorting loses no row.
pub proof fn lemma_sort_by_name_holds(rows: Seq<BranchItem>)
    ensures
        forall|k: int| 0 <= k < rows.len() ==> sort_by_name(rows).contains(#[trigger] rows[k]),
    decreases rows.len(),
{
    if rows.len() > 0 {
        let front = rows.drop_last();
        let sorted = sort_by_name(rows);
        lemma_sort_by_name_holds(front);
        lemma_insert_by_name_holds(sort_by_name(front), rows.last());
        assert forall|k: int| 0 <= k < rows.len() implies sorted.contains(#[trigger] rows[k]) by {
            if k < front.len() {
                assert(sort_by_name(front).contains(front[k]));
            }
        }
    }
}

/// Rows that stand in order still do without the last of them.
pub proof fn lemma_front_is_sorted(rows: Seq<BranchItem>)
    requires
        sorted_by_name(rows),
        rows.len() > 0,
    ensures
        sorted_by_name(rows.drop_last()),
{
    let front = rows.drop_last();
    assert forall|i: int, j: int| 0 <= i < j < front.len() implies name_le(
        (#[trigger] front[i]).branch.name@,
        (#[trigger] front[j]).branch.name@,
    ) by {}
}

/// A row put into rows that stand in order leaves them in order.
pub proof fn lemma_insert_by_name_sorted(rows: Seq<BranchItem>, item: BranchItem)
    requires
        sorted_by_name(rows),
    ensures
        sorted_by_name(insert_by_name(rows, item)),
    decreases rows.len(),
{
    let placed = insert_by_name(rows, item);
    if rows.len() > 0 && name_le(rows.last().branch.name@, item.branch.name@) {
        assert forall|i: int, j: int| 0 <= i < j < placed.len() implies name_le(
            (#[trigger] placed[i]).branch.name@,
            (#[trigger] placed[j]).branch.name@,
        ) by {
            if j == rows.len() && i < rows.len() - 1 {
                lemma_bytes_le_transitive(
                    encode_utf8(rows[i].branch.name@),
                    encode_utf8(rows.last().branch.name@),
                    encode_utf8(item.branch.name@),
                );
            }
        }
    } else if rows.len() > 0 {
        let front = rows.drop_last();
        let last = rows.last();
        lemma_front_is_sorted(rows);
        lemma_insert_by_name_sorted(front, item);
        lemma_insert_by_name_rows(front, item);
        lemma_bytes_le_total(encode_utf8(last.branch.name@), encode_utf8(item.branch.name@));
        assert forall|i: int, j: int| 0 <= i < j < placed.len() implies name_le(
            (#[trigger] placed[i]).branch.name@,
            (#[trigger] placed[j]).branch.name@,
        ) by {}
    }
}

/// Sorting keeps the rows: the list is as long as before, and each of its
/// rows is one of the rows before.
pub proof fn lemma_sort_by_name_rows(rows: Seq<BranchItem>)
    ensures
        sort_by_name(rows).len() == rows.len(),
        forall|k: int|
            0 <= k < sort_by_name(rows).len() ==> rows.contains(#[trigger] sort_by_name(rows)[k]),
    decreases rows.len(),
{
    if rows.len() > 0 {
        let front = rows.drop_last();
        lemma_sort_by_name_rows(front);
        lemma_insert_by_name_rows(sort_by_name(front), rows.last());
        let sorted = sort_by_name(rows);
        assert forall|k: int| 0 <= k < sorted.len() implies rows.contains(#[trigger] sorted[k]) by {
            if sorted[k] != rows.last() {
                assert(sort_by_name(front).contains(sorted[k]));
            }
        }
    }
}

/// Sorted rows stand in the order of their names.
pub proof fn lemma_sort_by_name_sorted(rows: Seq<BranchItem>)
    ensures
        sorted_by_name(sort_by_name(rows)),
    decreases rows.len(),
{
    if rows.len() > 0 {
        lemma_sort_by_name_sorted(rows.drop_last());
        lemma_insert_by_name_sorted(sort_by_name(rows.drop_last()), rows.last());
    }
}

/// Rows that already stand in the order of their names are left as they are.
pub proof fn lemma_sort_by_name_of_sorted(rows: Seq<BranchItem>)
    requires
        sorted_by_name(rows),
    ensures
        sort_by_name(rows) == rows,
    decreases rows.len(),
{
    if rows.len() > 0 {
        lemma_front_is_sorted(rows);
        lemma_sort_by_name_of_sorted(rows.drop_last());
    }
}

/// Puts the rows in the order of their names. Rows of one name keep the
/// order in which they stood.
pub fn sort_rows(rows: &mut Vec<BranchItem>)
    ensures
        final(rows)@ == sort_by_name(old(rows)@),
        sorted_by_name(final(rows)@),
{
    let ghost given = rows@;
    proof {
        lemma_sort_by_name_sorted(given);
    }
    let mut i: usize = 0;
    while i < rows.len()
        invariant
            i <= rows.len(),
            rows@.len() == given.len(),
            rows@.take(i as int) == sort_by_name(given.take(i as int)),
            rows@.skip(i as int) == given.skip(i as int),
        decreases rows.len() - i,
    {
        let ghost before = rows@;
        let item = rows.remove(i);
        assert(item == given[i as int]) by {
            assert(before.skip(i as int)[0] == given.skip(i as int)[0]);
        }
        let mut at: usize = i;
        while at > 0 && !name_le_exec(rows[at - 1].branch.name.as_str(), item.branch.name.as_str())
            invariant
                at <= i,
                i < before.len(),
                rows@ == before.remove(i as int),
                forall|q: int|
                    at <= q < i ==> !name_le(
                        (#[trigger] rows@[q]).branch.name@,
                        item.branch.name@,
                    ),
            decreases at,
        {
            at -= 1;
        }
        let ghost sorted = before.take(i as int);
        proof {
            assert forall|q: int| at <= q < sorted.len() implies !name_le(
                (#[trigger] sorted[q]).branch.name@,
                item.branch.name@,
            ) by {
                assert(sorted[q] == rows@[q]);
            }
            lemma_insert_by_name_at(sorted, item, at as int);
            assert(given.take(i + 1).drop_last() =~= given.take(i as int));
        }
        rows.insert(at, item);
        assert(rows@.skip(i + 1) =~= given.skip(i + 1)) by {
            let tail = rows@.skip(i + 1);
            assert forall|q: int| 0 <= q < tail.len() implies #[trigger] tail[q] == given.skip(
                i + 1,
            )[q] by {
                assert(before.skip(i as int)[q + 1] == given.skip(i as int)[q + 1]);
            }
        }
        i += 1;
    }
    assert(given.take(i as int) =~= given);
}

} // verus!
