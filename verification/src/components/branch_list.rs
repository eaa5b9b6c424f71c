use vstd::prelude::*;

use crate::action::{Action, KeyCode, KeyEvent, KeyModifiers};
use crate::components::branch_list::branch_input::{
    acceptable_name,
    is_acceptable_name,
    BranchInput,
    InputStateView,
};
use crate::components::branch_list::branch_item::{name_matches, BranchItem};
use crate::components::branch_list::laws::{
    doomed_between,
    law_batch_deletion_keeps_the_rest,
    law_created_branch_is_the_one_head,
    law_head_is_never_staged,
};
use crate::components::branch_list::model::{
    count_named,
    created_item,
    doomed,
    last_failure,
    lemma_survivors_are_items,
    lemma_survivors_keep_run,
    listed_items,
    position_from,
    sort_by_name,
    staged_before,
    staged_names,
    survivors_from,
    with_head,
};
use crate::components::branch_list::request::{Request, Step};
use crate::components::branch_list::sorting::{
    lemma_sort_by_name_holds,
    lemma_sort_by_name_rows,
    sort_rows,
};
use crate::components::branch_list::state::{
    batch_answer,
    BranchListState,
    ErrorTooTall,
    Height,
    Part,
    Section,
};
use crate::error::Error;
use crate::git::git_wrapper::GitBranch;
use crate::text::{lines, lines_of, texts, trim, trimmed};

pub mod branch_input;
pub mod branch_item;
pub mod laws;
pub mod model;
pub mod request;
pub mod sorting;
pub mod state;

verus! {

/// Whether the list is being browsed or a new branch is being named.
#[derive(Debug, Clone, Copy, PartialEq, Eq)]
pub enum Mode {
    Selection,
    Input,
}

/// The list of local branches with its cursor, the mode of the interface, the
/// last error, and the input in which a new branch is named.
pub struct BranchList {
    mode: Mode,
    error: Option<String>,
    branches: Vec<BranchItem>,
    selected_index: usize,
    branch_input: BranchInput,
}

impl View for BranchList {
    type V = BranchListState;

    closed spec fn view(&self) -> BranchListState {
        BranchListState {
            items: self.branches@,
            selected_index: self.selected_index as nat,
            mode: self.mode,
            error: match self.error {
                Some(text) => Some(text@),
                None => None,
            },
            input: self.branch_input.input_state@,
        }
    }
}

impl Default for BranchList {
    /// An empty list that is being browsed, with no error and no draft.
    fn default() -> (list: Self)
        ensures
            list@ == (BranchListState {
                items: Seq::empty(),
                selected_index: 0,
                mode: Mode::Selection,
                error: None,
                input: InputStateView { value: None, is_valid: None },
            }),
            list@.wf(),
    {
        BranchList {
            mode: Mode::Selection,
            error: None,
            branches: Vec::new(),
            selected_index: 0,
            branch_input: BranchInput::new(),
        }
    }
}

impl BranchList {
    /// Replaces the rows by those of the branches that the backend has
    /// listed, in its order, and puts the cursor on the first.
    pub fn load(&mut self, branches: Vec<GitBranch>)
        ensures
            final(self)@ == (BranchListState {
                items: listed_items(branches@),
                selected_index: 0,
                ..old(self)@
            }),
            final(self)@.wf(),
    {
        let mut items: Vec<BranchItem> = Vec::new();
        let mut i: usize = 0;
        while i < branches.len()
            invariant
                i <= branches.len(),
                items@ == listed_items(branches@.take(i as int)),
            decreases branches.len() - i,
        {
            items.push(BranchItem::new(branches[i].clone(), true));
            i += 1;
        }
        assert(branches@.take(i as int) == branches@);
        self.branches = items;
        self.selected_index = 0;
    }

    /// The rows, in the order in which they are shown.
    pub fn branches(&self) -> (rows: &Vec<BranchItem>)
        ensures
            rows@ == self@.items,
    {
        &self.branches
    }

    /// The index of the row under the cursor.
    pub fn selected_index(&self) -> (index: usize)
        ensures
            index == self@.selected_index,
    {
        self.selected_index
    }

    /// Whether the list is being browsed or a new branch is being named.
    pub fn mode(&self) -> (mode: Mode)
        ensures
            mode == self@.mode,
    {
        self.mode
    }

    /// The message of the last failure, until the next key press.
    pub fn error(&self) -> (error: &Option<String>)
        ensures
            match *error {
                Some(text) => self@.error == Some(text@),
                None => self@.error is None,
            },
    {
        &self.error
    }

    /// The input in which a new branch is named.
    pub fn branch_input(&self) -> (input: &BranchInput)
        ensures
            input.input_state@ == self@.input,
    {
        &self.branch_input
    }

    /// Forgets the last error.
    pub fn clear_error(&mut self)
        ensures
            final(self)@ == (BranchListState { error: None, ..old(self)@ }),
    {
        self.error = None;
    }

    /// Moves the cursor one row up, from the first row to the last. A cursor
    /// past the end counts as standing on the last row. Nothing moves on an
    /// empty list.
    pub fn select_previous(&mut self)
        ensures
            final(self)@ == old(self)@.after_previous(),
            old(self)@.items.len() > 0 ==> final(self)@.selected_index < old(self)@.items.len(),
            old(self)@.wf() ==> final(self)@.wf(),
    {
        let len = self.branches.len();
        if len == 0 {
            return ;
        }
        let current = if self.selected_index >= len {
            len - 1
        } else {
            self.selected_index
        };
        if current == 0 {
            self.selected_index = len - 1;
        } else {
            self.selected_index = current - 1;
        }
    }

    /// Moves the cursor one row down, from the last row to the first. A
    /// cursor past the end counts as standing on the last row. Nothing moves
    /// on an empty list.
    pub fn select_next(&mut self)
        ensures
            final(self)@ == old(self)@.after_next(),
            old(self)@.items.len() > 0 ==> final(self)@.selected_index < old(self)@.items.len(),
            old(self)@.wf() ==> final(self)@.wf(),
    {
        let len = self.branches.len();
        if len == 0 {
            return ;
        }
        let current = if self.selected_index >= len {
            len - 1
        } else {
            self.selected_index
        };
        if current == len - 1 {
            self.selected_index = 0;
        } else {
            self.selected_index = current + 1;
        }
    }

    /// The row under the cursor.
    pub fn get_selected_branch(&self) -> (selected: Option<&BranchItem>)
        ensures
            match selected {
                Some(item) => self@.selected() == Some(*item),
                None => self@.selected() is None,
            },
    {
        if self.selected_index < self.branches.len() {
            Some(&self.branches[self.selected_index])
        } else {
            None
        }
    }

    /// Sets or clears the deletion mark of the row under the cursor. The
    /// checked-out branch refuses the mark, and without a row under the
    /// cursor nothing happens.
    pub fn stage_selected_for_deletion(&mut self, stage: bool)
        ensures
            final(self)@ == old(self)@.after_staging(stage),
            old(self)@.wf() ==> final(self)@.wf(),
            old(self)@.wf() && old(self)@.selected() is Some
                && old(self)@.selected().unwrap().branch.is_head
                ==> final(self)@ == old(self)@
                && !final(self)@.selected().unwrap().staged_for_deletion,
    {
        if self.selected_index >= self.branches.len() {
            return ;
        }
        proof {
            if self@.wf() && self@.selected().unwrap().branch.is_head {
                law_head_is_never_staged(self@, stage);
            }
        }
        self.branches[self.selected_index].stage_for_deletion(stage);
    }

    /// Takes the backend's answer to the checkout of the branch under the
    /// cursor. On success that branch becomes the head and every other row
    /// ceases to be; a failure is handed back and leaves the list as it was.
    /// Without a row under the cursor there was nothing to check out, and the
    /// answer is not looked at.
    pub fn checkout_selected(&mut self, outcome: Result<(), Error>) -> (result: Result<(), Error>)
        ensures
            final(self)@ == old(self)@.after_checkout(outcome),
            result == old(self)@.answer_for_selected(outcome),
            old(self)@.wf() ==> final(self)@.wf(),
    {
        if self.selected_index >= self.branches.len() {
            return Ok(());
        }
        if outcome.is_ok() {
            let name = self.branches[self.selected_index].branch.name.clone();
            self.mark_head(&name);
        }
        outcome
    }

    /// Makes the rows named `name` the head, and no other.
    fn mark_head(&mut self, name: &String)
        ensures
            final(self)@ == (BranchListState {
                items: with_head(old(self)@.items, name@),
                ..old(self)@
            }),
            old(self)@.wf() ==> final(self)@.wf(),
    {
        let mut i: usize = 0;
        while i < self.branches.len()
            invariant
                i <= self.branches.len(),
                self.branches@.len() == old(self).branches@.len(),
                self.mode == old(self).mode,
                self.error == old(self).error,
                self.selected_index == old(self).selected_index,
                self.branch_input == old(self).branch_input,
                forall|j: int|
                    0 <= j < i ==> #[trigger] self.branches@[j] == old(self).branches@[j].checked_out(
                        name@,
                    ),
                forall|j: int|
                    i <= j < self.branches@.len() ==> #[trigger] self.branches@[j] == old(
                        self,
                    ).branches@[j],
            decreases self.branches.len() - i,
        {
            self.branches[i].mark_checked_out(name);
            i += 1;
        }
        assert(self.branches@ =~= with_head(old(self).branches@, name@));
    }

    /// Takes the backend's answer to the deletion of the branch under the
    /// cursor. On success the row leaves the list and the cursor stays where
    /// it was, or moves to the last row if it stood past it; a failure is
    /// handed back and leaves the list as it was. Without a row under the
    /// cursor there was nothing to delete, and the answer is not looked at.
    pub fn deleted_selected(&mut self, outcome: Result<(), Error>) -> (result: Result<(), Error>)
        ensures
            final(self)@ == old(self)@.after_deletion(outcome),
            result == old(self)@.answer_for_selected(outcome),
            old(self)@.wf() ==> final(self)@.wf(),
    {
        if self.selected_index >= self.branches.len() {
            return Ok(());
        }
        if outcome.is_ok() {
            self.branches.remove(self.selected_index);
            if self.selected_index >= self.branches.len() {
                self.selected_index = if self.branches.len() == 0 {
                    0
                } else {
                    self.branches.len() - 1
                };
            }
        }
        outcome
    }

    /// Puts in the row of the branch that was created under `name`.
    fn insert_created(&mut self, name: String)
        ensures
            final(self)@ == old(self)@.with_created(name),
            old(self)@.wf() ==> final(self)@.wf(),
    {
        let ghost items = self.branches@;
        let branch = GitBranch { name, is_head: false, upstream: None };
        self.branches.push(BranchItem::new(branch, true));
        proof {
            let grown = items.push(created_item(name));
            lemma_sort_by_name_rows(grown);
            if old(self)@.wf() {
                let sorted = sort_by_name(grown);
                assert forall|k: int| 0 <= k < sorted.len() implies (#[trigger] sorted[k]).wf() by {
                    let q = choose|q: int| 0 <= q < grown.len() && grown[q] == sorted[k];
                    if q < items.len() {
                        assert(grown[q] == items[q]);
                    }
                }
            }
        }
        sort_rows(&mut self.branches);
        if self.selected_index >= self.branches.len() {
            self.selected_index = self.branches.len() - 1;
        }
    }

    /// Makes the branch that was created under `name` the head and puts the
    /// cursor on it.
    fn head_created(&mut self, name: &String)
        ensures
            final(self)@ == old(self)@.with_created_checked_out(name@),
            old(self)@.wf() ==> final(self)@.wf(),
    {
        self.mark_head(name);
        let mut at: usize = 0;
        while at < self.branches.len() && !name_matches(&self.branches[at].branch.name, name)
            invariant
                at <= self.branches.len(),
                position_from(self.branches@, name@, 0) == position_from(
                    self.branches@,
                    name@,
                    at as int,
                ),
            decreases self.branches.len() - at,
        {
            at += 1;
        }
        self.selected_index = if at < self.branches.len() {
            at
        } else {
            0
        };
    }

    /// Takes the backend's answers to the creation of a branch under `name`
    /// and to the checkout that follows it. A name that is empty, borne by
    /// a row or malformed is turned down: no request went out for it, and the
    /// answers are not looked at. Once the branch exists its row joins the
    /// list, which is put in the order of the names; once it is checked out
    /// it is the head, no other row is, and the cursor points at it. The
    /// first failure is handed back: a failed creation leaves the list as it
    /// was, a failed checkout leaves the new row in the list.
    pub fn create_branch(
        &mut self,
        name: String,
        created: Result<(), Error>,
        checked_out: Result<(), Error>,
    ) -> (result: Result<(), Error>)
        ensures
            final(self)@ == old(self)@.after_creation(name, created, checked_out),
            result == old(self)@.creation_answer(name, created, checked_out),
            old(self)@.wf() ==> final(self)@.wf(),
            acceptable_name(old(self)@.items, name@) && created is Ok && checked_out is Ok ==> {
                let after = final(self)@;
                &&& after.items.len() == old(self)@.items.len() + 1
                &&& count_named(after.items, name@) == 1
                &&& after.selected_index < after.items.len()
                &&& forall|i: int|
                    0 <= i < after.items.len() ==> ((#[trigger] after.items[i]).branch.name@
                        == name@ <==> i == after.selected_index)
                &&& forall|i: int|
                    0 <= i < after.items.len() ==> ((#[trigger] after.items[i]).branch.is_head
                        <==> i == after.selected_index)
            },
    {
        if !is_acceptable_name(&self.branches, &name) {
            return Ok(());
        }
        if created.is_err() {
            return created;
        }
        proof {
            if checked_out is Ok {
                law_created_branch_is_the_one_head(self@, name, created, checked_out);
            }
        }
        let wanted = name.clone();
        self.insert_created(name);
        if checked_out.is_ok() {
            self.head_created(&wanted);
        }
        checked_out
    }

    /// Takes note of the result of a backend operation: the message of a
    /// failure becomes the current error, a success changes nothing.
    pub fn maybe_handle_git_error(&mut self, result: Result<(), Error>)
        ensures
            final(self)@ == old(self)@.with_result(result),
            old(self)@.wf() ==> final(self)@.wf(),
    {
        match result {
            Err(error) => {
                self.error = Some(error.message());
            },
            Ok(_) => {},
        }
    }

    /// Takes the backend's answers to the deletion of the staged branches:
    /// `outcomes` holds one answer for each staged row, in the order of the
    /// rows. The rows whose deletion succeeded leave the list, from the last
    /// to the first; every other row stays in its place with its marks, a row
    /// whose deletion failed or was not reported among them. The cursor then
    /// stays where it was, or moves to the last row if it stood past it. The
    /// failure reported last is handed back.
    pub fn delete_staged_branches(&mut self, outcomes: Vec<Result<(), Error>>) -> (result: Result<
        (),
        Error,
    >)
        ensures
            final(self)@ == old(self)@.after_staged_deletion(outcomes@),
            result == batch_answer(outcomes@),
            old(self)@.wf() ==> final(self)@.wf(),
            final(self)@.items.len() == old(self)@.items.len() - doomed_between(
                old(self)@.items,
                outcomes@,
                0,
                old(self)@.items.len() as int,
            ),
            forall|i: int|
                0 <= i < old(self)@.items.len() && !doomed(old(self)@.items, outcomes@, i) ==> {
                    let at = i - #[trigger] doomed_between(old(self)@.items, outcomes@, 0, i);
                    &&& 0 <= at < final(self)@.items.len()
                    &&& final(self)@.items[at] == old(self)@.items[i]
                },
    {
        let ghost items = self.branches@;
        proof {
            law_batch_deletion_keeps_the_rest(self@, outcomes@);
        }
        let mut indexes_to_delete: Vec<usize> = Vec::new();
        let mut rank: usize = 0;
        let mut branch_index: usize = 0;
        while branch_index < self.branches.len()
            invariant
                branch_index <= self.branches.len(),
                self.branches@ == items,
                rank == staged_before(items, branch_index as int),
                rank <= branch_index,
                forall|s: int, t: int|
                    0 <= s < t < indexes_to_delete@.len() ==> indexes_to_delete@[s]
                        < indexes_to_delete@[t],
                forall|s: int|
                    0 <= s < indexes_to_delete@.len() ==> (#[trigger] indexes_to_delete@[s])
                        < branch_index && doomed(items, outcomes@, indexes_to_delete@[s] as int),
                forall|j: int|
                    0 <= j < branch_index && #[trigger] doomed(items, outcomes@, j) ==> holds_index(
                        indexes_to_delete@,
                        j,
                    ),
            decreases self.branches.len() - branch_index,
        {
            if self.branches[branch_index].staged_for_deletion {
                if rank < outcomes.len() && outcomes[rank].is_ok() {
                    let ghost found = indexes_to_delete@;
                    indexes_to_delete.push(branch_index);
                    assert forall|j: int|
                        0 <= j < branch_index + 1 && #[trigger] doomed(
                            items,
                            outcomes@,
                            j,
                        ) implies holds_index(indexes_to_delete@, j) by {
                        if j < branch_index {
                            let s = choose|s: int| 0 <= s < found.len() && #[trigger] found[s] == j;
                            assert(indexes_to_delete@[s] == j);
                        } else {
                            assert(indexes_to_delete@[found.len() as int] == j);
                        }
                    }
                }
                rank += 1;
            }
            branch_index += 1;
        }
        let mut k: usize = indexes_to_delete.len();
        proof {
            lemma_survivors_keep_run(items, outcomes@, items.len() as int, items.len() as int);
        }
        while k > 0
            invariant
                k <= indexes_to_delete@.len(),
                self.mode == old(self).mode,
                self.error == old(self).error,
                self.selected_index == old(self).selected_index,
                self.branch_input == old(self).branch_input,
                forall|s: int, t: int|
                    0 <= s < t < indexes_to_delete@.len() ==> indexes_to_delete@[s]
                        < indexes_to_delete@[t],
                forall|s: int|
                    0 <= s < indexes_to_delete@.len() ==> (#[trigger] indexes_to_delete@[s])
                        < items.len() && doomed(items, outcomes@, indexes_to_delete@[s] as int),
                forall|j: int|
                    0 <= j < items.len() && #[trigger] doomed(items, outcomes@, j) ==> holds_index(
                        indexes_to_delete@,
                        j,
                    ),
                ({
                    let bound = if k < indexes_to_delete@.len() {
                        indexes_to_delete@[k as int] as int
                    } else {
                        items.len() as int
                    };
                    self.branches@ == items.take(bound) + survivors_from(items, outcomes@, bound)
                }),
            decreases k,
        {
            let ghost bound = if k < indexes_to_delete@.len() {
                indexes_to_delete@[k as int] as int
            } else {
                items.len() as int
            };
            k -= 1;
            let index = indexes_to_delete[k];
            proof {
                assert forall|j: int| index < j < bound implies !doomed(items, outcomes@, j) by {
                    if doomed(items, outcomes@, j) {
                        let s = choose|s: int|
                            0 <= s < indexes_to_delete@.len() && #[trigger] indexes_to_delete@[s]
                                == j;
                        if s <= k {
                            assert(indexes_to_delete@[s] <= indexes_to_delete@[k as int]);
                        } else {
                            assert(indexes_to_delete@[k + 1] <= indexes_to_delete@[s]);
                        }
                    }
                }
                lemma_survivors_keep_run(items, outcomes@, index + 1, bound);
            }
            self.branches.remove(index);
            assert(self.branches@ =~= items.take(index as int) + survivors_from(
                items,
                outcomes@,
                index as int,
            ));
        }
        proof {
            let bound = if 0 < indexes_to_delete@.len() {
                indexes_to_delete@[0] as int
            } else {
                items.len() as int
            };
            assert forall|j: int| 0 <= j < bound implies !doomed(items, outcomes@, j) by {
                if doomed(items, outcomes@, j) {
                    let s = choose|s: int|
                        0 <= s < indexes_to_delete@.len() && #[trigger] indexes_to_delete@[s] == j;
                    assert(indexes_to_delete@[0] <= indexes_to_delete@[s]);
                }
            }
            lemma_survivors_keep_run(items, outcomes@, 0, bound);
            lemma_survivors_are_items(items, outcomes@, 0);
        }
        if self.selected_index >= self.branches.len() {
            self.selected_index = if self.branches.len() == 0 {
                0
            } else {
                self.branches.len() - 1
            };
        }
        take_last_failure(outcomes)
    }

    /// The rows to show and the row to highlight. While a branch is being
    /// named the draft stands among the rows where its name puts it, and is
    /// the row highlighted; else the rows are those of the list, and the row
    /// under the cursor is highlighted.
    pub fn render_list(&self) -> (shown: (Vec<BranchItem>, Option<usize>))
        ensures
            self@.shows(shown.0@, shown.1),
    {
        let mut rows: Vec<BranchItem> = Vec::new();
        let mut i: usize = 0;
        while i < self.branches.len()
            invariant
                i <= self.branches.len(),
                rows@ == self.branches@.take(i as int),
            decreases self.branches.len() - i,
        {
            rows.push(self.branches[i].clone());
            assert(self.branches@.take(i + 1) =~= self.branches@.take(i as int).push(
                self.branches@[i as int],
            ));
            i += 1;
        }
        assert(self.branches@.take(i as int) =~= self.branches@);
        let content = match (self.mode, &self.branch_input.input_state.value) {
            (Mode::Input, Some(value)) => value.clone(),
            _ => {
                return (rows, Some(self.selected_index));
            },
        };
        let draft = BranchItem {
            branch: GitBranch::new(content),
            staged_for_creation: true,
            staged_for_deletion: false,
            is_valid_name: match self.branch_input.input_state.is_valid {
                Some(valid) => valid,
                None => false,
            },
        };
        rows.push(draft);
        let ghost grown = rows@;
        sort_rows(&mut rows);
        proof {
            lemma_sort_by_name_rows(grown);
        }
        let mut at: usize = 0;
        while at < rows.len() && !rows[at].staged_for_creation
            invariant
                at <= rows.len(),
                forall|k: int| 0 <= k < at ==> !(#[trigger] rows@[k]).staged_for_creation,
            decreases rows.len() - at,
        {
            at += 1;
        }
        proof {
            lemma_sort_by_name_holds(grown);
            let k = choose|k: int| 0 <= k < rows@.len() && rows@[k] == grown[grown.len() - 1];
            assert(self@.shows_draft_at(rows@, k));
            if self@.wf() {
                let q = choose|q: int| 0 <= q < grown.len() && grown[q] == rows@[at as int];
                if q < self.branches@.len() {
                    assert(grown[q] == self.branches@[q]);
                }
            }
        }
        (rows, Some(at))
    }

    /// The parts of the screen from top to bottom, with the lines each takes:
    /// the list, then the input while a branch is being named or else the
    /// error if there is one, then the footer. An error of more lines than
    /// a height can count is refused.
    pub fn draw(&self) -> (layout: Result<Vec<Section>, ErrorTooTall>)
        ensures
            match layout {
                Ok(sections) => self@.sections() == Some(sections@),
                Err(_) => self@.sections() is None,
            },
    {
        let list = Section { part: Part::List, height: Height::Fill(1) };
        let footer = Section { part: Part::Footer, height: Height::Length(1) };
        let mut sections: Vec<Section> = Vec::new();
        sections.push(list);
        match self.mode {
            Mode::Input => {
                sections.push(Section { part: Part::Input, height: Height::Length(3) });
            },
            Mode::Selection => {
                match &self.error {
                    Some(error) => {
                        let shown = trim(error.as_str());
                        let shown_lines = lines(shown.as_str());
                        let count = shown_lines.len();
                        assert(count == lines_of(trimmed(error@)).len()) by {
                            assert(texts(shown_lines@).len() == shown_lines@.len());
                        }
                        if count > 65533 {
                            return Err(ErrorTooTall);
                        }
                        let height = (count + 2) as u16;
                        sections.push(Section { part: Part::Error, height: Height::Length(height) });
                    },
                    None => {},
                }
            },
        }
        sections.push(footer);
        Ok(sections)
    }

    /// The names of the branches staged for deletion, in the order of the
    /// rows.
    pub fn staged_branch_names(&self) -> (names: Vec<String>)
        ensures
            names@ == staged_names(self@.items),
    {
        let mut names: Vec<String> = Vec::new();
        let mut i: usize = 0;
        while i < self.branches.len()
            invariant
                i <= self.branches.len(),
                names@ == staged_names(self.branches@.take(i as int)),
            decreases self.branches.len() - i,
        {
            assert(self.branches@.take(i + 1).drop_last() == self.branches@.take(i as int));
            if self.branches[i].staged_for_deletion {
                names.push(self.branches[i].branch.name.clone());
            }
            i += 1;
        }
        assert(self.branches@.take(i as int) == self.branches@);
        names
    }

    /// Takes a key press: forgets the last error and says which action the
    /// key asks for. While a branch is being named every key goes to the name
    /// input. While the list is browsed, Down and Up move the cursor, `c`
    /// checks out and Shift with `c` begins a new branch, `d` stages the row
    /// under the cursor or deletes it if it is staged already, Shift with `d`
    /// unstages, Control with `d` deletes the staged rows, and Delete or
    /// Backspace deletes the row under the cursor.
    pub fn handle_key_events(&mut self, key: KeyEvent) -> (action: Option<Action>)
        ensures
            final(self)@ == (BranchListState { error: None, ..old(self)@ }),
            action == old(self)@.action_for_key(key),
    {
        self.clear_error();
        self.action_for_key(key)
    }

    /// The action that a key press would ask for, as `handle_key_events`
    /// tells it: what the footer needs to say which keys do what.
    pub fn action_for_key(&self, key: KeyEvent) -> (action: Option<Action>)
        ensures
            action == self@.action_for_key(key),
    {
        match self.mode {
            Mode::Input => {
                return Some(Action::UpdateNewBranchName(key));
            },
            Mode::Selection => {},
        }
        match (key.code, key.modifiers) {
            (KeyCode::Down, KeyModifiers::Plain) => Some(Action::SelectNextBranch),
            (KeyCode::Up, KeyModifiers::Plain) => Some(Action::SelectPreviousBranch),
            (KeyCode::Delete, KeyModifiers::Plain) => Some(Action::DeleteBranch),
            (KeyCode::Backspace, KeyModifiers::Plain) => Some(Action::DeleteBranch),
            (KeyCode::Char(c), KeyModifiers::Shift) => {
                if c == 'c' || c == 'C' {
                    Some(Action::InitNewBranch)
                } else if c == 'd' || c == 'D' {
                    Some(Action::UnstageBranchForDeletion)
                } else {
                    None
                }
            },
            (KeyCode::Char(c), KeyModifiers::Control) => {
                if c == 'd' || c == 'D' {
                    Some(Action::DeleteStagedBranches)
                } else {
                    None
                }
            },
            (KeyCode::Char(c), KeyModifiers::Plain) => {
                if c == 'c' || c == 'C' {
                    Some(Action::CheckoutSelectedBranch)
                } else if c == 'd' || c == 'D' {
                    match self.get_selected_branch() {
                        None => None,
                        Some(selected) => {
                            if selected.staged_for_deletion {
                                Some(Action::DeleteBranch)
                            } else {
                                Some(Action::StageBranchForDeletion)
                            }
                        },
                    }
                } else {
                    None
                }
            },
            _ => None,
        }
    }

    /// Takes an action: changes what can change at once, and says what is
    /// left to be done, an action to handle next and a call for the backend.
    /// A checkout, a deletion and a creation change the list only when the
    /// backend's answer is handed to `resolve`. A branch is only created
    /// under a name that is not empty, not borne by a row and well-formed;
    /// any other name is passed over in silence.
    pub fn update(&mut self, action: Action) -> (step: Step)
        ensures
            final(self)@ == old(self)@.after_action(action),
            old(self)@.asks(action, step.request),
            old(self)@.hands_on(action, step.action),
            old(self)@.wf() ==> final(self)@.wf(),
    {
        match action {
            Action::SelectPreviousBranch => {
                self.select_previous();
                Step { action: None, request: None }
            },
            Action::SelectNextBranch => {
                self.select_next();
                Step { action: None, request: None }
            },
            Action::InitNewBranch => {
                self.mode = Mode::Input;
                self.branch_input.init();
                Step { action: Some(Action::StartInputMode), request: None }
            },
            Action::EndInputMod => {
                self.mode = Mode::Selection;
                Step { action: None, request: None }
            },
            Action::UpdateNewBranchName(key) => {
                let next = self.branch_input.handle_key_event(key, &self.branches);
                Step { action: next, request: None }
            },
            Action::CheckoutSelectedBranch => {
                let request = match self.get_selected_branch() {
                    Some(selected) => Some(
                        Request::CheckoutSelected { name: selected.branch.name.clone() },
                    ),
                    None => None,
                };
                Step { action: None, request }
            },
            Action::CreateBranch(name) => {
                if is_acceptable_name(&self.branches, &name) {
                    self.mode = Mode::Selection;
                    Step { action: Some(Action::EndInputMod), request: Some(Request::Create { name }) }
                } else {
                    Step { action: None, request: None }
                }
            },
            Action::StageBranchForDeletion => {
                self.stage_selected_for_deletion(true);
                Step { action: None, request: None }
            },
            Action::UnstageBranchForDeletion => {
                self.stage_selected_for_deletion(false);
                Step { action: None, request: None }
            },
            Action::DeleteBranch => {
                let request = match self.get_selected_branch() {
                    Some(selected) => Some(
                        Request::DeleteSelected { name: selected.branch.name.clone() },
                    ),
                    None => None,
                };
                Step { action: None, request }
            },
            Action::DeleteStagedBranches => {
                let mut names = self.staged_branch_names();
                if names.len() == 0 {
                    let _nothing_failed = self.delete_staged_branches(Vec::new());
                    Step { action: None, request: None }
                } else {
                    let ghost all = names@;
                    let name = names.remove(0);
                    assert(seq![name] + names@ =~= all);
                    Step {
                        action: None,
                        request: Some(Request::DeleteStaged { name, rest: names, outcomes: Vec::new() }),
                    }
                }
            },
            Action::StartInputMode => Step { action: None, request: None },
        }
    }

    /// Takes the backend's answer to a request. The list changes as the
    /// operation under way says, a failure becomes the current error, and
    /// the request that follows is handed back: after a staged branch the
    /// next staged branch, whatever the answer was, and after a creation the
    /// checkout of the new branch.
    pub fn resolve(&mut self, request: Request, outcome: Result<(), Error>) -> (next: Option<
        Request,
    >)
        ensures
            final(self)@ == old(self)@.after_answer(request, outcome),
            BranchListState::asks_next(request, outcome, next),
            old(self)@.wf() ==> final(self)@.wf(),
    {
        match request {
            Request::CheckoutSelected { .. } => {
                let result = self.checkout_selected(outcome);
                self.maybe_handle_git_error(result);
                None
            },
            Request::DeleteSelected { .. } => {
                let result = self.deleted_selected(outcome);
                self.maybe_handle_git_error(result);
                None
            },
            Request::DeleteStaged { name, rest, outcomes } => {
                let mut rest = rest;
                let mut outcomes = outcomes;
                outcomes.push(outcome);
                if rest.len() > 0 {
                    let following = rest.remove(0);
                    Some(Request::DeleteStaged { name: following, rest, outcomes })
                } else {
                    let result = self.delete_staged_branches(outcomes);
                    self.maybe_handle_git_error(result);
                    None
                }
            },
            Request::Create { name } => {
                if outcome.is_ok() {
                    let wanted = name.clone();
                    self.insert_created(name);
                    Some(Request::CheckoutCreated { name: wanted })
                } else {
                    self.maybe_handle_git_error(outcome);
                    None
                }
            },
            Request::CheckoutCreated { name } => {
                if outcome.is_ok() {
                    self.head_created(&name);
                } else {
                    self.maybe_handle_git_error(outcome);
                }
                None
            },
        }
    }
}

/// The row index `j` is among `indexes`.
spec fn holds_index(indexes: Seq<usize>, j: int) -> bool {
    exists|s: int| 0 <= s < indexes.len() && #[trigger] indexes[s] == j
}

/// Hands back the failure that was reported last, if any deletion failed.
fn take_last_failure(outcomes: Vec<Result<(), Error>>) -> (result: Result<(), Error>)
    ensures
        result == batch_answer(outcomes@),
{
    let mut remaining = outcomes;
    while remaining.len() > 0
        invariant
            last_failure(remaining@) == last_failure(outcomes@),
        decreases remaining.len(),
    {
        let ghost before = remaining@;
        let outcome = remaining.pop().unwrap();
        assert(remaining@ == before.drop_last());
        if outcome.is_err() {
            return outcome;
        }
    }
    Ok(())
}

} // verus!
