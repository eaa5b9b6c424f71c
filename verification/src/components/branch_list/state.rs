//! The state of the branch list as mathematical values, and what each
//! operation makes of it.

use vstd::prelude::*;

use crate::action::{Action, KeyEvent};
use crate::components::branch_list::branch_input::{acceptable_name, InputStateView};
use crate::components::branch_list::branch_item::BranchItem;
use crate::components::branch_list::model::{
    clamp_index,
    created_item,
    cursor_on,
    last_failure,
    next_index,
    previous_index,
    sort_by_name,
    staged_names,
    survivors,
    with_head,
};
use crate::components::branch_list::request::Request;
use crate::components::branch_list::Mode;
use crate::error::Error;
use crate::text::{lines_of, trimmed};

verus! {

/// What a `BranchList` holds, as mathematical values.
pub struct BranchListState {
    pub items: Seq<BranchItem>,
    pub selected_index: nat,
    pub mode: Mode,
    pub error: Option<Seq<char>>,
    pub input: InputStateView,
}

/// A part of the branch list on the screen.
#[derive(Debug, Clone, Copy, PartialEq, Eq)]
pub enum Part {
    List,
    Input,
    Error,
    Footer,
}

/// How many lines a part takes: a fixed number, or a share of what the
/// other parts leave.
#[derive(Debug, Clone, Copy, PartialEq, Eq)]
pub enum Height {
    Fill(u16),
    Length(u16),
}

/// A part of the branch list with the lines it takes.
#[derive(Debug, Clone, Copy, PartialEq, Eq)]
pub struct Section {
    pub part: Part,
    pub height: Height,
}

/// The error has more lines than a height can count.
#[derive(Debug, Clone, Copy, PartialEq, Eq)]
pub struct ErrorTooTall;

/// The lines that an error takes on the screen: its own lines, blanks at
/// both ends left out, and two for the frame.
pub open spec fn error_height(error: Seq<char>) -> nat {
    lines_of(trimmed(error)).len() + 2
}

/// What a batch deletion hands back: the failure reported last, if any.
pub open spec fn batch_answer(outcomes: Seq<Result<(), Error>>) -> Result<(), Error> {
    match last_failure(outcomes) {
        Some(error) => Err(error),
        None => Ok(()),
    }
}

/// The character is the letter `c` in either case.
pub open spec fn is_letter_c(c: char) -> bool {
    c == 'c' || c == 'C'
}

/// The character is the letter `d` in either case.
pub open spec fn is_letter_d(c: char) -> bool {
    c == 'd' || c == 'D'
}

impl BranchListState {
    /// The cursor points at a row wherever there is one, the checked-out
    /// branch is not staged for deletion, and no row of the list is a draft.
    pub open spec fn wf(self) -> bool {
        &&& self.items.len() > 0 ==> self.selected_index < self.items.len()
        &&& forall|i: int|
            0 <= i < self.items.len() ==> (#[trigger] self.items[i]).wf()
                && !self.items[i].staged_for_creation
    }

    /// The row under the cursor, if the cursor points at one.
    pub open spec fn selected(self) -> Option<BranchItem> {
        if self.selected_index < self.items.len() {
            Some(self.items[self.selected_index as int])
        } else {
            None
        }
    }

    /// The state after a step of the cursor down.
    pub open spec fn after_next(self) -> BranchListState {
        BranchListState {
            selected_index: next_index(self.items.len(), self.selected_index),
            ..self
        }
    }

    /// The state after a step of the cursor up.
    pub open spec fn after_previous(self) -> BranchListState {
        BranchListState {
            selected_index: previous_index(self.items.len(), self.selected_index),
            ..self
        }
    }

    /// The state after a request to set the deletion mark of the row under
    /// the cursor to `stage`.
    pub open spec fn after_staging(self, stage: bool) -> BranchListState {
        match self.selected() {
            Some(item) => BranchListState {
                items: self.items.update(self.selected_index as int, item.staged(stage)),
                ..self
            },
            None => self,
        }
    }

    /// What an operation on the row under the cursor hands back: the
    /// backend's answer, or success where no row is under the cursor.
    pub open spec fn answer_for_selected(self, outcome: Result<(), Error>) -> Result<(), Error> {
        match self.selected() {
            Some(_) => outcome,
            None => Ok(()),
        }
    }

    /// The state once the backend has answered the checkout of the branch
    /// under the cursor.
    pub open spec fn after_checkout(self, outcome: Result<(), Error>) -> BranchListState {
        match (self.selected(), outcome) {
            (Some(item), Ok(_)) => BranchListState {
                items: with_head(self.items, item.branch.name@),
                ..self
            },
            _ => self,
        }
    }

    /// The state once the backend has answered the deletion of the branch
    /// under the cursor.
    pub open spec fn after_deletion(self, outcome: Result<(), Error>) -> BranchListState {
        match (self.selected(), outcome) {
            (Some(_), Ok(_)) => BranchListState {
                items: self.items.remove(self.selected_index as int),
                selected_index: clamp_index((self.items.len() - 1) as nat, self.selected_index),
                ..self
            },
            _ => self,
        }
    }

    /// The state once the backend has answered the deletion of the staged
    /// branches, one answer for each staged row in the order of the rows.
    pub open spec fn after_staged_deletion(
        self,
        outcomes: Seq<Result<(), Error>>,
    ) -> BranchListState {
        BranchListState {
            items: survivors(self.items, outcomes),
            selected_index: clamp_index(
                survivors(self.items, outcomes).len(),
                self.selected_index,
            ),
            ..self
        }
    }

    /// The state once a branch has been created under `name`: its row has
    /// joined the others, the rows stand in the order of their names, and a
    /// cursor that stood past the end points at the last row.
    pub open spec fn with_created(self, name: String) -> BranchListState {
        BranchListState {
            items: sort_by_name(self.items.push(created_item(name))),
            selected_index: clamp_index(self.items.len() + 1, self.selected_index),
            ..self
        }
    }

    /// The state once the branch created under `name` has been checked out:
    /// it is the head, no other row is, and the cursor points at it.
    pub open spec fn with_created_checked_out(self, name: Seq<char>) -> BranchListState {
        BranchListState {
            items: with_head(self.items, name),
            selected_index: cursor_on(with_head(self.items, name), name),
            ..self
        }
    }

    /// The state once the backend has answered the creation of a branch under
    /// `name` and the checkout that follows it.
    pub open spec fn after_creation(
        self,
        name: String,
        created: Result<(), Error>,
        checked_out: Result<(), Error>,
    ) -> BranchListState {
        if !acceptable_name(self.items, name@) || created is Err {
            self
        } else if checked_out is Err {
            self.with_created(name)
        } else {
            self.with_created(name).with_created_checked_out(name@)
        }
    }

    /// What the creation of a branch hands back: success for a name that was
    /// turned down, else the first failure.
    pub open spec fn creation_answer(
        self,
        name: String,
        created: Result<(), Error>,
        checked_out: Result<(), Error>,
    ) -> Result<(), Error> {
        if !acceptable_name(self.items, name@) {
            Ok(())
        } else if created is Err {
            created
        } else {
            checked_out
        }
    }

    /// The state once the result of a backend operation has been taken note
    /// of: a failure's message becomes the current error.
    pub open spec fn with_result(self, result: Result<(), Error>) -> BranchListState {
        match result {
            Err(error) => BranchListState { error: Some(error.message_spec()), ..self },
            Ok(_) => self,
        }
    }

    /// The parts of the screen from top to bottom. While a branch is being
    /// named the input stands between the list and the footer, and no error
    /// is shown; else the error, if there is one, stands there. `None` where
    /// the error has too many lines.
    pub open spec fn sections(self) -> Option<Seq<Section>> {
        let list = Section { part: Part::List, height: Height::Fill(1) };
        let footer = Section { part: Part::Footer, height: Height::Length(1) };
        if self.mode is Input {
            Some(seq![list, Section { part: Part::Input, height: Height::Length(3) }, footer])
        } else {
            match self.error {
                Some(error) => if error_height(error) <= u16::MAX {
                    Some(
                        seq![
                            list,
                            Section {
                                part: Part::Error,
                                height: Height::Length(error_height(error) as u16),
                            },
                            footer,
                        ],
                    )
                } else {
                    None
                },
                None => Some(seq![list, footer]),
            }
        }
    }

    /// A draft is shown among the rows: a branch is being named.
    pub open spec fn shows_draft(self) -> bool {
        self.mode is Input && self.input.value is Some
    }

    /// `row` is the row that stands for the draft.
    pub open spec fn is_draft_row(self, row: BranchItem) -> bool {
        &&& Some(row.branch.name@) == self.input.value
        &&& !row.branch.is_head
        &&& row.branch.upstream is None
        &&& row.staged_for_creation
        &&& !row.staged_for_deletion
        &&& row.is_valid_name == (self.input.is_valid == Some(true))
    }

    /// `rows` are the rows of the list and the row `rows[at]` for the draft,
    /// in the order of their names.
    pub open spec fn shows_draft_at(self, rows: Seq<BranchItem>, at: int) -> bool {
        &&& 0 <= at < rows.len()
        &&& self.is_draft_row(rows[at])
        &&& rows == sort_by_name(self.items.push(rows[at]))
    }

    /// `rows` are the rows to show and `highlight` is the row to highlight.
    /// While a branch is being named these are the rows of the list and a row
    /// for the draft, in the order of their names, with the first row marked
    /// as a draft highlighted, which in a well-formed list is the row of the
    /// draft; else the rows of the list, with the row under the cursor
    /// highlighted.
    pub open spec fn shows(self, rows: Seq<BranchItem>, highlight: Option<usize>) -> bool {
        if self.shows_draft() {
            &&& highlight matches Some(at)
            &&& at < rows.len()
            &&& rows[at as int].staged_for_creation
            &&& forall|i: int| 0 <= i < at ==> !(#[trigger] rows[i]).staged_for_creation
            &&& exists|k: int| self.shows_draft_at(rows, k)
            &&& self.wf() ==> self.shows_draft_at(rows, at as int)
        } else {
            &&& rows == self.items
            &&& highlight == Some(self.selected_index as usize)
        }
    }

    /// The action that a key press asks for while the list is browsed.
    pub open spec fn selection_action(self, key: KeyEvent) -> Option<Action> {
        if key.modifiers is Plain && key.code is Down {
            Some(Action::SelectNextBranch)
        } else if key.modifiers is Plain && key.code is Up {
            Some(Action::SelectPreviousBranch)
        } else if key.modifiers is Plain && (key.code is Delete || key.code is Backspace) {
            Some(Action::DeleteBranch)
        } else if key.code is Char {
            let c = key.code->Char_0;
            if is_letter_c(c) && key.modifiers is Shift {
                Some(Action::InitNewBranch)
            } else if is_letter_c(c) && key.modifiers is Plain {
                Some(Action::CheckoutSelectedBranch)
            } else if is_letter_d(c) && key.modifiers is Shift {
                Some(Action::UnstageBranchForDeletion)
            } else if is_letter_d(c) && key.modifiers is Control {
                Some(Action::DeleteStagedBranches)
            } else if is_letter_d(c) && key.modifiers is Plain {
                match self.selected() {
                    Some(item) => if item.staged_for_deletion {
                        Some(Action::DeleteBranch)
                    } else {
                        Some(Action::StageBranchForDeletion)
                    },
                    None => None,
                }
            } else {
                None
            }
        } else {
            None
        }
    }

    /// The action that a key press asks for: while a branch is being named
    /// every key goes to the name input.
    pub open spec fn action_for_key(self, key: KeyEvent) -> Option<Action> {
        match self.mode {
            Mode::Input => Some(Action::UpdateNewBranchName(key)),
            Mode::Selection => self.selection_action(key),
        }
    }

    /// The state after an action has been taken, before any answer of the
    /// backend.
    pub open spec fn after_action(self, action: Action) -> BranchListState {
        match action {
            Action::SelectNextBranch => self.after_next(),
            Action::SelectPreviousBranch => self.after_previous(),
            Action::InitNewBranch => BranchListState {
                mode: Mode::Input,
                input: InputStateView::fresh(),
                ..self
            },
            Action::EndInputMod => BranchListState { mode: Mode::Selection, ..self },
            Action::UpdateNewBranchName(key) => BranchListState {
                input: self.input.after_key(key, self.items),
                ..self
            },
            Action::CreateBranch(name) => if acceptable_name(self.items, name@) {
                BranchListState { mode: Mode::Selection, ..self }
            } else {
                self
            },
            Action::StageBranchForDeletion => self.after_staging(true),
            Action::UnstageBranchForDeletion => self.after_staging(false),
            Action::DeleteStagedBranches => if staged_names(self.items).len() == 0 {
                self.after_staged_deletion(Seq::empty())
            } else {
                self
            },
            Action::CheckoutSelectedBranch => self,
            Action::DeleteBranch => self,
            Action::StartInputMode => self,
        }
    }

    /// `request` is what an action asks of the backend.
    pub open spec fn asks(self, action: Action, request: Option<Request>) -> bool {
        match action {
            Action::CheckoutSelectedBranch => request == (match self.selected() {
                Some(item) => Some(Request::CheckoutSelected { name: item.branch.name }),
                None => None,
            }),
            Action::DeleteBranch => request == (match self.selected() {
                Some(item) => Some(Request::DeleteSelected { name: item.branch.name }),
                None => None,
            }),
            Action::DeleteStagedBranches => if staged_names(self.items).len() == 0 {
                request is None
            } else {
                &&& request matches Some(Request::DeleteStaged { name, rest, outcomes })
                &&& seq![name] + rest@ == staged_names(self.items)
                &&& outcomes@.len() == 0
            },
            Action::CreateBranch(name) => request == (if acceptable_name(self.items, name@) {
                Some(Request::Create { name })
            } else {
                None
            }),
            _ => request is None,
        }
    }

    /// `next` is the action that an action leaves to be handled.
    pub open spec fn hands_on(self, action: Action, next: Option<Action>) -> bool {
        match action {
            Action::InitNewBranch => next == Some(Action::StartInputMode),
            Action::CreateBranch(name) => next == (if acceptable_name(self.items, name@) {
                Some(Action::EndInputMod)
            } else {
                None
            }),
            Action::UpdateNewBranchName(key) => if key.code is Esc {
                next == Some(Action::EndInputMod)
            } else if key.code is Enter && self.input.submittable() {
                next matches Some(Action::CreateBranch(name)) && Some(name@) == self.input.value
            } else {
                next is None
            },
            _ => next is None,
        }
    }

    /// The state once the backend has answered a request.
    pub open spec fn after_answer(
        self,
        request: Request,
        outcome: Result<(), Error>,
    ) -> BranchListState {
        match request {
            Request::CheckoutSelected { .. } => self.after_checkout(outcome).with_result(
                self.answer_for_selected(outcome),
            ),
            Request::DeleteSelected { .. } => self.after_deletion(outcome).with_result(
                self.answer_for_selected(outcome),
            ),
            Request::DeleteStaged { rest, outcomes, .. } => if rest@.len() > 0 {
                self
            } else {
                self.after_staged_deletion(outcomes@.push(outcome)).with_result(
                    batch_answer(outcomes@.push(outcome)),
                )
            },
            Request::Create { name } => match outcome {
                Ok(_) => self.with_created(name),
                Err(_) => self.with_result(outcome),
            },
            Request::CheckoutCreated { name } => match outcome {
                Ok(_) => self.with_created_checked_out(name@),
                Err(_) => self.with_result(outcome),
            },
        }
    }

    /// `next` is the request that follows an answered request.
    pub open spec fn asks_next(
        request: Request,
        outcome: Result<(), Error>,
        next: Option<Request>,
    ) -> bool {
        match request {
            Request::DeleteStaged { rest, outcomes, .. } => if rest@.len() > 0 {
                &&& next matches Some(
                    Request::DeleteStaged { name: following, rest: left, outcomes: known },
                )
                &&& following == rest@[0]
                &&& left@ == rest@.skip(1)
                &&& known@ == outcomes@.push(outcome)
            } else {
                next is None
            },
            Request::Create { name } => next == (match outcome {
                Ok(_) => Some(Request::CheckoutCreated { name }),
                Err(_) => None,
            }),
            _ => next is None,
        }
    }
}

} // verus!
