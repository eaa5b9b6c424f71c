use vstd::prelude::*;

use crate::action::{Action, KeyCode, KeyEvent, KeyModifiers};
use crate::components::branch_list::branch_item::BranchItem;
use crate::components::branch_list::model::is_listed;
use crate::git::repo::{is_well_formed_branch_name, well_formed_branch_name};
use crate::text::push_char;

verus! {

/// The name being typed for a new branch, and the last verdict on it.
#[derive(Debug, PartialEq, Eq)]
pub struct InputState {
    pub value: Option<String>,
    pub is_valid: Option<bool>,
}

/// An `InputState` with its text as a sequence of characters.
pub struct InputStateView {
    pub value: Option<Seq<char>>,
    pub is_valid: Option<bool>,
}

impl View for InputState {
    type V = InputStateView;

    open spec fn view(&self) -> InputStateView {
        InputStateView {
            value: match self.value {
                Some(text) => Some(text@),
                None => None,
            },
            is_valid: self.is_valid,
        }
    }
}

/// A new branch may be called `name` beside `items`: the name is not empty,
/// no row bears it, and git takes it as a branch name.
pub open spec fn acceptable_name(items: Seq<BranchItem>, name: Seq<char>) -> bool {
    &&& name.len() > 0
    &&& !is_listed(items, name)
    &&& well_formed_branch_name(name)
}

/// The key press types a character: a character key with no modifier or
/// with Shift.
pub open spec fn types_char(key: KeyEvent) -> bool {
    key.code is Char && (key.modifiers is Plain || key.modifiers is Shift)
}

impl InputStateView {
    /// The draft, empty if none has been started.
    pub open spec fn draft(self) -> Seq<char> {
        match self.value {
            Some(text) => text,
            None => Seq::empty(),
        }
    }

    /// The input as it stands when naming begins: an empty draft, not yet
    /// judged.
    pub open spec fn fresh() -> InputStateView {
        InputStateView { value: Some(Seq::empty()), is_valid: None }
    }

    /// The draft can be submitted: it was last judged acceptable.
    pub open spec fn submittable(self) -> bool {
        self.value is Some && self.is_valid == Some(true)
    }

    /// The input after a key press, beside the rows `items`. A typed
    /// character is appended and the draft judged anew; Escape discards the
    /// draft; every other key leaves the input as it is.
    pub open spec fn after_key(self, key: KeyEvent, items: Seq<BranchItem>) -> InputStateView {
        if types_char(key) {
            let draft = self.draft().push(key.code->Char_0);
            InputStateView { value: Some(draft), is_valid: Some(acceptable_name(items, draft)) }
        } else if key.code is Esc {
            InputStateView { value: None, is_valid: None }
        } else {
            self
        }
    }
}

/// Whether some row bears `name`.
pub fn name_is_listed(items: &Vec<BranchItem>, name: &String) -> (listed: bool)
    ensures
        listed == is_listed(items@, name@),
{
    let mut i: usize = 0;
    while i < items.len()
        invariant
            i <= items.len(),
            forall|j: int| 0 <= j < i ==> (#[trigger] items@[j]).branch.name@ != name@,
        decreases items.len() - i,
    {
        if items[i].branch.name == *name {
            return true;
        }
        i += 1;
    }
    false
}

/// Judges a name for a new branch beside `items`, given whether git takes
/// it as a branch name: the name must not be empty, no row may bear it, and
/// git must take it.
pub fn judge_name(items: &Vec<BranchItem>, name: &String, well_formed: bool) -> (acceptable: bool)
    ensures
        acceptable == (name@.len() > 0 && !is_listed(items@, name@) && well_formed),
{
    if name.as_str().unicode_len() == 0 {
        return false;
    }
    if name_is_listed(items, name) {
        return false;
    }
    well_formed
}

/// Judges a name for a new branch beside `items`.
pub fn is_acceptable_name(items: &Vec<BranchItem>, name: &String) -> (acceptable: bool)
    ensures
        acceptable == acceptable_name(items@, name@),
{
    let well_formed = is_well_formed_branch_name(name.as_str());
    judge_name(items, name, well_formed)
}

/// The input box in which a new branch is named.
#[derive(Debug, PartialEq, Eq)]
pub struct BranchInput {
    pub input_state: InputState,
}

impl BranchInput {
    /// An input without a draft.
    pub fn new() -> (input: Self)
        ensures
            input.input_state@ == (InputStateView { value: None, is_valid: None }),
    {
        BranchInput { input_state: InputState { value: None, is_valid: None } }
    }

    /// Starts a new, empty draft.
    pub fn init(&mut self)
        ensures
            final(self).input_state@ == InputStateView::fresh(),
    {
        self.input_state = InputState { value: Some(String::new()), is_valid: None };
    }

    /// Takes a key press while a branch is being named. A typed character is
    /// appended to the draft, which is judged anew against `branches`. Enter
    /// asks for the branch to be created if the draft was last judged
    /// acceptable, and for nothing otherwise. Escape discards the draft and
    /// asks to leave the input.
    pub fn handle_key_event(&mut self, key: KeyEvent, branches: &Vec<BranchItem>) -> (action:
        Option<Action>)
        ensures
            final(self).input_state@ == old(self).input_state@.after_key(key, branches@),
            key.code is Enter && old(self).input_state@.submittable() ==> (action matches Some(
                Action::CreateBranch(name),
            ) && Some(name@) == old(self).input_state@.value),
            key.code is Esc ==> action == Some(Action::EndInputMod),
            !(key.code is Esc) && !(key.code is Enter && old(self).input_state@.submittable())
                ==> action is None,
    {
        match key.code {
            KeyCode::Char(c) => {
                match key.modifiers {
                    KeyModifiers::Plain | KeyModifiers::Shift => {
                        let mut draft = match self.input_state.value.take() {
                            Some(text) => text,
                            None => String::new(),
                        };
                        push_char(&mut draft, c);
                        let acceptable = is_acceptable_name(branches, &draft);
                        self.input_state = InputState {
                            value: Some(draft),
                            is_valid: Some(acceptable),
                        };
                        None
                    },
                    _ => None,
                }
            },
            KeyCode::Enter => {
                match (&self.input_state.value, self.input_state.is_valid) {
                    (Some(text), Some(true)) => Some(Action::CreateBranch(text.clone())),
                    _ => None,
                }
            },
            KeyCode::Esc => {
                self.input_state = InputState { value: None, is_valid: None };
                Some(Action::EndInputMod)
            },
            _ => None,
        }
    }
}

} // verus!
