//! Key presses as the engine reads them, and the actions they turn into.

use vstd::prelude::*;

verus! {

/// The key of a key press. Keys that no component reads are `Other`.
#[derive(Debug, Clone, Copy, PartialEq, Eq)]
pub enum KeyCode {
    Backspace,
    Enter,
    Up,
    Down,
    Delete,
    Esc,
    Char(char),
    Other,
}

/// The modifier keys held during a key press: none (`Plain`), Shift alone, Control
/// alone, or any other combination.
#[derive(Debug, Clone, Copy, PartialEq, Eq)]
pub enum KeyModifiers {
    Plain,
    Shift,
    Control,
    Other,
}

/// A key press.
#[derive(Debug, Clone, Copy, PartialEq, Eq)]
pub struct KeyEvent {
    pub code: KeyCode,
    pub modifiers: KeyModifiers,
}

impl KeyEvent {
    pub fn new(code: KeyCode, modifiers: KeyModifiers) -> (key: Self)
        ensures
            key == (KeyEvent { code, modifiers }),
    {
        KeyEvent { code, modifiers }
    }
}

/// What a component asks to be done next.
#[derive(Debug, PartialEq, Eq)]
pub enum Action {
    SelectNextBranch,
    SelectPreviousBranch,
    /// Begin to name a new branch.
    InitNewBranch,
    StartInputMode,
    EndInputMod,
    /// Hand a key press to the name input.
    UpdateNewBranchName(KeyEvent),
    CheckoutSelectedBranch,
    CreateBranch(String),
    StageBranchForDeletion,
    UnstageBranchForDeletion,
    DeleteBranch,
    DeleteStagedBranches,
}

} // verus!
