use vstd::prelude::*;
use vstd::string::*;

verus! {

/// Why a git operation did not yield what was asked for.
#[derive(Debug, PartialEq, Eq)]
pub enum Error {
    /// git rejected the operation or could not be run; the text is the
    /// reason it gave.
    Git(String),
    /// What git printed is not UTF-8; the text is the decoder's complaint.
    ParsingError(String),
}

/// The text that introduces the reason of a failed git operation.
pub open spec fn git_failure_prefix() -> Seq<char> {
    "Git operation failed: "@
}

impl Error {
    /// The message of this error: the reason of a failed operation behind
    /// `Git operation failed: `, the decoder's complaint as it is.
    pub open spec fn message_spec(self) -> Seq<char> {
        match self {
            Error::Git(reason) => git_failure_prefix() + reason@,
            Error::ParsingError(complaint) => complaint@,
        }
    }

    /// Renders the error as the message shown to the user.
    pub fn message(&self) -> (text: String)
        ensures
            text@ == self.message_spec(),
    {
        match self {
            Error::Git(reason) => {
                let mut text = String::from_str("Git operation failed: ");
                text.append(reason.as_str());
                text
            },
            Error::ParsingError(complaint) => complaint.clone(),
        }
    }
}

} // verus!
