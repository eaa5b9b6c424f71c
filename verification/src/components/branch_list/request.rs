//! What the branch list asks of the backend, one call at a time.

use vstd::prelude::*;

use crate::action::Action;
use crate::error::Error;

verus! {

/// One call for the backend to make.
#[derive(Debug, PartialEq, Eq)]
pub enum BackendCall {
    Checkout(String),
    Create(String),
    Delete(String),
}

/// A call for the backend, together with what the list does with the answer.
/// The one who makes the call hands the request back with the answer.
#[derive(Debug, PartialEq, Eq)]
pub enum Request {
    /// Check out the branch under the cursor.
    CheckoutSelected { name: String },
    /// Delete the branch under the cursor.
    DeleteSelected { name: String },
    /// Delete the staged branch `name`. `rest` holds the staged branches
    /// still to be deleted after it, `outcomes` the answers for those before
    /// it. The list changes once the last answer is in.
    DeleteStaged { name: String, rest: Vec<String>, outcomes: Vec<Result<(), Error>> },
    /// Create a branch.
    Create { name: String },
    /// Check out the branch that was just created.
    CheckoutCreated { name: String },
}

impl Request {
    /// The call that this request asks for.
    pub open spec fn call_spec(self) -> BackendCall {
        match self {
            Request::CheckoutSelected { name } => BackendCall::Checkout(name),
            Request::DeleteSelected { name } => BackendCall::Delete(name),
            Request::DeleteStaged { name, .. } => BackendCall::Delete(name),
            Request::Create { name } => BackendCall::Create(name),
            Request::CheckoutCreated { name } => BackendCall::Checkout(name),
        }
    }

    /// The call that this request asks for.
    pub fn call(&self) -> (call: BackendCall)
        ensures
            call == self.call_spec(),
    {
        match self {
            Request::CheckoutSelected { name } => BackendCall::Checkout(name.clone()),
            Request::DeleteSelected { name } => BackendCall::Delete(name.clone()),
            Request::DeleteStaged { name, .. } => BackendCall::Delete(name.clone()),
            Request::Create { name } => BackendCall::Create(name.clone()),
            Request::CheckoutCreated { name } => BackendCall::Checkout(name.clone()),
        }
    }
}

/// What an action leaves to be done: an action to handle next, and a call
/// for the backend.
#[derive(Debug, PartialEq, Eq)]
pub struct Step {
    pub action: Option<Action>,
    pub request: Option<Request>,
}

} // verus!
