//! The engine behind a terminal interface for the local branches of a git
//! repository: the list with its cursor, the staging of branches for
//! deletion, the naming of a new branch, and the turning of key presses into
//! changes of state and calls for the backend.
//!
//! The engine neither runs git nor draws. It says which call the backend is
//! to make next and takes the answer; it says which rows and which parts of
//! the screen are to be shown. What git prints is read here, and names are
//! checked here.

pub mod action;
pub mod components;
pub mod config;
pub mod error;
pub mod git;
pub mod order;
pub mod text;
