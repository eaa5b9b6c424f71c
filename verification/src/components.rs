//! The parts of the interface, each with the state it owns.

pub mod branch_list;
pub mod stash_list;
