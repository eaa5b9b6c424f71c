use vstd::prelude::*;
use vstd::string::*;

use crate::git::git_wrapper::GitStash;
use crate::text::{decimal, push_decimal, texts};

verus! {

/// One row of the stash list.
#[derive(Debug, PartialEq, Eq)]
pub struct StashItem {
    pub git_stash: GitStash,
}

/// The texts of a stash row from left to right: the number of the entry, its
/// message behind a blank, and its id in round brackets behind a blank.
pub open spec fn stash_label(stash: GitStash) -> Seq<Seq<char>> {
    seq![
        decimal(stash.index as nat),
        " "@ + stash.message@,
        " ("@ + stash.stash_id@ + ")"@,
    ]
}

impl StashItem {
    pub fn new(git_stash: GitStash) -> (item: Self)
        ensures
            item == (StashItem { git_stash }),
    {
        StashItem { git_stash }
    }

    /// The texts of the row from left to right. The first is shown as it is,
    /// the others dimmed.
    pub fn render(&self) -> (label: Vec<String>)
        ensures
            texts(label@) == stash_label(self.git_stash),
    {
        let mut index = String::new();
        push_decimal(&mut index, self.git_stash.index);
        let mut message = String::from_str(" ");
        message.append(self.git_stash.message.as_str());
        let mut id = String::from_str(" (");
        id.append(self.git_stash.stash_id.as_str());
        id.append(")");
        let mut label: Vec<String> = Vec::new();
        label.push(index);
        label.push(message);
        label.push(id);
        label
    }
}

impl Clone for StashItem {
    fn clone(&self) -> (copy: Self)
        ensures
            copy == *self,
    {
        StashItem { git_stash: self.git_stash.clone() }
    }
}

/// The entries of the stash, in the order in which they are shown.
#[derive(Debug, PartialEq, Eq)]
pub struct StashList {
    stashes: Vec<StashItem>,
}

impl View for StashList {
    type V = Seq<StashItem>;

    closed spec fn view(&self) -> Seq<StashItem> {
        self.stashes@
    }
}

impl Default for StashList {
    fn default() -> (list: Self)
        ensures
            list@ == Seq::<StashItem>::empty(),
    {
        StashList { stashes: Vec::new() }
    }
}

impl StashList {
    /// Replaces the rows by those of the entries that the backend has
    /// listed, in its order.
    pub fn load(&mut self, stashes: Vec<GitStash>)
        ensures
            final(self)@ == stashes@.map_values(|git_stash: GitStash| StashItem { git_stash }),
    {
        let mut rows: Vec<StashItem> = Vec::new();
        let mut i: usize = 0;
        while i < stashes.len()
            invariant
                i <= stashes.len(),
                rows@ == stashes@.take(i as int).map_values(
                    |git_stash: GitStash| StashItem { git_stash },
                ),
            decreases stashes.len() - i,
        {
            rows.push(StashItem::new(stashes[i].clone()));
            assert(rows@ =~= stashes@.take(i + 1).map_values(
                |git_stash: GitStash| StashItem { git_stash },
            ));
            i += 1;
        }
        self.stashes = rows;
    }

    /// The rows.
    pub fn stashes(&self) -> (rows: &Vec<StashItem>)
        ensures
            rows@ == self@,
    {
        &self.stashes
    }
}

} // verus!
