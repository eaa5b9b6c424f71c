use git_branches::components::stash_list::{StashItem, StashList};
use git_branches::git::git_wrapper::GitStash;

#[test]
fn stash_item_wraps_the_stash() {
    let stash = GitStash::new(2, String::from("wip"), String::from("abc"));
    let item = StashItem::new(stash.clone());
    assert_eq!(item.git_stash, stash);
    assert_eq!(item.clone(), item);
}

#[test]
fn stash_item_label() {
    let item = StashItem::new(GitStash::new(12, String::from("wip on main"), String::from("9f8e7d")));
    assert_eq!(item.render(), vec!["12", " wip on main", " (9f8e7d)"]);
    let bare = StashItem::new(GitStash::new(0, String::new(), String::new()));
    assert_eq!(bare.render(), vec!["0", " ", " ()"]);
}

#[test]
fn stash_list_loads_in_order() {
    let mut list = StashList::default();
    assert!(list.stashes().is_empty());
    let first = GitStash::new(0, String::from("a"), String::new());
    let second = GitStash::new(1, String::from("b"), String::new());
    list.load(vec![first.clone(), second.clone()]);
    assert_eq!(*list.stashes(), vec![StashItem::new(first), StashItem::new(second.clone())]);
    list.load(vec![second.clone()]);
    assert_eq!(*list.stashes(), vec![StashItem::new(second)]);
}
