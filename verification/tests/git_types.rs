use git_branches::git::git_wrapper::GitBranch;

#[test]
fn new_branch_is_not_head() {
    let branch = GitBranch::new(String::from("main"));
    assert_eq!(branch.name, "main");
    assert!(!branch.is_head);
    assert!(branch.upstream.is_none());
}
