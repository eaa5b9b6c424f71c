use git_branches::components::branch_list::request::BackendCall;
use git_branches::error::Error;
use git_branches::git::git_wrapper::{
    branch_from_captures, command_output, git_arguments, judge_output, git_list_arguments, git_local_branches, git_stash_arguments, git_stashes,
    git_validation_arguments, parse_branch_line, GitBranch, GitRemoteBranch, GitStash,
};

fn with_upstream(name: &str, is_head: bool, upstream: &str) -> GitBranch {
    GitBranch {
        name: String::from(name),
        is_head,
        upstream: Some(GitRemoteBranch::new(String::from(upstream))),
    }
}

fn without_upstream(name: &str, is_head: bool) -> GitBranch {
    GitBranch { name: String::from(name), is_head, upstream: None }
}

#[test]
fn remote_branch_holds_its_name() {
    let remote = GitRemoteBranch::new(String::from("origin/main"));
    assert_eq!(remote.name, "origin/main");
    assert_eq!(remote.clone(), remote);
}

#[test]
fn stash_holds_its_fields() {
    let stash = GitStash::new(3, String::from("wip"), String::from("abc123"));
    assert_eq!(stash.index, 3);
    assert_eq!(stash.message, "wip");
    assert_eq!(stash.stash_id, "abc123");
    assert_eq!(stash.clone(), stash);
}

#[test]
fn branch_clone_is_equal() {
    let branch = with_upstream("main", true, "origin/main");
    assert_eq!(branch.clone(), branch);
}

#[test]
fn listing_is_read_line_by_line() {
    let output = "* git-cli-repo 911ec26 [origin/git-cli-repo] Linting\n  main         8fb5d9b [origin/main] Fix build\n  stash-list   6442450 [origin/stash-list: gone] Formatting\n  test         dbcf785 Updates\n";
    let branches = git_local_branches(output);
    assert_eq!(
        branches,
        vec![
            with_upstream("git-cli-repo", true, "origin/git-cli-repo"),
            with_upstream("main", false, "origin/main"),
            with_upstream("stash-list", false, "origin/stash-list"),
            without_upstream("test", false),
        ]
    );
}

#[test]
fn listing_of_nothing_is_empty() {
    assert_eq!(git_local_branches(""), Vec::<GitBranch>::new());
}

#[test]
fn listing_with_carriage_returns_and_no_final_newline() {
    let branches = git_local_branches("  main 8fb5d9b ok\r\n* dev 0a1b2c3 [origin/dev: ahead 1] more");
    assert_eq!(branches, vec![without_upstream("main", false), with_upstream("dev", true, "origin/dev")]);
}

#[test]
fn line_without_the_shape_becomes_a_name() {
    assert_eq!(parse_branch_line(String::from("lonely")), without_upstream("lonely", false));
    assert_eq!(parse_branch_line(String::new()), without_upstream("", false));
    assert_eq!(git_local_branches("\n"), vec![without_upstream("", false)]);
}

#[test]
fn line_of_the_checked_out_branch() {
    assert_eq!(parse_branch_line(String::from("* main 8fb5d9b Fix build")), without_upstream("main", true));
}

#[test]
fn stashes_are_numbered_in_order() {
    let stashes = git_stashes("  first  \n\tsecond\n\nlast");
    assert_eq!(
        stashes,
        vec![
            GitStash::new(0, String::from("first"), String::new()),
            GitStash::new(1, String::from("second"), String::new()),
            GitStash::new(2, String::new(), String::new()),
            GitStash::new(3, String::from("last"), String::new()),
        ]
    );
    assert!(git_stashes("").is_empty());
}

#[test]
fn command_that_succeeds_hands_back_what_it_printed() {
    let result = command_output(true, b"  main\n".to_vec(), Vec::new());
    assert_eq!(result, Ok(String::from("  main\n")));
}

#[test]
fn command_that_fails_hands_back_its_reason() {
    let result = command_output(false, b"partial".to_vec(), b"fatal: not a git repository\n".to_vec());
    assert_eq!(result, Err(Error::Git(String::from("fatal: not a git repository\n"))));
}

#[test]
fn command_that_fails_in_silence_counts_as_done() {
    assert_eq!(command_output(false, b"out".to_vec(), Vec::new()), Ok(String::from("out")));
}

#[test]
fn command_that_warns_but_succeeds_hands_back_what_it_printed() {
    let result = command_output(true, "caf\u{e9}".as_bytes().to_vec(), b"warning: something".to_vec());
    assert_eq!(result, Ok(String::from("caf\u{e9}")));
}

#[test]
fn command_output_that_is_not_utf8_is_refused() {
    let result = command_output(true, vec![0x66, 0xff, 0x6f], Vec::new());
    assert!(matches!(result, Err(Error::ParsingError(_))));
    let result = command_output(false, b"fine".to_vec(), vec![0xc3]);
    assert!(matches!(result, Err(Error::ParsingError(_))));
    let result = command_output(false, vec![0xff], b"fatal".to_vec());
    assert_eq!(result, Err(Error::Git(String::from("fatal"))));
}

#[test]
fn error_messages() {
    assert_eq!(Error::Git(String::from("boom")).message(), "Git operation failed: boom");
    assert_eq!(Error::Git(String::new()).message(), "Git operation failed: ");
    assert_eq!(Error::ParsingError(String::from("invalid utf-8")).message(), "invalid utf-8");
}

#[test]
fn arguments_of_backend_calls() {
    assert_eq!(git_list_arguments(), vec!["branch", "--list", "-vv"]);
    assert_eq!(git_stash_arguments(), vec!["branch", "--list"]);
    assert_eq!(git_validation_arguments("a b"), vec!["check-ref-format", "--branch", "a b"]);
    assert_eq!(git_arguments(&BackendCall::Checkout(String::from("main"))), vec!["checkout", "main"]);
    assert_eq!(git_arguments(&BackendCall::Create(String::from("topic"))), vec!["checkout", "-b", "topic"]);
    assert_eq!(git_arguments(&BackendCall::Delete(String::from("old"))), vec!["branch", "-D", "old"]);
}

#[test]
fn branch_from_what_the_pattern_found() {
    let text = |t: &str| Some(String::from(t));
    let groups = vec![text("* main 8fb5d9b [origin/main"), text("* "), text("*"), text("main"), text("8fb5d9b"), text("[origin/main"), text("origin/main"), None];
    assert_eq!(
        branch_from_captures(String::from("* main 8fb5d9b [origin/main] Fix"), Some(groups)),
        with_upstream("main", true, "origin/main")
    );
    let groups = vec![text("dev 0a1b2c3 "), None, None, text("dev"), text("0a1b2c3"), None, None, None];
    assert_eq!(branch_from_captures(String::from("dev 0a1b2c3 wip"), Some(groups)), without_upstream("dev", false));
}

#[test]
fn branch_from_nothing_found_is_the_line() {
    assert_eq!(branch_from_captures(String::from("odd line"), None), without_upstream("odd line", false));
    let short = vec![Some(String::from("x")), None, None, Some(String::from("x"))];
    assert_eq!(branch_from_captures(String::from("odd"), Some(short)), without_upstream("odd", false));
    let nameless = vec![Some(String::from("x")), None, None, None, None, None, None, None];
    assert_eq!(branch_from_captures(String::from("odd"), Some(nameless)), without_upstream("odd", false));
}

#[test]
fn judging_decoded_output() {
    let text = |t: &str| Ok(String::from(t));
    let refusal = |t: &str| Err(String::from(t));
    assert_eq!(judge_output(true, text("out"), text("")), Ok(String::from("out")));
    assert_eq!(judge_output(true, text("out"), text("warn")), Ok(String::from("out")));
    assert_eq!(judge_output(false, text("out"), text("")), Ok(String::from("out")));
    assert_eq!(judge_output(false, text("out"), text("fatal")), Err(Error::Git(String::from("fatal"))));
    assert_eq!(judge_output(false, refusal("bad out"), text("fatal")), Err(Error::Git(String::from("fatal"))));
    assert_eq!(judge_output(true, refusal("bad out"), text("")), Err(Error::ParsingError(String::from("bad out"))));
    assert_eq!(judge_output(true, text("out"), refusal("bad err")), Err(Error::ParsingError(String::from("bad err"))));
    assert_eq!(
        judge_output(false, refusal("bad out"), refusal("bad err")),
        Err(Error::ParsingError(String::from("bad err")))
    );
}
