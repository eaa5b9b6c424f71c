use vstd::prelude::*;
use vstd::string::*;
use vstd::utf8::{decode_utf8, valid_utf8};

use crate::components::branch_list::request::BackendCall;
use crate::error::Error;
use crate::git::pattern::{captures, groups_of, regex_captures};
use crate::text::{decode, lines, lines_of, texts, trim, trimmed};

verus! {

/// A remote-tracking branch that a local branch follows.
#[derive(Debug, PartialEq, Eq)]
pub struct GitRemoteBranch {
    pub name: String,
}

impl GitRemoteBranch {
    pub fn new(name: String) -> (remote: Self)
        ensures
            remote == (GitRemoteBranch { name }),
    {
        GitRemoteBranch { name }
    }
}

impl Clone for GitRemoteBranch {
    fn clone(&self) -> (copy: Self)
        ensures
            copy == *self,
    {
        GitRemoteBranch { name: self.name.clone() }
    }
}

/// A local branch: its name, whether it is checked out, and the remote branch
/// it tracks, if any.
#[derive(Debug, PartialEq, Eq)]
pub struct GitBranch {
    pub name: String,
    pub is_head: bool,
    pub upstream: Option<GitRemoteBranch>,
}

impl GitBranch {
    /// A branch that is not checked out and tracks nothing.
    pub fn new(name: String) -> (branch: Self)
        ensures
            branch == (GitBranch { name, is_head: false, upstream: None }),
    {
        GitBranch { name, is_head: false, upstream: None }
    }
}

impl Clone for GitBranch {
    fn clone(&self) -> (copy: Self)
        ensures
            copy == *self,
    {
        let upstream = match &self.upstream {
            Some(remote) => Some(remote.clone()),
            None => None,
        };
        GitBranch { name: self.name.clone(), is_head: self.is_head, upstream }
    }
}

/// A `GitBranch` with its texts as sequences of characters.
pub struct GitBranchView {
    pub name: Seq<char>,
    pub is_head: bool,
    pub upstream: Option<Seq<char>>,
}

impl View for GitBranch {
    type V = GitBranchView;

    open spec fn view(&self) -> GitBranchView {
        GitBranchView {
            name: self.name@,
            is_head: self.is_head,
            upstream: match self.upstream {
                Some(remote) => Some(remote.name@),
                None => None,
            },
        }
    }
}

/// An entry of the stash.
#[derive(Debug, PartialEq, Eq)]
pub struct GitStash {
    pub index: usize,
    pub message: String,
    pub stash_id: String,
}

impl GitStash {
    pub fn new(index: usize, message: String, stash_id: String) -> (stash: Self)
        ensures
            stash == (GitStash { index, message, stash_id }),
    {
        GitStash { index, message, stash_id }
    }
}

impl Clone for GitStash {
    fn clone(&self) -> (copy: Self)
        ensures
            copy == *self,
    {
        GitStash {
            index: self.index,
            message: self.message.clone(),
            stash_id: self.stash_id.clone(),
        }
    }
}

/// A `GitStash` with its texts as sequences of characters.
pub struct GitStashView {
    pub index: usize,
    pub message: Seq<char>,
    pub stash_id: Seq<char>,
}

impl View for GitStash {
    type V = GitStashView;

    open spec fn view(&self) -> GitStashView {
        GitStashView { index: self.index, message: self.message@, stash_id: self.stash_id@ }
    }
}

/// The shape of a line of `git branch --list -vv`: an asterisk if the branch
/// is checked out, the name, the abbreviated commit, and in square brackets
/// the upstream branch, if the branch has one.
pub const BRANCH_LINE: &'static str =
    r"((?<head>\*)\s+)?(?<name>\S+)\s+(?<sha>[A-Fa-f0-9]+)\s+(\[(?<upstream>[^:|^\]]+)(?<gone>[:\sgone]+)?)?";

/// The branch that a line stands for when it has not the shape of a line of
/// the listing: the whole line is the name.
pub open spec fn unparsed_branch(line: Seq<char>) -> GitBranchView {
    GitBranchView { name: line, is_head: false, upstream: None }
}

/// The branch that a line of the listing stands for, given what the pattern
/// `BRANCH_LINE` found in it. Of the groups of the pattern, the second is
/// the asterisk, the third the name and the sixth the upstream branch. Where
/// the pattern found nothing, or not its eight groups, or no name, the whole
/// line is the name.
pub open spec fn branch_of_groups(
    line: Seq<char>,
    found: Option<Seq<Option<Seq<char>>>>,
) -> GitBranchView {
    match found {
        Some(groups) => if groups.len() == 8 && groups[3] is Some {
            GitBranchView { name: groups[3].unwrap(), is_head: groups[2] is Some, upstream: groups[6] }
        } else {
            unparsed_branch(line)
        },
        None => unparsed_branch(line),
    }
}

/// The branch that a line of the listing stands for.
pub open spec fn branch_of_line(line: Seq<char>) -> GitBranchView {
    branch_of_groups(line, regex_captures(BRANCH_LINE@, line))
}

/// Makes a branch of a line of the listing and of what the pattern
/// `BRANCH_LINE` found in it.
pub fn branch_from_captures(line: String, found: Option<Vec<Option<String>>>) -> (branch: GitBranch)
    ensures
        branch@ == branch_of_groups(line@, groups_of(found)),
{
    match found {
        Some(groups) => {
            if groups.len() != 8 {
                return GitBranch::new(line);
            }
            let name = match &groups[3] {
                Some(text) => text.clone(),
                None => {
                    return GitBranch::new(line);
                },
            };
            let upstream = match &groups[6] {
                Some(text) => Some(GitRemoteBranch::new(text.clone())),
                None => None,
            };
            GitBranch { name, is_head: groups[2].is_some(), upstream }
        },
        None => GitBranch::new(line),
    }
}

/// Reads one line of `git branch --list -vv`, without the blanks around it.
pub fn parse_branch_line(line: String) -> (branch: GitBranch)
    ensures
        branch@ == branch_of_line(line@),
{
    let found = captures(BRANCH_LINE, line.as_str());
    branch_from_captures(line, found)
}

/// Reads what `git branch --list -vv` printed: one branch for each line, in
/// the order of the lines.
pub fn git_local_branches(output: &str) -> (branches: Vec<GitBranch>)
    ensures
        branches@.len() == lines_of(output@).len(),
        forall|i: int|
            0 <= i < branches@.len() ==> (#[trigger] branches@[i])@ == branch_of_line(
                trimmed(lines_of(output@)[i]),
            ),
{
    let list = lines(output);
    let mut branches: Vec<GitBranch> = Vec::new();
    let mut i: usize = 0;
    while i < list.len()
        invariant
            i <= list.len(),
            texts(list@) == lines_of(output@),
            branches@.len() == i,
            forall|k: int|
                0 <= k < i ==> (#[trigger] branches@[k])@ == branch_of_line(
                    trimmed(lines_of(output@)[k]),
                ),
        decreases list.len() - i,
    {
        let line = trim(list[i].as_str());
        branches.push(parse_branch_line(line));
        i += 1;
    }
    branches
}

/// Reads a listing of stashes: one entry for each line, numbered from 0 in
/// the order of the lines, with the line without the blanks around it as its
/// message.
pub fn git_stashes(output: &str) -> (stashes: Vec<GitStash>)
    ensures
        stashes@.len() == lines_of(output@).len(),
        forall|i: int|
            0 <= i < stashes@.len() ==> (#[trigger] stashes@[i])@ == (GitStashView {
                index: i as usize,
                message: trimmed(lines_of(output@)[i]),
                stash_id: Seq::empty(),
            }),
{
    let list = lines(output);
    let mut stashes: Vec<GitStash> = Vec::new();
    let mut i: usize = 0;
    while i < list.len()
        invariant
            i <= list.len(),
            texts(list@) == lines_of(output@),
            stashes@.len() == i,
            forall|k: int|
                0 <= k < i ==> (#[trigger] stashes@[k])@ == (GitStashView {
                    index: k as usize,
                    message: trimmed(lines_of(output@)[k]),
                    stash_id: Seq::empty(),
                }),
        decreases list.len() - i,
    {
        let line = trim(list[i].as_str());
        stashes.push(GitStash::new(i, line, String::new()));
        i += 1;
    }
    stashes
}

/// The arguments with which `git` lists the local branches, each with its
/// commit and its upstream branch.
pub open spec fn list_arguments() -> Seq<Seq<char>> {
    seq!["branch"@, "--list"@, "-vv"@]
}

/// The arguments with which `git` makes a call of the backend: a checkout
/// of the branch, the creation of the branch together with its checkout, or
/// the deletion of the branch whether it is merged or not.
pub open spec fn call_arguments(call: BackendCall) -> Seq<Seq<char>> {
    match call {
        BackendCall::Checkout(name) => seq!["checkout"@, name@],
        BackendCall::Create(name) => seq!["checkout"@, "-b"@, name@],
        BackendCall::Delete(name) => seq!["branch"@, "-D"@, name@],
    }
}

/// The arguments to run `git` with to list the local branches in the form
/// that `git_local_branches` reads.
pub fn git_list_arguments() -> (arguments: Vec<String>)
    ensures
        texts(arguments@) == list_arguments(),
{
    let mut arguments: Vec<String> = Vec::new();
    arguments.push(String::from_str("branch"));
    arguments.push(String::from_str("--list"));
    arguments.push(String::from_str("-vv"));
    arguments
}

/// The arguments with which `git` prints what `git_stashes` reads.
pub open spec fn stash_arguments() -> Seq<Seq<char>> {
    seq!["branch"@, "--list"@]
}

/// The arguments to run `git` with to print what `git_stashes` reads.
pub fn git_stash_arguments() -> (arguments: Vec<String>)
    ensures
        texts(arguments@) == stash_arguments(),
{
    let mut arguments: Vec<String> = Vec::new();
    arguments.push(String::from_str("branch"));
    arguments.push(String::from_str("--list"));
    arguments
}

/// The arguments with which `git` says whether it takes `name` as the name
/// of a branch: it succeeds exactly if it does.
pub open spec fn validation_arguments(name: Seq<char>) -> Seq<Seq<char>> {
    seq!["check-ref-format"@, "--branch"@, name]
}

/// The arguments to run `git` with to have a branch name checked.
pub fn git_validation_arguments(name: &str) -> (arguments: Vec<String>)
    ensures
        texts(arguments@) == validation_arguments(name@),
{
    let mut arguments: Vec<String> = Vec::new();
    arguments.push(String::from_str("check-ref-format"));
    arguments.push(String::from_str("--branch"));
    arguments.push(String::from_str(name));
    arguments
}

/// The arguments to run `git` with for a call of the backend.
pub fn git_arguments(call: &BackendCall) -> (arguments: Vec<String>)
    ensures
        texts(arguments@) == call_arguments(*call),
{
    let mut arguments: Vec<String> = Vec::new();
    match call {
        BackendCall::Checkout(name) => {
            arguments.push(String::from_str("checkout"));
            arguments.push(name.clone());
        },
        BackendCall::Create(name) => {
            arguments.push(String::from_str("checkout"));
            arguments.push(String::from_str("-b"));
            arguments.push(name.clone());
        },
        BackendCall::Delete(name) => {
            arguments.push(String::from_str("branch"));
            arguments.push(String::from_str("-D"));
            arguments.push(name.clone());
        },
    }
    arguments
}

/// What a run of `git` comes to once it has ended and what it printed has
/// been decoded: `success` says whether it reported success, `stdout` and
/// `stderr` hold what it printed or, where that is not UTF-8, the decoder's
/// complaint. The run has failed if it did not report success and wrote a
/// reason to `stderr`; else it yields what it wrote to `stdout`. Output that
/// is not UTF-8 is an error of its own, and `stderr` is looked at first.
pub open spec fn judged_output(
    success: bool,
    stdout: Result<String, String>,
    stderr: Result<String, String>,
) -> Result<String, Error> {
    match stderr {
        Err(complaint) => Err(Error::ParsingError(complaint)),
        Ok(reason) => if !success && reason@.len() > 0 {
            Err(Error::Git(reason))
        } else {
            match stdout {
                Ok(content) => Ok(content),
                Err(complaint) => Err(Error::ParsingError(complaint)),
            }
        },
    }
}

/// Judges a run of `git` that has ended, given what it printed as decoded
/// text.
pub fn judge_output(
    success: bool,
    stdout: Result<String, String>,
    stderr: Result<String, String>,
) -> (result: Result<String, Error>)
    ensures
        result == judged_output(success, stdout, stderr),
{
    match stderr {
        Err(complaint) => Err(Error::ParsingError(complaint)),
        Ok(reason) => {
            if !success && reason.as_str().unicode_len() > 0 {
                Err(Error::Git(reason))
            } else {
                match stdout {
                    Ok(content) => Ok(content),
                    Err(complaint) => Err(Error::ParsingError(complaint)),
                }
            }
        },
    }
}

/// What a run of `git` comes to once it has ended: `success` says whether it
/// reported success, `stdout` and `stderr` hold the bytes it printed.
pub open spec fn command_outcome(success: bool, stdout: Seq<u8>, stderr: Seq<u8>) -> CommandOutcome {
    if !valid_utf8(stderr) {
        CommandOutcome::Unreadable
    } else if !success && decode_utf8(stderr).len() > 0 {
        CommandOutcome::Failed(decode_utf8(stderr))
    } else if !valid_utf8(stdout) {
        CommandOutcome::Unreadable
    } else {
        CommandOutcome::Printed(decode_utf8(stdout))
    }
}

/// The ways in which a run of `git` can end.
pub enum CommandOutcome {
    /// It printed this text and did not fail.
    Printed(Seq<char>),
    /// It failed and gave this reason.
    Failed(Seq<char>),
    /// What it printed is not UTF-8.
    Unreadable,
}

/// Judges a run of `git` that has ended. The run has failed if it did not
/// report success and wrote a reason to `stderr`, and the reason is handed
/// back; else what it wrote to `stdout` is handed back. Output that is not
/// UTF-8 is an error of its own, and `stderr` is looked at first.
pub fn command_output(success: bool, stdout: Vec<u8>, stderr: Vec<u8>) -> (result: Result<
    String,
    Error,
>)
    ensures
        match command_outcome(success, stdout@, stderr@) {
            CommandOutcome::Printed(text) => result matches Ok(content) && content@ == text,
            CommandOutcome::Failed(reason) => result matches Err(Error::Git(given)) && given@
                == reason,
            CommandOutcome::Unreadable => result matches Err(Error::ParsingError(_)),
        },
{
    let printed = decode(stdout);
    let complaint = decode(stderr);
    judge_output(success, printed, complaint)
}

} // verus!
