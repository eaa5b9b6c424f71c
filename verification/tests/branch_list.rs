use git_branches::action::{Action, KeyCode, KeyEvent, KeyModifiers};
use git_branches::components::branch_list::branch_input::{is_acceptable_name, judge_name, name_is_listed, BranchInput};
use git_branches::components::branch_list::branch_item::BranchItem;
use git_branches::components::branch_list::sorting::sort_rows;
use git_branches::components::branch_list::request::{BackendCall, Request};
use git_branches::components::branch_list::state::{ErrorTooTall, Height, Part, Section};
use git_branches::components::branch_list::{BranchList, Mode};
use git_branches::error::Error;
use git_branches::git::git_wrapper::GitBranch;

fn branch(name: &str, is_head: bool) -> GitBranch {
    GitBranch { name: String::from(name), is_head, upstream: None }
}

fn list_of(branches: Vec<GitBranch>) -> BranchList {
    let mut list = BranchList::default();
    list.load(branches);
    list
}

fn names(list: &BranchList) -> Vec<String> {
    list.branches().iter().map(|item| item.branch.name.clone()).collect()
}

fn heads(list: &BranchList) -> Vec<String> {
    list.branches()
        .iter()
        .filter(|item| item.branch.is_head)
        .map(|item| item.branch.name.clone())
        .collect()
}

fn staged(list: &BranchList) -> Vec<String> {
    list.branches()
        .iter()
        .filter(|item| item.staged_for_deletion)
        .map(|item| item.branch.name.clone())
        .collect()
}

fn failure(reason: &str) -> Result<(), Error> {
    Err(Error::Git(String::from(reason)))
}

fn plain(code: KeyCode) -> KeyEvent {
    KeyEvent::new(code, KeyModifiers::Plain)
}

fn run(list: &mut BranchList, action: Action, answers: Vec<Result<(), Error>>) -> Vec<BackendCall> {
    let mut calls = Vec::new();
    let mut answers = answers.into_iter();
    let mut pending = Some(action);
    while let Some(action) = pending {
        let step = list.update(action);
        let mut request = step.request;
        while let Some(current) = request {
            calls.push(current.call());
            let answer = answers.next().expect("an answer for each call");
            request = list.resolve(current, answer);
        }
        pending = step.action;
    }
    assert!(answers.next().is_none());
    calls
}

fn type_text(list: &mut BranchList, text: &str) {
    for c in text.chars() {
        let action = list.handle_key_events(plain(KeyCode::Char(c)));
        assert_eq!(action, Some(Action::UpdateNewBranchName(plain(KeyCode::Char(c)))));
        let calls = run(list, action.unwrap(), Vec::new());
        assert!(calls.is_empty());
    }
}

#[test]
fn default_list_is_empty_and_browsed() {
    let list = BranchList::default();
    assert!(list.branches().is_empty());
    assert_eq!(list.selected_index(), 0);
    assert_eq!(list.mode(), Mode::Selection);
    assert_eq!(*list.error(), None);
    assert_eq!(list.branch_input().input_state.value, None);
    assert_eq!(list.branch_input().input_state.is_valid, None);
    assert!(list.get_selected_branch().is_none());
}

#[test]
fn load_replaces_rows_and_resets_cursor() {
    let mut list = list_of(vec![branch("a", false), branch("b", true), branch("c", false)]);
    list.select_next();
    list.select_next();
    assert_eq!(list.selected_index(), 2);
    list.load(vec![branch("x", true), branch("y", false)]);
    assert_eq!(names(&list), vec!["x", "y"]);
    assert_eq!(list.selected_index(), 0);
    assert!(list.branches().iter().all(|item| !item.staged_for_deletion));
    assert!(list.branches().iter().all(|item| !item.staged_for_creation));
    assert!(list.branches().iter().all(|item| item.is_valid_name));
    assert_eq!(heads(&list), vec!["x"]);
}

#[test]
fn select_next_wraps_from_last_to_first() {
    let mut list = list_of(vec![branch("a", true), branch("b", false), branch("c", false)]);
    list.select_next();
    assert_eq!(list.selected_index(), 1);
    list.select_next();
    assert_eq!(list.selected_index(), 2);
    list.select_next();
    assert_eq!(list.selected_index(), 0);
}

#[test]
fn select_previous_wraps_from_first_to_last() {
    let mut list = list_of(vec![branch("a", true), branch("b", false), branch("c", false)]);
    list.select_previous();
    assert_eq!(list.selected_index(), 2);
    list.select_previous();
    assert_eq!(list.selected_index(), 1);
    list.select_previous();
    assert_eq!(list.selected_index(), 0);
}

#[test]
fn selection_stays_in_range_over_any_walk() {
    let mut list = list_of(vec![branch("a", true), branch("b", false), branch("c", false), branch("d", false)]);
    let walk = [true, true, false, true, true, true, true, false, false, false, false, false, true];
    for down in walk {
        if down {
            list.select_next();
        } else {
            list.select_previous();
        }
        assert!(list.selected_index() < 4);
    }
    assert_eq!(list.selected_index(), 1);
}

#[test]
fn selection_on_single_row_stays() {
    let mut list = list_of(vec![branch("only", true)]);
    list.select_next();
    assert_eq!(list.selected_index(), 0);
    list.select_previous();
    assert_eq!(list.selected_index(), 0);
}

#[test]
fn selection_on_empty_list_is_a_no_op() {
    let mut list = BranchList::default();
    list.select_next();
    assert_eq!(list.selected_index(), 0);
    list.select_previous();
    assert_eq!(list.selected_index(), 0);
    assert!(list.get_selected_branch().is_none());
}

#[test]
fn staging_the_head_is_refused() {
    let mut list = list_of(vec![branch("main", true), branch("b", false)]);
    list.stage_selected_for_deletion(true);
    assert!(!list.branches()[0].staged_for_deletion);
    list.stage_selected_for_deletion(false);
    assert!(!list.branches()[0].staged_for_deletion);
    assert!(staged(&list).is_empty());
}

#[test]
fn stage_then_unstage_restores_the_row() {
    let mut list = list_of(vec![branch("main", true), branch("b", false)]);
    list.select_next();
    assert!(!list.branches()[1].staged_for_deletion);
    list.stage_selected_for_deletion(true);
    assert!(list.branches()[1].staged_for_deletion);
    list.stage_selected_for_deletion(false);
    assert!(!list.branches()[1].staged_for_deletion);
    assert_eq!(names(&list), vec!["main", "b"]);
    assert_eq!(list.selected_index(), 1);
}

#[test]
fn staging_on_empty_list_does_nothing() {
    let mut list = BranchList::default();
    list.stage_selected_for_deletion(true);
    assert!(list.branches().is_empty());
}

#[test]
fn checkout_moves_the_head() {
    let mut list = list_of(vec![branch("a", true), branch("b", false), branch("c", false)]);
    list.select_next();
    let result = list.checkout_selected(Ok(()));
    assert_eq!(result, Ok(()));
    assert_eq!(heads(&list), vec!["b"]);
    assert_eq!(list.selected_index(), 1);
}

#[test]
fn checkout_failure_leaves_the_list() {
    let mut list = list_of(vec![branch("a", true), branch("b", false)]);
    list.select_next();
    let result = list.checkout_selected(failure("dirty tree"));
    assert_eq!(result, failure("dirty tree"));
    assert_eq!(heads(&list), vec!["a"]);
}

#[test]
fn checkout_of_a_staged_branch_unstages_it() {
    let mut list = list_of(vec![branch("a", true), branch("b", false)]);
    list.select_next();
    list.stage_selected_for_deletion(true);
    assert_eq!(staged(&list), vec!["b"]);
    assert_eq!(list.checkout_selected(Ok(())), Ok(()));
    assert_eq!(heads(&list), vec!["b"]);
    assert!(staged(&list).is_empty());
}

#[test]
fn checkout_on_empty_list_ignores_the_answer() {
    let mut list = BranchList::default();
    assert_eq!(list.checkout_selected(failure("unused")), Ok(()));
    assert!(list.branches().is_empty());
}

#[test]
fn delete_selected_removes_the_row_and_keeps_the_cursor() {
    let mut list = list_of(vec![branch("A", true), branch("B", false), branch("C", false)]);
    list.select_next();
    assert_eq!(list.deleted_selected(Ok(())), Ok(()));
    assert_eq!(names(&list), vec!["A", "C"]);
    assert_eq!(heads(&list), vec!["A"]);
    assert_eq!(list.selected_index(), 1);
    assert_eq!(list.get_selected_branch().unwrap().branch.name, "C");
}

#[test]
fn delete_selected_last_row_moves_the_cursor_up() {
    let mut list = list_of(vec![branch("A", true), branch("B", false), branch("C", false)]);
    list.select_previous();
    assert_eq!(list.selected_index(), 2);
    assert_eq!(list.deleted_selected(Ok(())), Ok(()));
    assert_eq!(names(&list), vec!["A", "B"]);
    assert_eq!(list.selected_index(), 1);
}

#[test]
fn delete_selected_failure_can_be_retried() {
    let mut list = list_of(vec![branch("A", true), branch("B", false)]);
    list.select_next();
    assert_eq!(list.deleted_selected(failure("not merged")), failure("not merged"));
    assert_eq!(names(&list), vec!["A", "B"]);
    assert_eq!(list.selected_index(), 1);
    assert_eq!(list.deleted_selected(Ok(())), Ok(()));
    assert_eq!(names(&list), vec!["A"]);
    assert_eq!(list.selected_index(), 0);
}

#[test]
fn delete_selected_only_row_empties_the_list() {
    let mut list = list_of(vec![branch("A", false)]);
    assert_eq!(list.deleted_selected(Ok(())), Ok(()));
    assert!(list.branches().is_empty());
    assert_eq!(list.selected_index(), 0);
    assert!(list.get_selected_branch().is_none());
    assert_eq!(list.deleted_selected(failure("unused")), Ok(()));
}

#[test]
fn delete_staged_partial_failure() {
    let mut list = list_of(vec![branch("A", false), branch("B", false), branch("C", false), branch("main", true)]);
    list.stage_selected_for_deletion(true);
    list.select_next();
    list.select_next();
    list.stage_selected_for_deletion(true);
    assert_eq!(staged(&list), vec!["A", "C"]);
    let result = list.delete_staged_branches(vec![failure("A is not merged"), Ok(())]);
    assert_eq!(result, failure("A is not merged"));
    assert_eq!(names(&list), vec!["A", "B", "main"]);
    assert_eq!(staged(&list), vec!["A"]);
    assert!(!list.branches()[1].staged_for_deletion);
    assert_eq!(list.branches()[1].branch.name, "B");
    assert_eq!(list.selected_index(), 2);
}

#[test]
fn delete_staged_all_succeed() {
    let mut list = list_of(vec![branch("a", false), branch("b", true), branch("c", false), branch("d", false)]);
    list.stage_selected_for_deletion(true);
    list.select_previous();
    list.stage_selected_for_deletion(true);
    list.select_previous();
    list.stage_selected_for_deletion(true);
    assert_eq!(staged(&list), vec!["a", "c", "d"]);
    assert_eq!(list.selected_index(), 2);
    assert_eq!(list.delete_staged_branches(vec![Ok(()), Ok(()), Ok(())]), Ok(()));
    assert_eq!(names(&list), vec!["b"]);
    assert_eq!(list.selected_index(), 0);
    assert_eq!(heads(&list), vec!["b"]);
}

#[test]
fn delete_staged_reports_the_last_failure() {
    let mut list = list_of(vec![branch("a", false), branch("b", false), branch("c", false)]);
    list.stage_selected_for_deletion(true);
    list.select_next();
    list.stage_selected_for_deletion(true);
    list.select_next();
    list.stage_selected_for_deletion(true);
    let result = list.delete_staged_branches(vec![failure("first"), Ok(()), failure("last")]);
    assert_eq!(result, failure("last"));
    assert_eq!(names(&list), vec!["a", "c"]);
    assert_eq!(staged(&list), vec!["a", "c"]);
    assert_eq!(list.selected_index(), 1);
}

#[test]
fn delete_staged_without_answers_keeps_everything() {
    let mut list = list_of(vec![branch("a", false), branch("b", false)]);
    list.stage_selected_for_deletion(true);
    assert_eq!(list.delete_staged_branches(Vec::new()), Ok(()));
    assert_eq!(names(&list), vec!["a", "b"]);
    assert_eq!(staged(&list), vec!["a"]);
}

#[test]
fn delete_staged_can_empty_the_list() {
    let mut list = list_of(vec![branch("a", false)]);
    list.stage_selected_for_deletion(true);
    assert_eq!(list.delete_staged_branches(vec![Ok(())]), Ok(()));
    assert!(list.branches().is_empty());
    assert_eq!(list.selected_index(), 0);
    assert!(list.get_selected_branch().is_none());
}

#[test]
fn create_branch_inserts_sorted_and_checks_out() {
    let mut list = list_of(vec![branch("alpha", true), branch("main", false), branch("zeta", false)]);
    let result = list.create_branch(String::from("feature-x"), Ok(()), Ok(()));
    assert_eq!(result, Ok(()));
    assert_eq!(names(&list), vec!["alpha", "feature-x", "main", "zeta"]);
    assert_eq!(heads(&list), vec!["feature-x"]);
    assert_eq!(list.selected_index(), 1);
    let item = list.get_selected_branch().unwrap();
    assert_eq!(item.branch.name, "feature-x");
    assert!(item.branch.is_head);
    assert!(!item.staged_for_deletion);
    assert!(!item.staged_for_creation);
    assert!(item.is_valid_name);
    assert_eq!(item.branch.upstream, None);
    let count = list.branches().iter().filter(|item| item.branch.name == "feature-x").count();
    assert_eq!(count, 1);
}

#[test]
fn create_branch_sorts_the_whole_list() {
    let mut list = list_of(vec![branch("zeta", true), branch("main", false), branch("Beta", false)]);
    assert_eq!(list.create_branch(String::from("alpha"), Ok(()), Ok(())), Ok(()));
    assert_eq!(names(&list), vec!["Beta", "alpha", "main", "zeta"]);
    assert_eq!(list.selected_index(), 1);
    assert_eq!(heads(&list), vec!["alpha"]);
}

#[test]
fn create_branch_failure_leaves_the_list() {
    let mut list = list_of(vec![branch("main", true)]);
    let result = list.create_branch(String::from("topic"), failure("no HEAD"), Ok(()));
    assert_eq!(result, failure("no HEAD"));
    assert_eq!(names(&list), vec!["main"]);
    assert_eq!(heads(&list), vec!["main"]);
}

#[test]
fn create_branch_keeps_the_row_when_checkout_fails() {
    let mut list = list_of(vec![branch("main", true), branch("zzz", false)]);
    list.select_next();
    let result = list.create_branch(String::from("topic"), Ok(()), failure("dirty tree"));
    assert_eq!(result, failure("dirty tree"));
    assert_eq!(names(&list), vec!["main", "topic", "zzz"]);
    assert_eq!(heads(&list), vec!["main"]);
    assert_eq!(list.selected_index(), 1);
}

#[test]
fn create_branch_turns_down_bad_names() {
    let mut list = list_of(vec![branch("main", true)]);
    assert_eq!(list.create_branch(String::from(""), Ok(()), Ok(())), Ok(()));
    assert_eq!(list.create_branch(String::from("main"), Ok(()), Ok(())), Ok(()));
    assert_eq!(list.create_branch(String::from("bad..name"), Ok(()), Ok(())), Ok(()));
    assert_eq!(list.create_branch(String::from("with space"), Ok(()), Ok(())), Ok(()));
    assert_eq!(names(&list), vec!["main"]);
    assert_eq!(heads(&list), vec!["main"]);
}

#[test]
fn create_branch_name_match_is_case_sensitive() {
    let mut list = list_of(vec![branch("main", true)]);
    assert_eq!(list.create_branch(String::from("Main"), Ok(()), Ok(())), Ok(()));
    assert_eq!(names(&list), vec!["Main", "main"]);
    assert_eq!(heads(&list), vec!["Main"]);
    assert_eq!(list.selected_index(), 0);
}

#[test]
fn error_is_recorded_and_cleared_by_the_next_key() {
    let mut list = list_of(vec![branch("main", true)]);
    list.maybe_handle_git_error(Ok(()));
    assert_eq!(*list.error(), None);
    list.maybe_handle_git_error(failure("boom"));
    assert_eq!(*list.error(), Some(String::from("Git operation failed: boom")));
    list.maybe_handle_git_error(Ok(()));
    assert_eq!(*list.error(), Some(String::from("Git operation failed: boom")));
    let action = list.handle_key_events(plain(KeyCode::Other));
    assert_eq!(action, None);
    assert_eq!(*list.error(), None);
    list.maybe_handle_git_error(failure("again"));
    list.clear_error();
    assert_eq!(*list.error(), None);
}

#[test]
fn keys_in_selection_mode() {
    let mut list = list_of(vec![branch("main", true), branch("b", false)]);
    let shift = |c: char| KeyEvent::new(KeyCode::Char(c), KeyModifiers::Shift);
    let control = |c: char| KeyEvent::new(KeyCode::Char(c), KeyModifiers::Control);
    assert_eq!(list.handle_key_events(plain(KeyCode::Down)), Some(Action::SelectNextBranch));
    assert_eq!(list.handle_key_events(plain(KeyCode::Up)), Some(Action::SelectPreviousBranch));
    assert_eq!(list.handle_key_events(shift('C')), Some(Action::InitNewBranch));
    assert_eq!(list.handle_key_events(shift('c')), Some(Action::InitNewBranch));
    assert_eq!(list.handle_key_events(plain(KeyCode::Char('c'))), Some(Action::CheckoutSelectedBranch));
    assert_eq!(list.handle_key_events(plain(KeyCode::Char('C'))), Some(Action::CheckoutSelectedBranch));
    assert_eq!(list.handle_key_events(shift('D')), Some(Action::UnstageBranchForDeletion));
    assert_eq!(list.handle_key_events(control('d')), Some(Action::DeleteStagedBranches));
    assert_eq!(list.handle_key_events(plain(KeyCode::Delete)), Some(Action::DeleteBranch));
    assert_eq!(list.handle_key_events(plain(KeyCode::Backspace)), Some(Action::DeleteBranch));
    assert_eq!(list.handle_key_events(plain(KeyCode::Char('d'))), Some(Action::StageBranchForDeletion));
    assert_eq!(list.handle_key_events(plain(KeyCode::Enter)), None);
    assert_eq!(list.handle_key_events(plain(KeyCode::Esc)), None);
    assert_eq!(list.handle_key_events(plain(KeyCode::Char('x'))), None);
    assert_eq!(list.handle_key_events(control('c')), None);
    assert_eq!(list.handle_key_events(KeyEvent::new(KeyCode::Down, KeyModifiers::Shift)), None);
    assert_eq!(list.handle_key_events(KeyEvent::new(KeyCode::Char('d'), KeyModifiers::Other)), None);
    assert_eq!(list.selected_index(), 0);
}

#[test]
fn d_on_a_staged_row_asks_for_its_deletion() {
    let mut list = list_of(vec![branch("main", true), branch("b", false)]);
    list.select_next();
    let action = list.handle_key_events(plain(KeyCode::Char('d')));
    assert_eq!(action, Some(Action::StageBranchForDeletion));
    assert!(run(&mut list, action.unwrap(), Vec::new()).is_empty());
    assert_eq!(staged(&list), vec!["b"]);
    let action = list.handle_key_events(plain(KeyCode::Char('d')));
    assert_eq!(action, Some(Action::DeleteBranch));
    let calls = run(&mut list, action.unwrap(), vec![Ok(())]);
    assert_eq!(calls, vec![BackendCall::Delete(String::from("b"))]);
    assert_eq!(names(&list), vec!["main"]);
    assert_eq!(list.selected_index(), 0);
}

#[test]
fn d_without_a_row_asks_for_nothing() {
    let mut list = BranchList::default();
    assert_eq!(list.handle_key_events(plain(KeyCode::Char('d'))), None);
}

#[test]
fn update_moves_the_cursor() {
    let mut list = list_of(vec![branch("a", true), branch("b", false)]);
    assert!(run(&mut list, Action::SelectNextBranch, Vec::new()).is_empty());
    assert_eq!(list.selected_index(), 1);
    assert!(run(&mut list, Action::SelectPreviousBranch, Vec::new()).is_empty());
    assert_eq!(list.selected_index(), 0);
    assert!(run(&mut list, Action::StartInputMode, Vec::new()).is_empty());
    assert_eq!(list.mode(), Mode::Selection);
}

#[test]
fn update_checkout_asks_the_backend_and_applies_the_answer() {
    let mut list = list_of(vec![branch("a", true), branch("b", false)]);
    list.select_next();
    let step = list.update(Action::CheckoutSelectedBranch);
    assert_eq!(step.action, None);
    assert_eq!(step.request, Some(Request::CheckoutSelected { name: String::from("b") }));
    assert_eq!(heads(&list), vec!["a"]);
    let next = list.resolve(step.request.unwrap(), Ok(()));
    assert_eq!(next, None);
    assert_eq!(heads(&list), vec!["b"]);
    assert_eq!(*list.error(), None);
}

#[test]
fn update_checkout_failure_sets_the_error() {
    let mut list = list_of(vec![branch("a", true), branch("b", false)]);
    list.select_next();
    let calls = run(&mut list, Action::CheckoutSelectedBranch, vec![failure("local changes")]);
    assert_eq!(calls, vec![BackendCall::Checkout(String::from("b"))]);
    assert_eq!(heads(&list), vec!["a"]);
    assert_eq!(*list.error(), Some(String::from("Git operation failed: local changes")));
}

#[test]
fn update_without_a_row_asks_nothing() {
    let mut list = BranchList::default();
    assert!(run(&mut list, Action::CheckoutSelectedBranch, Vec::new()).is_empty());
    assert!(run(&mut list, Action::DeleteBranch, Vec::new()).is_empty());
    assert!(run(&mut list, Action::DeleteStagedBranches, Vec::new()).is_empty());
    assert!(run(&mut list, Action::StageBranchForDeletion, Vec::new()).is_empty());
    assert!(list.branches().is_empty());
    assert_eq!(*list.error(), None);
}

#[test]
fn update_delete_failure_sets_the_error_and_keeps_the_row() {
    let mut list = list_of(vec![branch("a", true), branch("b", false)]);
    list.select_next();
    let calls = run(&mut list, Action::DeleteBranch, vec![failure("not fully merged")]);
    assert_eq!(calls, vec![BackendCall::Delete(String::from("b"))]);
    assert_eq!(names(&list), vec!["a", "b"]);
    assert_eq!(*list.error(), Some(String::from("Git operation failed: not fully merged")));
}

#[test]
fn update_delete_staged_goes_on_after_a_failure() {
    let mut list = list_of(vec![branch("A", false), branch("B", false), branch("C", false), branch("main", true)]);
    run(&mut list, Action::StageBranchForDeletion, Vec::new());
    list.select_next();
    list.select_next();
    run(&mut list, Action::StageBranchForDeletion, Vec::new());
    let calls = run(&mut list, Action::DeleteStagedBranches, vec![failure("A is checked out elsewhere"), Ok(())]);
    assert_eq!(calls, vec![BackendCall::Delete(String::from("A")), BackendCall::Delete(String::from("C"))]);
    assert_eq!(names(&list), vec!["A", "B", "main"]);
    assert_eq!(staged(&list), vec!["A"]);
    assert_eq!(list.selected_index(), 2);
    assert_eq!(*list.error(), Some(String::from("Git operation failed: A is checked out elsewhere")));
}

#[test]
fn update_delete_staged_changes_the_list_only_at_the_end() {
    let mut list = list_of(vec![branch("a", false), branch("b", false), branch("main", true)]);
    list.stage_selected_for_deletion(true);
    list.select_next();
    list.stage_selected_for_deletion(true);
    let step = list.update(Action::DeleteStagedBranches);
    assert_eq!(step.action, None);
    let first = step.request.unwrap();
    assert_eq!(first.call(), BackendCall::Delete(String::from("a")));
    let second = list.resolve(first, Ok(())).unwrap();
    assert_eq!(names(&list), vec!["a", "b", "main"]);
    assert_eq!(second.call(), BackendCall::Delete(String::from("b")));
    assert_eq!(list.resolve(second, Ok(())), None);
    assert_eq!(names(&list), vec!["main"]);
    assert_eq!(list.selected_index(), 0);
    assert_eq!(*list.error(), None);
}

#[test]
fn update_delete_staged_with_nothing_staged_asks_nothing() {
    let mut list = list_of(vec![branch("a", false), branch("main", true)]);
    list.select_next();
    assert!(run(&mut list, Action::DeleteStagedBranches, Vec::new()).is_empty());
    assert_eq!(names(&list), vec!["a", "main"]);
    assert_eq!(list.selected_index(), 1);
}

#[test]
fn naming_a_new_branch_creates_and_checks_it_out() {
    let mut list = list_of(vec![branch("alpha", false), branch("main", true)]);
    let action = list.handle_key_events(KeyEvent::new(KeyCode::Char('C'), KeyModifiers::Shift));
    assert_eq!(action, Some(Action::InitNewBranch));
    let step = list.update(action.unwrap());
    assert_eq!(step.action, Some(Action::StartInputMode));
    assert_eq!(step.request, None);
    assert_eq!(list.mode(), Mode::Input);
    assert_eq!(list.branch_input().input_state.value, Some(String::new()));
    assert_eq!(list.branch_input().input_state.is_valid, None);
    type_text(&mut list, "feature-x");
    assert_eq!(list.branch_input().input_state.value, Some(String::from("feature-x")));
    assert_eq!(list.branch_input().input_state.is_valid, Some(true));
    let action = list.handle_key_events(plain(KeyCode::Enter));
    assert_eq!(action, Some(Action::UpdateNewBranchName(plain(KeyCode::Enter))));
    let step = list.update(action.unwrap());
    assert_eq!(step.action, Some(Action::CreateBranch(String::from("feature-x"))));
    assert_eq!(step.request, None);
    assert_eq!(list.mode(), Mode::Input);
    let calls = run(&mut list, step.action.unwrap(), vec![Ok(()), Ok(())]);
    assert_eq!(
        calls,
        vec![BackendCall::Create(String::from("feature-x")), BackendCall::Checkout(String::from("feature-x"))]
    );
    assert_eq!(list.mode(), Mode::Selection);
    assert_eq!(names(&list), vec!["alpha", "feature-x", "main"]);
    assert_eq!(heads(&list), vec!["feature-x"]);
    assert_eq!(list.selected_index(), 1);
    assert_eq!(*list.error(), None);
}

#[test]
fn creation_is_not_followed_by_checkout_when_it_fails() {
    let mut list = list_of(vec![branch("main", true)]);
    let calls = run(&mut list, Action::CreateBranch(String::from("topic")), vec![failure("locked")]);
    assert_eq!(calls, vec![BackendCall::Create(String::from("topic"))]);
    assert_eq!(names(&list), vec!["main"]);
    assert_eq!(list.mode(), Mode::Selection);
    assert_eq!(*list.error(), Some(String::from("Git operation failed: locked")));
}

#[test]
fn checkout_failure_after_creation_keeps_the_new_row() {
    let mut list = list_of(vec![branch("main", true)]);
    let calls = run(
        &mut list,
        Action::CreateBranch(String::from("topic")),
        vec![Ok(()), failure("would overwrite")],
    );
    assert_eq!(calls.len(), 2);
    assert_eq!(names(&list), vec!["main", "topic"]);
    assert_eq!(heads(&list), vec!["main"]);
    assert_eq!(*list.error(), Some(String::from("Git operation failed: would overwrite")));
}

#[test]
fn update_create_with_a_bad_name_is_passed_over() {
    let mut list = list_of(vec![branch("main", true)]);
    list.update(Action::InitNewBranch);
    let step = list.update(Action::CreateBranch(String::from("main")));
    assert_eq!(step.action, None);
    assert_eq!(step.request, None);
    assert_eq!(list.mode(), Mode::Input);
    let step = list.update(Action::CreateBranch(String::new()));
    assert_eq!(step.action, None);
    assert_eq!(step.request, None);
    let step = list.update(Action::CreateBranch(String::from("a..b")));
    assert_eq!(step.request, None);
    assert_eq!(names(&list), vec!["main"]);
    assert_eq!(*list.error(), None);
}

#[test]
fn duplicate_draft_is_invalid_and_cannot_be_submitted() {
    let mut list = list_of(vec![branch("A", true), branch("B", false)]);
    list.update(Action::InitNewBranch);
    type_text(&mut list, "A");
    assert_eq!(list.branch_input().input_state.value, Some(String::from("A")));
    assert_eq!(list.branch_input().input_state.is_valid, Some(false));
    let action = list.handle_key_events(plain(KeyCode::Enter));
    let calls = run(&mut list, action.unwrap(), Vec::new());
    assert!(calls.is_empty());
    assert_eq!(names(&list), vec!["A", "B"]);
    assert_eq!(heads(&list), vec!["A"]);
    assert_eq!(list.mode(), Mode::Input);
    assert_eq!(*list.error(), None);
    type_text(&mut list, "b");
    assert_eq!(list.branch_input().input_state.is_valid, Some(true));
}

#[test]
fn empty_draft_cannot_be_submitted() {
    let mut list = list_of(vec![branch("main", true)]);
    list.update(Action::InitNewBranch);
    let step = list.update(Action::UpdateNewBranchName(plain(KeyCode::Enter)));
    assert_eq!(step.action, None);
    assert_eq!(step.request, None);
    assert_eq!(list.mode(), Mode::Input);
}

#[test]
fn escape_cancels_the_input() {
    let mut list = list_of(vec![branch("main", true)]);
    list.update(Action::InitNewBranch);
    type_text(&mut list, "top");
    let action = list.handle_key_events(plain(KeyCode::Esc));
    let step = list.update(action.unwrap());
    assert_eq!(step.action, Some(Action::EndInputMod));
    assert_eq!(step.request, None);
    assert_eq!(list.branch_input().input_state.value, None);
    assert_eq!(list.branch_input().input_state.is_valid, None);
    let step = list.update(step.action.unwrap());
    assert_eq!(step.action, None);
    assert_eq!(list.mode(), Mode::Selection);
    assert_eq!(names(&list), vec!["main"]);
}

#[test]
fn malformed_draft_is_invalid() {
    let mut list = list_of(vec![branch("main", true)]);
    list.update(Action::InitNewBranch);
    type_text(&mut list, "a");
    assert_eq!(list.branch_input().input_state.is_valid, Some(true));
    type_text(&mut list, ".");
    type_text(&mut list, ".");
    assert_eq!(list.branch_input().input_state.value, Some(String::from("a..")));
    assert_eq!(list.branch_input().input_state.is_valid, Some(false));
}

#[test]
fn control_characters_are_not_typed() {
    let mut list = list_of(vec![branch("main", true)]);
    list.update(Action::InitNewBranch);
    let key = KeyEvent::new(KeyCode::Char('d'), KeyModifiers::Control);
    let step = list.update(Action::UpdateNewBranchName(key));
    assert_eq!(step.action, None);
    assert_eq!(list.branch_input().input_state.value, Some(String::new()));
    let key = KeyEvent::new(KeyCode::Char('X'), KeyModifiers::Shift);
    list.update(Action::UpdateNewBranchName(key));
    assert_eq!(list.branch_input().input_state.value, Some(String::from("X")));
    list.update(Action::UpdateNewBranchName(plain(KeyCode::Backspace)));
    assert_eq!(list.branch_input().input_state.value, Some(String::from("X")));
}

#[test]
fn rows_shown_while_browsing() {
    let mut list = list_of(vec![branch("b", true), branch("a", false)]);
    list.select_next();
    let (rows, highlight) = list.render_list();
    assert_eq!(rows, *list.branches());
    assert_eq!(highlight, Some(1));
    list.update(Action::InitNewBranch);
    list.update(Action::UpdateNewBranchName(plain(KeyCode::Esc)));
    let (rows, highlight) = list.render_list();
    assert_eq!(rows.len(), 2);
    assert_eq!(highlight, Some(1));
}

#[test]
fn draft_is_shown_among_the_rows() {
    let mut list = list_of(vec![branch("alpha", true), branch("main", false)]);
    list.update(Action::InitNewBranch);
    let (rows, highlight) = list.render_list();
    let shown: Vec<&str> = rows.iter().map(|row| row.branch.name.as_str()).collect();
    assert_eq!(shown, vec!["", "alpha", "main"]);
    assert_eq!(highlight, Some(0));
    assert!(rows[0].staged_for_creation);
    assert!(!rows[0].is_valid_name);
    type_text(&mut list, "beta");
    let (rows, highlight) = list.render_list();
    let shown: Vec<&str> = rows.iter().map(|row| row.branch.name.as_str()).collect();
    assert_eq!(shown, vec!["alpha", "beta", "main"]);
    assert_eq!(highlight, Some(1));
    let draft = &rows[1];
    assert!(draft.staged_for_creation);
    assert!(!draft.staged_for_deletion);
    assert!(draft.is_valid_name);
    assert!(!draft.branch.is_head);
    assert_eq!(draft.branch.upstream, None);
    assert!(rows[0].branch.is_head);
    assert_eq!(names(&list), vec!["alpha", "main"]);
    type_text(&mut list, "..");
    let (rows, highlight) = list.render_list();
    assert_eq!(highlight, Some(1));
    assert!(!rows[1].is_valid_name);
}

#[test]
fn layout_while_browsing() {
    let mut list = list_of(vec![branch("main", true)]);
    let list_part = Section { part: Part::List, height: Height::Fill(1) };
    let footer = Section { part: Part::Footer, height: Height::Length(1) };
    assert_eq!(list.draw(), Ok(vec![list_part, footer]));
    list.maybe_handle_git_error(failure("one\ntwo\n"));
    let error = Section { part: Part::Error, height: Height::Length(4) };
    assert_eq!(list.draw(), Ok(vec![list_part, error, footer]));
    list.maybe_handle_git_error(Err(Error::ParsingError(String::from("  \n "))));
    let error = Section { part: Part::Error, height: Height::Length(2) };
    assert_eq!(list.draw(), Ok(vec![list_part, error, footer]));
    list.update(Action::InitNewBranch);
    let input = Section { part: Part::Input, height: Height::Length(3) };
    assert_eq!(list.draw(), Ok(vec![list_part, input, footer]));
}

#[test]
fn layout_refuses_an_error_of_too_many_lines() {
    let mut list = BranchList::default();
    list.maybe_handle_git_error(Err(Error::ParsingError("x\n".repeat(65533))));
    let sections = list.draw().unwrap();
    assert_eq!(sections[1], Section { part: Part::Error, height: Height::Length(65535) });
    list.maybe_handle_git_error(Err(Error::ParsingError("x\n".repeat(65534))));
    assert_eq!(list.draw(), Err(ErrorTooTall));
}

#[test]
fn staged_names_in_row_order() {
    let mut list = list_of(vec![branch("a", false), branch("b", false), branch("c", false)]);
    assert!(list.staged_branch_names().is_empty());
    list.select_previous();
    list.stage_selected_for_deletion(true);
    list.select_next();
    list.stage_selected_for_deletion(true);
    assert_eq!(list.staged_branch_names(), vec!["a", "c"]);
}

fn rows(names: &[&str]) -> Vec<BranchItem> {
    names.iter().map(|name| BranchItem::new(branch(name, false), true)).collect()
}

#[test]
fn names_are_judged() {
    let items = rows(&["main", "dev"]);
    assert!(judge_name(&items, &String::from("topic"), true));
    assert!(!judge_name(&items, &String::from("topic"), false));
    assert!(!judge_name(&items, &String::from("main"), true));
    assert!(!judge_name(&items, &String::new(), true));
    assert!(is_acceptable_name(&items, &String::from("topic")));
    assert!(!is_acceptable_name(&items, &String::from("dev")));
    assert!(!is_acceptable_name(&items, &String::from("to pic")));
    assert!(!is_acceptable_name(&items, &String::new()));
    assert!(name_is_listed(&items, &String::from("dev")));
    assert!(!name_is_listed(&items, &String::from("Dev")));
}

#[test]
fn item_marks() {
    let mut item = BranchItem::new(branch("topic", false), true);
    assert!(!item.staged_for_deletion);
    assert!(!item.staged_for_creation);
    assert!(item.is_valid_name);
    item.stage_for_deletion(true);
    assert!(item.staged_for_deletion);
    item.mark_checked_out(&String::from("other"));
    assert!(!item.branch.is_head);
    assert!(item.staged_for_deletion);
    item.mark_checked_out(&String::from("topic"));
    assert!(item.branch.is_head);
    assert!(!item.staged_for_deletion);
    item.stage_for_deletion(true);
    assert!(!item.staged_for_deletion);
    assert_eq!(item.clone(), item);
}

#[test]
fn rows_are_sorted_by_name_and_stably() {
    let mut items = rows(&["b", "a", "C", "a", "", "ab"]);
    items[1].staged_for_deletion = true;
    sort_rows(&mut items);
    let sorted: Vec<&str> = items.iter().map(|item| item.branch.name.as_str()).collect();
    assert_eq!(sorted, vec!["", "C", "a", "a", "ab", "b"]);
    assert!(items[2].staged_for_deletion);
    assert!(!items[3].staged_for_deletion);
    let mut none: Vec<BranchItem> = Vec::new();
    sort_rows(&mut none);
    assert!(none.is_empty());
}

#[test]
fn input_box_alone() {
    let mut input = BranchInput::new();
    assert_eq!(input.input_state.value, None);
    let items = rows(&["main"]);
    let typed = input.handle_key_event(plain(KeyCode::Char('m')), &items);
    assert_eq!(typed, None);
    assert_eq!(input.input_state.value, Some(String::from("m")));
    assert_eq!(input.input_state.is_valid, Some(true));
    assert_eq!(
        input.handle_key_event(plain(KeyCode::Enter), &items),
        Some(Action::CreateBranch(String::from("m")))
    );
    input.init();
    assert_eq!(input.input_state.value, Some(String::new()));
    assert_eq!(input.input_state.is_valid, None);
    assert_eq!(input.handle_key_event(plain(KeyCode::Enter), &items), None);
    assert_eq!(input.handle_key_event(plain(KeyCode::Esc), &items), Some(Action::EndInputMod));
    assert_eq!(input.input_state.value, None);
}

#[test]
fn asking_what_a_key_does_changes_nothing() {
    let mut list = list_of(vec![branch("main", true), branch("b", false)]);
    list.maybe_handle_git_error(failure("kept"));
    assert_eq!(list.action_for_key(plain(KeyCode::Down)), Some(Action::SelectNextBranch));
    assert_eq!(list.action_for_key(plain(KeyCode::Char('d'))), Some(Action::StageBranchForDeletion));
    assert_eq!(list.action_for_key(plain(KeyCode::Enter)), None);
    assert_eq!(*list.error(), Some(String::from("Git operation failed: kept")));
    assert_eq!(list.selected_index(), 0);
    list.update(Action::InitNewBranch);
    assert_eq!(
        list.action_for_key(plain(KeyCode::Enter)),
        Some(Action::UpdateNewBranchName(plain(KeyCode::Enter)))
    );
}
