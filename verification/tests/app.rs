use perch::app::{aborted_rebase_hint, go_there_argument, reconcile_hint, shell_quote};

#[test]
fn reconcile_hint_names_both_ways_out() {
    assert_eq!(
        reconcile_hint("origin/main"),
        "Run `git rebase -- origin/main` or `git merge -- origin/main` to reconcile."
    );
}

#[test]
fn aborted_rebase_hint_points_back_at_the_upstream() {
    assert_eq!(
        aborted_rebase_hint("origin/main"),
        "Rebase aborted due to conflicts. Run `git rebase -- origin/main` manually to reconcile."
    );
}

#[test]
fn the_reconcile_hints_quote_a_ref_that_could_run_as_a_command() {
    let remote_ref = "origin/topic$(touch${IFS}/tmp/pwned)";
    assert_eq!(
        reconcile_hint(remote_ref),
        "Run `git rebase -- 'origin/topic$(touch${IFS}/tmp/pwned)'` \
         or `git merge -- 'origin/topic$(touch${IFS}/tmp/pwned)'` to reconcile."
    );
    assert_eq!(
        aborted_rebase_hint(remote_ref),
        "Rebase aborted due to conflicts. \
         Run `git rebase -- 'origin/topic$(touch${IFS}/tmp/pwned)'` manually to reconcile."
    );
}

#[test]
fn shell_quote_leaves_an_ordinary_branch_name_bare() {
    assert_eq!(shell_quote("feature/login-2"), "feature/login-2");
}

#[test]
fn shell_quote_wraps_anything_a_shell_would_interpret() {
    assert_eq!(shell_quote("topic;ls"), "'topic;ls'");
    assert_eq!(shell_quote("topic&&ls"), "'topic&&ls'");
    assert_eq!(shell_quote("a b"), "'a b'");
    assert_eq!(shell_quote(""), "''");
}

#[test]
fn shell_quote_handles_a_quote_in_the_name() {
    assert_eq!(shell_quote("it's"), r"'it'\''s'");
}

#[test]
fn an_ordinary_branch_is_named_to_perch_bare() {
    assert_eq!(go_there_argument("feature"), "feature");
}

#[test]
fn a_branch_named_after_a_verb_is_escaped_past_the_dispatcher() {
    assert_eq!(go_there_argument("br"), "-- br");
    assert_eq!(go_there_argument("wt"), "-- wt");
}

#[test]
fn an_escaped_branch_is_still_shell_quoted() {
    assert_eq!(go_there_argument("a b"), "'a b'");
}
