//! Going to a branch: what is checked out, and where anything is changed.
use vstd::prelude::*;
use vstd::string::*;

use crate::app::catalogue::live_worktrees_spec;
use crate::app::prefetch::{fetch_unless_covered_spec, FetchedRemote};
use crate::app::prompts::{confirm_keys, confirm_spec};
use crate::app::removal::prompt_delete_stale_branches_spec;
use crate::app::reports::report_fetch_failure_spec;
use crate::app::update::{fetch_and_ff_spec, rebase_onto_spec};
use crate::app::verbs::{
    go_to_spec, held_elsewhere_spec, in_place_spec, sweep_and_hand_off_spec,
    switch_and_update_spec, update_here_spec,
};
use crate::ask::{args3, args5};
use crate::error::Meant;
use crate::git::worktrees::Tree;
use crate::git::{self, FetchOutcome};
use crate::grammar::Verb;
use crate::talk::{Answer, Asked, Progress};

use super::sweeping::{
    a_handoff_never_offers_where_it_leads, prints_only, rows_respect, shows,
    the_prompt_leaves_out_what_is_entered, the_prompt_only_reads_and_removes,
};
use super::updating::a_fast_forward_keeps_to_its_directory;
use super::{command_of, git_args, git_dir, lemma_spelled, runs_command, runs_words, went_well};

verus! {

/// Whether a command changes what is checked out or moves the branch that is.
pub open spec fn moves_head(command: Seq<char>) -> bool {
    ||| command == "checkout"@
    ||| command == "merge"@
    ||| command == "rebase"@
    ||| command == "reset"@
    ||| command == "stash"@
}

/// Whether the next request, if it changes what is checked out or moves the
/// branch that is, or fetches, does so in `dir`.
pub open spec fn moves_only_in<T>(progress: Progress<T>, dir: Option<Seq<char>>) -> bool {
    progress matches Progress::Waiting(request) ==> request is Git && (moves_head(
        command_of(git_args(request)),
    ) || command_of(git_args(request)) == "fetch"@) ==> git_dir(request) == dir
}

pub broadcast proof fn lemma_confirm_keys_run_nothing(rest: Seq<Answer>, default_yes: bool)
    ensures
        #[trigger] confirm_keys(rest, default_yes) matches Progress::Waiting(request)
            ==> request is ReadKey || request is Tell,
    decreases rest.len(),
{
    if rest.len() > 0 {
        lemma_confirm_keys_run_nothing(rest.drop_first(), default_yes);
    }
}

pub broadcast proof fn lemma_confirm_runs_nothing(
    rest: Seq<Answer>,
    question: Seq<char>,
    default_yes: bool,
)
    ensures
        #[trigger] confirm_spec(rest, question, default_yes) matches Progress::Waiting(request)
            ==> !(request is Git) && !(request is PickRows) && !(request is Print),
{
    broadcast use lemma_confirm_keys_run_nothing;

}

pub broadcast proof fn lemma_fetch_failure_is_told(
    rest: Seq<Answer>,
    outcome: FetchOutcome<Seq<char>>,
)
    ensures
        #[trigger] report_fetch_failure_spec(rest, outcome) matches Progress::Waiting(request)
            ==> request is Tell,
{
    broadcast use crate::app::reports::lemma_indented_only_tells;

}

/// What a fetch that may be spared asks for.
pub broadcast proof fn lemma_fetch_requests(
    rest: Seq<Answer>,
    dir: Option<Seq<char>>,
    remote: Seq<char>,
    fetched: Option<FetchedRemote<Seq<char>>>,
)
    ensures
        #[trigger] fetch_unless_covered_spec(rest, dir, remote, fetched) matches Progress::Waiting(
            request,
        ) ==> (request is Git ==> command_of(git_args(request)) == "remote"@ || command_of(
            git_args(request),
        ) == "config"@ || command_of(git_args(request)) == "fetch"@ && git_dir(request) == dir) && !(
        request is PickRows) && !(request is Print),
{
    lemma_spelled();
}

/// What fetching and fast-forwarding asks for.
pub broadcast proof fn lemma_fetch_and_ff_requests(
    rest: Seq<Answer>,
    dir: Option<Seq<char>>,
    branch: Seq<char>,
    remote: Seq<char>,
    fetched: Option<FetchedRemote<Seq<char>>>,
)
    ensures
        moves_only_in(#[trigger] fetch_and_ff_spec(rest, dir, branch, remote, fetched), dir),
        !shows(fetch_and_ff_spec(rest, dir, branch, remote, fetched)),
        !runs_command(fetch_and_ff_spec(rest, dir, branch, remote, fetched), "checkout"@),
        !runs_command(fetch_and_ff_spec(rest, dir, branch, remote, fetched), "rebase"@),
        !runs_command(fetch_and_ff_spec(rest, dir, branch, remote, fetched), "reset"@),
        !runs_command(fetch_and_ff_spec(rest, dir, branch, remote, fetched), "stash"@),
        runs_command(fetch_and_ff_spec(rest, dir, branch, remote, fetched), "merge"@)
            ==> merges_counterpart(
            fetch_and_ff_spec(rest, dir, branch, remote, fetched),
            branch,
            remote,
        ),
{
    broadcast use {
        lemma_fetch_requests,
        lemma_fetch_failure_is_told,
        a_fast_forward_keeps_to_its_directory,
    };

    lemma_spelled();
}

/// Whether the next request merges a branch's counterpart, and only by moving
/// the branch forward.
pub open spec fn merges_counterpart<T>(
    progress: Progress<T>,
    branch: Seq<char>,
    remote: Seq<char>,
) -> bool {
    progress matches Progress::Waiting(request) && git_args(request) == crate::ask::args6(
        "-c"@,
        "advice.diverging=false"@,
        "merge"@,
        "--ff-only"@,
        remote + "/"@ + branch,
        "--quiet"@,
    )
}

// ---------------------------------------------------------------------------
// A branch that another worktree holds
// ---------------------------------------------------------------------------

/// Going to a branch that a worktree holds checks nothing out and changes
/// nothing where the user is: it is fetched and fast-forwarded in that
/// worktree, whose path is what the shell is handed. The branch is not offered
/// for deletion on the way.
#[verifier::spinoff_prover]
#[verifier::rlimit(40)]
pub proof fn going_to_a_worktree_changes_only_that_worktree(
    rest: Seq<Answer>,
    target: Seq<char>,
    path: Seq<char>,
    remote: Seq<char>,
)
    ensures
        ({
            let run = held_elsewhere_spec(rest, Verb::Go, target, path, remote);
            &&& moves_only_in(run, Some(path))
            &&& !runs_command(run, "checkout"@)
            &&& !runs_command(run, "rebase"@)
            &&& !runs_command(run, "reset"@)
            &&& !runs_command(run, "stash"@)
            &&& rows_respect(run, Some(target), None)
            &&& prints_only(run, path)
        }),
{
    broadcast use lemma_fetch_and_ff_requests;

    lemma_spelled();
    assert forall|left: Seq<Answer>|
        handed_over(
            #[trigger] sweep_and_hand_off_spec(left, target, remote, Some(path)),
            target,
            path,
        ) by {
        a_handoff_never_offers_where_it_leads(left, target, remote, Some(path));
        the_prompt_only_reads_and_removes(left, None, Some(target), remote);
    }
}

spec fn handed_over(run: Progress<Meant<()>>, target: Seq<char>, path: Seq<char>) -> bool {
    &&& rows_respect(run, Some(target), None)
    &&& run matches Progress::Waiting(request) ==> {
        &&& request is Git ==> !moves_head(command_of(git_args(request))) && command_of(
            git_args(request),
        ) != "fetch"@
    }
    &&& prints_only(run, path)
}

// ---------------------------------------------------------------------------
// A branch that nothing holds
// ---------------------------------------------------------------------------

/// Whether the next request, if it checks anything out, checks out a branch.
pub open spec fn checks_out_only<T>(progress: Progress<T>, branch: Seq<char>) -> bool {
    runs_command(progress, "checkout"@) ==> runs_words(
        progress,
        None,
        args3("checkout"@, branch, "--quiet"@),
    )
}

broadcast proof fn lemma_checkout_requests(rest: Seq<Answer>, branch: Seq<char>)
    ensures
        checks_out_only(#[trigger] git::checkout_spec(rest, branch), branch),
        git::checkout_spec(rest, branch) matches Progress::Waiting(request) ==> request is Git && {
            ||| command_of(git_args(request)) == "checkout"@
            ||| command_of(git_args(request)) == "worktree"@
            ||| command_of(git_args(request)) == "submodule"@
        },
{
    lemma_spelled();
}

broadcast proof fn lemma_rebase_requests(rest: Seq<Answer>, onto: Seq<char>)
    ensures
        #[trigger] rebase_onto_spec(rest, onto) matches Progress::Waiting(request) ==> request is Tell
            || request is Git && git_dir(request) is None && command_of(git_args(request))
            == "rebase"@,
{
    lemma_spelled();
}

broadcast proof fn lemma_update_here_requests(
    rest: Seq<Answer>,
    target: Seq<char>,
    remote: Seq<char>,
)
    ensures
        moves_only_in(#[trigger] update_here_spec(rest, target, remote), None),
        !shows(update_here_spec(rest, target, remote)),
        !runs_command(update_here_spec(rest, target, remote), "checkout"@),
        !runs_command(update_here_spec(rest, target, remote), "reset"@),
        !runs_command(update_here_spec(rest, target, remote), "stash"@),
        runs_command(update_here_spec(rest, target, remote), "merge"@) ==> merges_counterpart(
            update_here_spec(rest, target, remote),
            target,
            remote,
        ),
{
    broadcast use {
        lemma_fetch_and_ff_requests,
        lemma_confirm_runs_nothing,
        lemma_rebase_requests,
    };

    lemma_spelled();
}

#[verifier::spinoff_prover]
#[verifier::rlimit(40)]
proof fn lemma_prompt_requests(
    rest: Seq<Answer>,
    just_left: Option<Seq<char>>,
    entered: Option<Seq<char>>,
    remote: Seq<char>,
)
    ensures
        prompt_quiet(
            prompt_delete_stale_branches_spec(rest, just_left, entered, remote),
            just_left,
            entered,
        ),
{
    lemma_spelled();
    the_prompt_leaves_out_what_is_entered(rest, just_left, entered, remote);
    the_prompt_only_reads_and_removes(rest, just_left, entered, remote);
}

spec fn prompt_quiet<T>(
    run: Progress<T>,
    just_left: Option<Seq<char>>,
    entered: Option<Seq<char>>,
) -> bool {
    &&& rows_respect(run, entered, just_left)
    &&& run matches Progress::Waiting(request) ==> {
        &&& !(request is Print)
        &&& request is Git ==> !moves_head(command_of(git_args(request))) && command_of(
            git_args(request),
        ) != "fetch"@
    }
}

/// The branch that was left behind, where there is one.
pub open spec fn left_behind(old_branch: Option<Seq<char>>, target: Seq<char>) -> Option<
    Seq<char>,
> {
    if old_branch == Some(target) {
        None
    } else {
        old_branch
    }
}

#[verifier::spinoff_prover]
#[verifier::rlimit(40)]
proof fn lemma_switch_requests(
    rest: Seq<Answer>,
    target: Seq<char>,
    old_branch: Option<Seq<char>>,
    remote: Seq<char>,
)
    ensures
        ({
            let run = switch_and_update_spec(rest, target, old_branch, remote);
            &&& checks_out_only(run, target)
            &&& old_branch == Some(target) ==> !runs_command(run, "checkout"@)
            &&& old_branch != Some(target) && rest.len() == 0 ==> runs_words(
                run,
                None,
                args3("checkout"@, target, "--quiet"@),
            )
            &&& moves_only_in(run, None)
            &&& !runs_command(run, "reset"@)
            &&& !runs_command(run, "stash"@)
            &&& runs_command(run, "merge"@) ==> merges_counterpart(run, target, remote)
            &&& rows_respect(run, None, left_behind(old_branch, target))
            &&& !(run matches Progress::Waiting(Asked::Print(_)))
        }),
{
    lemma_spelled();
    let there = old_branch == Some(target);
    lemma_checkout_requests(rest, target);
    match if there {
        Progress::<Meant<()>>::Finished(Ok(()), rest)
    } else {
        git::checkout_spec(rest, target)
    } {
        Progress::Finished(Ok(_), left) => {
            lemma_update_here_requests(left, target, remote);
            match update_here_spec(left, target, remote) {
                Progress::Finished(Ok(_), left) => {
                    lemma_prompt_requests(left, left_behind(old_branch, target), None, remote);
                },
                _ => {},
            }
        },
        _ => {},
    }
}

/// Switching here checks out the target, and at most goes back to where it came
/// from. Everything is done in the directory the user is in: the target alone
/// is merged, with its own counterpart and only by moving it forward, and
/// nothing is ever reset. Nothing is checked out before uncommitted changes are
/// in the stash, and nothing is popped that was not stashed. Only the branch
/// left behind starts out ticked for deletion, and the shell is told nothing.
#[verifier::spinoff_prover]
#[verifier::rlimit(40)]
pub proof fn switching_here_moves_only_the_target(
    rest: Seq<Answer>,
    target: Seq<char>,
    old_branch: Option<Seq<char>>,
    remote: Seq<char>,
)
    ensures
        ({
            let run = in_place_spec(rest, target, old_branch, remote);
            &&& runs_command(run, "checkout"@) ==> runs_words(
                run,
                None,
                args3("checkout"@, target, "--quiet"@),
            ) || old_branch is Some && runs_words(
                run,
                None,
                args3("checkout"@, old_branch->0, "--quiet"@),
            )
            &&& runs_command(run, "checkout"@) ==> went_well(rest[0]) && rest.len() > 0 && (
            rest[0]->Ran_0->Ok_0.stdout.len() == 0 || rest.len() > 1 && went_well(rest[1]))
            &&& runs_words(run, None, crate::ask::args2("stash"@, "pop"@)) ==> rest.len() > 1
                && went_well(rest[0]) && rest[0]->Ran_0->Ok_0.stdout.len() > 0 && went_well(rest[1])
            &&& moves_only_in(run, None)
            &&& !runs_command(run, "reset"@)
            &&& runs_command(run, "merge"@) ==> merges_counterpart(run, target, remote)
            &&& rows_respect(run, None, left_behind(old_branch, target))
            &&& !(run matches Progress::Waiting(Asked::Print(_)))
        }),
{
    broadcast use lemma_checkout_requests;

    lemma_spelled();
    if rest.len() > 0 {
        lemma_switch_requests(rest.drop_first(), target, old_branch, remote);
        if rest.len() > 1 {
            lemma_switch_requests(
                rest.drop_first().drop_first(),
                target,
                old_branch,
                remote,
            );
        }
    }
}

/// A switch first looks for uncommitted changes. Where there are any it stashes
/// them; then it checks the target out, unless it is there already.
pub proof fn switching_here_stashes_then_checks_out(
    target: Seq<char>,
    old_branch: Option<Seq<char>>,
    remote: Seq<char>,
    looked: Answer,
    stashed: Answer,
)
    requires
        went_well(looked),
    ensures
        ({
            let none: Seq<Answer> = Seq::empty();
            let dirty = looked->Ran_0->Ok_0.stdout.len() > 0;
            &&& runs_words(
                in_place_spec(none, target, old_branch, remote),
                None,
                args3("status"@, "--porcelain"@, "--untracked-files=no"@),
            )
            &&& dirty ==> runs_words(
                in_place_spec(none.push(looked), target, old_branch, remote),
                None,
                args5("stash"@, "push"@, "--quiet"@, "-m"@, "perch: auto-stash"@),
            )
            &&& !dirty && old_branch != Some(target) ==> runs_words(
                in_place_spec(none.push(looked), target, old_branch, remote),
                None,
                args3("checkout"@, target, "--quiet"@),
            )
            &&& dirty && went_well(stashed) && old_branch != Some(target) ==> runs_words(
                in_place_spec(none.push(looked).push(stashed), target, old_branch, remote),
                None,
                args3("checkout"@, target, "--quiet"@),
            )
            &&& dirty && super::went_wrong(stashed) ==> super::fails(
                in_place_spec(none.push(looked).push(stashed), target, old_branch, remote),
            )
        }),
{
    let none: Seq<Answer> = Seq::empty();
    assert(none.push(looked).drop_first() =~= none);
    assert(none.push(looked).push(stashed).drop_first().drop_first() =~= none);
}

/// A branch that some worktree holds is gone to there; one that none does, or
/// that is checked out here, is switched to here.
pub proof fn a_branch_is_gone_to_where_it_lives(
    rest: Seq<Answer>,
    verb: Verb,
    target: Seq<char>,
    old_branch: Option<Seq<char>>,
    remote: Seq<char>,
    trees: Seq<Tree>,
    listed: Seq<Answer>,
)
    requires
        live_worktrees_spec(rest) == Progress::<Meant<Seq<Tree>>>::Finished(Ok(trees), listed),
    ensures
        old_branch == Some(target) || (forall|i: int|
            0 <= i < trees.len() ==> (#[trigger] trees[i]).branch != Some(target)) ==> go_to_spec(
            rest,
            verb,
            target,
            old_branch,
            remote,
        ) == in_place_spec(listed, target, old_branch, remote),
        old_branch != Some(target) && (exists|i: int|
            0 <= i < trees.len() && (#[trigger] trees[i]).branch == Some(target)) ==> exists|i: int|
            0 <= i < trees.len() && (#[trigger] trees[i]).branch == Some(target) && go_to_spec(
                rest,
                verb,
                target,
                old_branch,
                remote,
            ) == held_elsewhere_spec(listed, verb, target, trees[i].path, remote),
{
    super::lemma_first_holder(trees, target);
}

} // verus!
