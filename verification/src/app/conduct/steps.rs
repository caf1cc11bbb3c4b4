//! What the single steps of an update make of git's replies.
use vstd::prelude::*;
use vstd::string::*;

use crate::app::prefetch::{join_spec, settled_spec, FetchedRemote, Prefetch};
use crate::app::reports::{aborted_rebase_hint_spec, report_stash_pop_spec};
use crate::app::update::{fetch_and_ff_spec, rebase_onto_spec, refreshed_spec, update_in_spec};
use crate::app::verbs::{held_elsewhere_spec, restored_spec};
use crate::ask::{args1, args2, args3, args4, args5};
use crate::error::{Error, Meant};
use crate::git::{self, FastForwardResult, FetchOutcome, MergeReport};
use crate::grammar::Verb;
use crate::talk::{Answer, Asked, Mark, Progress};
use crate::text;

use super::going::{lemma_fetch_failure_is_told, merges_counterpart};
use super::sweeping::the_prompt_only_reads_and_removes;
use super::updating::an_update_keeps_to_its_worktree;
use super::{command_of, fails, git_args, lemma_spelled, runs_words, went_well, went_wrong};

verus! {

/// What a process printed.
pub open spec fn printed(answer: Answer) -> Seq<char> {
    answer->Ran_0->Ok_0.stdout
}

/// What a process complained of.
pub open spec fn complained(answer: Answer) -> Seq<char> {
    answer->Ran_0->Ok_0.stderr
}

/// A line told.
pub open spec fn told<T>(mark: Mark, text: Seq<char>) -> Progress<T> {
    Progress::Waiting(Asked::Tell { mark, text })
}

// ---------------------------------------------------------------------------
// Checking out
// ---------------------------------------------------------------------------

/// A checkout that git refuses is tried once more after what is known to stand
/// in the way was cleared: a worktree that may be gone, or submodules that lack
/// objects. Any other refusal is an error in git's own words, and so is the
/// second one.
pub proof fn a_refused_checkout_is_tried_once_more(
    branch: Seq<char>,
    refused: Answer,
    cleared: Answer,
    again: Answer,
)
    requires
        went_wrong(refused),
        cleared is Ran,
    ensures
        ({
            let none: Seq<Answer> = Seq::empty();
            let one = none.push(refused);
            let two = one.push(cleared);
            let three = two.push(again);
            let stderr = complained(refused);
            let held = text::contains(stderr, "already registered"@) || text::contains(
                stderr,
                "used by worktree"@,
            );
            let lacking = text::contains(stderr, "Submodule"@) && text::contains(
                stderr,
                "could not be updated"@,
            );
            let words = args3("checkout"@, branch, "--quiet"@);
            &&& runs_words(git::checkout_spec(none, branch), None, words)
            &&& held ==> runs_words(
                git::checkout_spec(one, branch),
                None,
                args2("worktree"@, "prune"@),
            )
            &&& !held && lacking ==> runs_words(
                git::checkout_spec(one, branch),
                None,
                args5("submodule"@, "foreach"@, "--recursive"@, "git"@, "fetch"@),
            )
            &&& !held && !lacking ==> git::checkout_spec(one, branch) == Progress::<
                Meant<()>,
            >::Finished(
                Err(Error::Git { command: "checkout"@, message: text::trim(stderr) }),
                none,
            )
            &&& held || lacking ==> runs_words(git::checkout_spec(two, branch), None, words)
            &&& (held || lacking) && went_well(again) ==> git::checkout_spec(three, branch)
                == Progress::<Meant<()>>::Finished(Ok(()), none)
            &&& (held || lacking) && went_wrong(again) ==> fails(git::checkout_spec(three, branch))
        }),
{
    let none: Seq<Answer> = Seq::empty();
    let one = none.push(refused);
    let two = one.push(cleared);
    let three = two.push(again);
    assert(one.drop_first() =~= none);
    assert(two.drop_first().drop_first() =~= none);
    assert(three.drop_first().drop_first().drop_first() =~= none);
}

/// A checkout that git makes is done.
pub proof fn a_checkout_that_succeeds_is_done(branch: Seq<char>, done: Answer, left: Seq<Answer>)
    requires
        went_well(done),
    ensures
        git::checkout_spec(Seq::empty().push(done) + left, branch) == Progress::<
            Meant<()>,
        >::Finished(Ok(()), left),
{
    let replies = Seq::empty().push(done) + left;
    assert(replies.drop_first() =~= left);
    assert(replies[0] == done);
}

// ---------------------------------------------------------------------------
// The stash
// ---------------------------------------------------------------------------

/// The stash is popped by git alone. A clean restore is not worth a word; a
/// conflict, which git names on either of its outputs, is told with what is
/// left to do; any other failure is told with where to look.
pub proof fn a_popped_stash_is_reported(popped: Answer, left: Seq<Answer>)
    requires
        popped is Ran && popped->Ran_0 is Ok,
    ensures
        ({
            let none: Seq<Answer> = Seq::empty();
            let conflict = text::contains(printed(popped), "CONFLICT"@) || text::contains(
                complained(popped),
                "CONFLICT"@,
            );
            let run = report_stash_pop_spec(none.push(popped));
            &&& runs_words(report_stash_pop_spec(none), None, args2("stash"@, "pop"@))
            &&& went_well(popped) ==> run == Progress::Finished((), none)
            &&& went_wrong(popped) && conflict ==> run == told::<()>(
                Mark::Plain,
                "Conflicts detected restoring stashed changes. Resolve them, then run `git stash drop` to clean up the stash entry."@,
            )
            &&& went_wrong(popped) && !conflict ==> run == told::<()>(
                Mark::Plain,
                "error: git stash pop: "@ + (if text::trim(printed(popped)).len() == 0 {
                    text::trim(complained(popped))
                } else {
                    text::trim(printed(popped))
                }),
            )
            &&& went_wrong(popped) && !conflict ==> report_stash_pop_spec(
                none.push(popped).push(Answer::Done),
            ) == told::<()>(
                Mark::Plain,
                "Stash pop failed. Inspect `git status` and `git stash list` to recover manually."@,
            )
        }),
{
    let none: Seq<Answer> = Seq::empty();
    assert(none.push(popped).drop_first() =~= none);
    assert(none.push(popped).push(Answer::Done).drop_first().drop_first() =~= none);
    if went_wrong(popped) {
        let detail = if text::trim(printed(popped)).len() == 0 {
            text::trim(complained(popped))
        } else {
            text::trim(printed(popped))
        };
        assert("error: "@ + ("git "@ + "stash pop"@ + ": "@ + detail) =~= "error: git stash pop: "@
            + detail) by {
            reveal_strlit("error: ");
            reveal_strlit("git ");
            reveal_strlit("stash pop");
            reveal_strlit(": ");
            reveal_strlit("error: git stash pop: ");
            assert("error: git stash pop: "@ =~= "error: "@ + "git "@ + "stash pop"@ + ": "@);
        }
    }
}

/// After a switch that failed, the branch that it came from is checked out
/// again before the stash is popped; after one that succeeded, or from no
/// branch, it is popped at once. The switch's own result is what is left.
pub proof fn a_failed_switch_goes_back_before_it_restores(
    result: Meant<()>,
    old_branch: Option<Seq<char>>,
    told_so: Answer,
    back: Answer,
    popped: Answer,
)
    requires
        went_well(back),
        went_well(popped),
    ensures
        ({
            let none: Seq<Answer> = Seq::empty();
            let pop = args2("stash"@, "pop"@);
            &&& result is Err && old_branch is Some ==> {
                let old = old_branch->0;
                &&& restored_spec(none, result, old_branch) == told::<Meant<()>>(
                    Mark::Plain,
                    "Switching back to "@ + old + " and restoring stashed changes."@,
                )
                &&& runs_words(
                    restored_spec(none.push(told_so), result, old_branch),
                    None,
                    args3("checkout"@, old, "--quiet"@),
                )
                &&& runs_words(
                    restored_spec(none.push(told_so).push(back), result, old_branch),
                    None,
                    pop,
                )
                &&& restored_spec(
                    none.push(told_so).push(back).push(popped),
                    result,
                    old_branch,
                ) == Progress::Finished(result, none)
            }
            &&& result is Ok || old_branch is None ==> runs_words(
                restored_spec(none, result, old_branch),
                None,
                pop,
            ) && restored_spec(none.push(popped), result, old_branch) == Progress::Finished(
                result,
                none,
            )
        }),
{
    let none: Seq<Answer> = Seq::empty();
    assert(none.push(told_so).drop_first() =~= none);
    assert(none.push(popped).drop_first() =~= none);
    assert(none.push(told_so).push(back).drop_first().drop_first() =~= none);
    assert(none.push(told_so).push(back).push(popped).drop_first().drop_first().drop_first()
        =~= none);
}

// ---------------------------------------------------------------------------
// Rebasing
// ---------------------------------------------------------------------------

/// A rebase that fails is aborted, told of, and an error; one that succeeds is
/// no more than that.
pub proof fn a_failed_rebase_is_aborted(
    onto: Seq<char>,
    rebased: Answer,
    aborted: Answer,
    told_so: Answer,
)
    requires
        rebased is Ran && rebased->Ran_0 is Ok,
    ensures
        ({
            let none: Seq<Answer> = Seq::empty();
            let one = none.push(rebased);
            &&& runs_words(
                rebase_onto_spec(none, onto),
                None,
                args4("-c"@, "advice.skippedCherryPicks=false"@, "rebase"@, onto),
            )
            &&& went_well(rebased) ==> rebase_onto_spec(one, onto) == Progress::<
                Meant<()>,
            >::Finished(Ok(()), none)
            &&& went_wrong(rebased) ==> runs_words(
                rebase_onto_spec(one, onto),
                None,
                args2("rebase"@, "--abort"@),
            )
            &&& went_wrong(rebased) ==> rebase_onto_spec(one.push(aborted), onto) == told::<
                Meant<()>,
            >(Mark::Plain, aborted_rebase_hint_spec(onto))
            &&& went_wrong(rebased) ==> rebase_onto_spec(one.push(aborted).push(told_so), onto)
                == Progress::<Meant<()>>::Finished(Err(Error::Diverged), none)
        }),
{
    let none: Seq<Answer> = Seq::empty();
    let one = none.push(rebased);
    assert(one.drop_first() =~= none);
    assert(one.push(aborted).drop_first().drop_first() =~= none);
    assert(one.push(aborted).push(told_so).drop_first().drop_first().drop_first() =~= none);
}

// ---------------------------------------------------------------------------
// Counting
// ---------------------------------------------------------------------------

/// Of the commits between the counterpart and HEAD, git lists those that only
/// the counterpart has first: they are what the branch is behind by, and the
/// others are what it is ahead by.
pub proof fn the_left_count_is_behind(
    remote: Seq<char>,
    branch: Seq<char>,
    counted: Answer,
    behind: u32,
    ahead: u32,
)
    requires
        went_well(counted),
        text::split_white(printed(counted)).len() == 2,
        text::parse_u32(text::split_white(printed(counted))[0]) == Result::<
            u32,
            text::ParseIntError,
        >::Ok(behind),
        text::parse_u32(text::split_white(printed(counted))[1]) == Result::<
            u32,
            text::ParseIntError,
        >::Ok(ahead),
    ensures
        runs_words(
            git::ahead_behind_remote_spec(Seq::empty(), remote, branch),
            None,
            args4(
                "rev-list"@,
                "--left-right"@,
                "--count"@,
                remote + "/"@ + branch + "...HEAD"@,
            ),
        ),
        git::ahead_behind_remote_spec(Seq::empty().push(counted), remote, branch) == Progress::<
            Meant<(u32, u32)>,
        >::Finished(Ok((ahead, behind)), Seq::empty()),
{
    assert(Seq::empty().push(counted).drop_first() =~= Seq::<Answer>::empty());
}

/// A refresh fetches the remote it was given, where it is, and then asks
/// whether the branch has a counterpart there.
pub proof fn a_refresh_fetches_before_it_looks(
    remote: Seq<char>,
    current: Seq<char>,
    spun: Answer,
    fetched: Answer,
    found: Answer,
    stilled: Answer,
)
    requires
        went_well(fetched),
        found is Ran && found->Ran_0 is Ok,
    ensures
        ({
            let none: Seq<Answer> = Seq::empty();
            &&& runs_words(
                refreshed_spec(none.push(spun), remote, current),
                None,
                args4("fetch"@, "--quiet"@, "--prune"@, remote),
            )
            &&& runs_words(
                refreshed_spec(none.push(spun).push(fetched), remote, current),
                None,
                args3("rev-parse"@, "--verify"@, remote + "/"@ + current),
            )
            &&& refreshed_spec(
                none.push(spun).push(fetched).push(found).push(stilled),
                remote,
                current,
            ) == Progress::Finished(went_well(found), none)
        }),
{
    let none: Seq<Answer> = Seq::empty();
    assert(none.push(spun).drop_first() =~= none);
    assert(none.push(spun).push(fetched).drop_first().drop_first() =~= none);
    let all = none.push(spun).push(fetched).push(found).push(stilled);
    assert(all.drop_first().drop_first().drop_first().drop_first() =~= none);
}

// ---------------------------------------------------------------------------
// Reporting an update
// ---------------------------------------------------------------------------

/// What an update of a worktree comes to, once the fast-forward has ended: a
/// branch that diverged is warned of and left, one without a counterpart is not
/// worth a word, and otherwise it is told how many commits came.
pub proof fn an_update_tells_what_came(
    rest: Seq<Answer>,
    path: Seq<char>,
    branch: Seq<char>,
    remote: Seq<char>,
    fetched: Option<FetchedRemote<Seq<char>>>,
    result: Meant<FastForwardResult>,
    left: Seq<Answer>,
)
    requires
        fetch_and_ff_spec(rest, Some(path), branch, remote, fetched) == Progress::Finished(
            result,
            left,
        ),
        left.len() <= 1,
    ensures
        ({
            let run = update_in_spec(rest, path, branch, remote, fetched);
            let line: Option<Seq<char>> = match result {
                Ok(FastForwardResult::Diverged) => Some(
                    branch + " has diverged from "@ + remote + "/"@ + branch + "; not updating."@,
                ),
                Ok(FastForwardResult::Merged(MergeReport::UpToDate)) => Some("Already up to date."@),
                Ok(FastForwardResult::Merged(MergeReport::Pulled(n))) => Some(
                    if n == 1 {
                        "Pulled 1 commit."@
                    } else {
                        "Pulled "@ + text::decimal(n as nat) + " commits."@
                    },
                ),
                _ => None,
            };
            &&& result is Err ==> run == Progress::<Meant<()>>::Finished(
                Err(result->Err_0),
                left,
            )
            &&& result is Ok && line is None ==> run == Progress::<Meant<()>>::Finished(
                Ok(()),
                left,
            )
            &&& line is Some && left.len() == 0 ==> (run matches Progress::Waiting(Asked::Tell {
                mark,
                text,
            }) && text == line->0 && (mark == Mark::Warning <==> result == Meant::<
                FastForwardResult,
            >::Ok(FastForwardResult::Diverged)))
            &&& line is Some && left.len() == 1 ==> run == Progress::<Meant<()>>::Finished(
                Ok(()),
                left.drop_first(),
            )
        }),
{
}

// ---------------------------------------------------------------------------
// Remotes
// ---------------------------------------------------------------------------

/// The remote that a branch is configured with is used, by the first line that
/// git prints; `.` and nothing at all name none. Without one it is the only
/// remote there is, and `origin` where there is not exactly one.
pub proof fn the_configured_remote_is_used(
    branch: Seq<char>,
    configured: Answer,
    listed: Answer,
    name: Seq<char>,
)
    requires
        went_well(listed),
    ensures
        ({
            let none: Seq<Answer> = Seq::empty();
            let first = text::lines(printed(configured));
            &&& runs_words(
                git::current_remote_spec(none, Some(branch)),
                None,
                args3("config"@, "--get"@, "branch."@ + branch + ".remote"@),
            )
            &&& went_well(configured) && first.len() > 0 && text::trim(first[0]) == name
                && name.len() > 0 && name != "."@ ==> git::current_remote_spec(
                none.push(configured),
                Some(branch),
            ) == Progress::Finished(name, none)
            &&& went_wrong(configured) || went_well(configured) && (first.len() == 0 || text::trim(
                first[0],
            ).len() == 0 || text::trim(first[0]) == "."@) ==> runs_words(
                git::current_remote_spec(none.push(configured), Some(branch)),
                None,
                args1("remote"@),
            ) && (text::lines(printed(listed)) == none_but(name) && name.len() > 0
                ==> git::current_remote_spec(none.push(configured).push(listed), Some(branch))
                == Progress::Finished(name, none)) && (text::lines(printed(listed)).len() == 0
                ==> git::current_remote_spec(none.push(configured).push(listed), Some(branch))
                == Progress::Finished("origin"@, none))
        }),
{
    let none: Seq<Answer> = Seq::empty();
    assert(none.push(configured).drop_first() =~= none);
    assert(none.push(configured).push(listed).drop_first().drop_first() =~= none);
    reveal_with_fuel(crate::rows::keep_map, 3);
    if text::lines(printed(listed)) == none_but(name) {
        assert(none_but(name).drop_last() =~= Seq::empty());
        assert(none_but(name).last() == name);
    }
}

/// One word, and no other.
pub open spec fn none_but(word: Seq<char>) -> Seq<Seq<char>> {
    Seq::empty().push(word)
}

/// A worktree that holds the branch gone to is updated from the remote that
/// this very branch is configured with, whatever remote the branch here has.
#[verifier::spinoff_prover]
#[verifier::rlimit(40)]
pub proof fn a_worktree_is_updated_from_its_own_remote(
    rest: Seq<Answer>,
    target: Seq<char>,
    path: Seq<char>,
    remote: Seq<char>,
    own: Seq<char>,
)
    requires
        rest.len() > 0,
        went_well(rest[0]),
        text::lines(printed(rest[0])).len() > 0,
        text::trim(text::lines(printed(rest[0]))[0]) == own,
        own.len() > 0,
        own != "."@,
    ensures
        held_elsewhere_spec(rest, Verb::Go, target, path, remote) matches Progress::Waiting(request)
            ==> request is Git ==> (command_of(git_args(request)) == "merge"@
            ==> merges_counterpart(Progress::<()>::Waiting(request), target, own)) && (command_of(
            git_args(request),
        ) == "fetch"@ ==> git_args(request) == args4("fetch"@, "--quiet"@, "--prune"@, own)),
{
    lemma_spelled();
    let after = rest.drop_first();
    an_update_keeps_to_its_worktree(after, path, target, own, None);
    lemma_plain_fetch(after, path, target, own);
    assert forall|left: Seq<Answer>|
        reads_or_removes(
            #[trigger] crate::app::removal::prompt_delete_stale_branches_spec(
                left,
                None,
                Some(target),
                remote,
            ),
        ) by {
        the_prompt_only_reads_and_removes(left, None, Some(target), remote);
    }
}

spec fn reads_or_removes<T>(progress: Progress<T>) -> bool {
    progress matches Progress::Waiting(request) ==> request is Git ==> command_of(git_args(request))
        != "merge"@ && command_of(git_args(request)) != "fetch"@
}

proof fn lemma_plain_fetch(
    rest: Seq<Answer>,
    path: Seq<char>,
    branch: Seq<char>,
    remote: Seq<char>,
)
    ensures
        update_in_spec(rest, path, branch, remote, None) matches Progress::Waiting(request)
            ==> request is Git ==> command_of(git_args(request)) == "fetch"@ ==> git_args(request)
            == args4("fetch"@, "--quiet"@, "--prune"@, remote),
{
    broadcast use {
        lemma_fetch_failure_is_told,
        super::updating::a_fast_forward_keeps_to_its_directory,
    };

    lemma_spelled();
}

// ---------------------------------------------------------------------------
// The fetch ahead
// ---------------------------------------------------------------------------

/// A fetch in the background that succeeded is the end of it; one that failed,
/// or could not be started, is made again where the user can be asked, and that
/// one's outcome is what counts.
pub proof fn a_failed_background_fetch_is_made_again(
    remote: Seq<char>,
    started: bool,
    awaited: Answer,
    spun: Answer,
    fetched: Answer,
    stilled: Answer,
)
    requires
        awaited is Ran && awaited->Ran_0 is Ok,
        fetched is Ran && fetched->Ran_0 is Ok,
    ensures
        ({
            let none: Seq<Answer> = Seq::empty();
            let ahead = Prefetch { started, remote };
            let before = if started {
                none.push(awaited)
            } else {
                none
            };
            let words = args4("fetch"@, "--quiet"@, "--prune"@, remote);
            &&& started && went_well(awaited) ==> settled_spec(none.push(awaited), ahead)
                == Progress::Finished(FetchOutcome::<Seq<char>>::Fetched, none)
            &&& !(started && went_well(awaited)) ==> runs_words(
                settled_spec(before.push(spun), ahead),
                None,
                words,
            ) && settled_spec(before.push(spun).push(fetched).push(stilled), ahead)
                == Progress::Finished(
                if went_well(fetched) {
                    FetchOutcome::Fetched
                } else {
                    FetchOutcome::Failed(text::trim(complained(fetched)))
                },
                none,
            )
        }),
{
    let none: Seq<Answer> = Seq::empty();
    assert(none.push(awaited).drop_first() =~= none);
    assert(none.push(spun).drop_first() =~= none);
    assert(none.push(awaited).push(spun).drop_first().drop_first() =~= none);
    assert(none.push(spun).push(fetched).push(stilled).drop_first().drop_first().drop_first()
        =~= none);
    assert(none.push(awaited).push(spun).push(fetched).push(
        stilled,
    ).drop_first().drop_first().drop_first().drop_first() =~= none);
}

/// What is known of the fetch ahead once it was waited for is the remote that
/// it was of, and what it came to in the end.
pub proof fn a_fetch_ahead_is_known_by_its_outcome(rest: Seq<Answer>, ahead: Prefetch<Seq<char>>)
    ensures
        join_spec(rest, ahead) matches Progress::Finished(fetched, _) ==> fetched.remote
            == ahead.remote && (settled_spec(rest, ahead) matches Progress::Finished(outcome, _)
            && fetched.outcome == outcome),
{
}

} // verus!
