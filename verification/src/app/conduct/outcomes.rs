//! What things come to in the end.
use vstd::prelude::*;
use vstd::string::*;

use crate::app::br::{
    candidates, choose_upstreams_spec, prepared_spec, remove_upstream_spec, Found,
};
use crate::app::removal::assess::Meaning;
use crate::app::removal::finish::{
    delete_local_spec, remove_offer_spec, remove_worktree_spec, report_deletion_spec,
};
use crate::app::run_invocation_spec;
use crate::app::update::{reconcile_diverged_spec, update_in_spec};
use crate::app::verbs::{
    held_elsewhere_spec, in_place_spec, restored_spec, sweep_and_hand_off_spec,
    switch_and_update_spec,
};
use crate::app::wt::announce_spec;
use crate::ask::{args2, args3, args4, args5};
use crate::error::{Error, Meant};
use crate::git::deletion::{delete_branch_if_merged_spec, force_delete_branch_spec};
use crate::git::upstream::delete_remote_branch_spec;
use crate::git::{
    self, BranchDeleteOutcome, Proof, RemoteBranch, RemoteBranchDeleteOutcome,
    WorktreeRemoveOutcome,
};
use crate::grammar::{BranchRemoval, Invocation, Navigation, Verb};
use crate::rows::first_of;
use crate::talk::{Answer, Asked, Key, Mark, Progress};
use crate::text;

use super::choosing::{a_question_is_answered_by_its_key, answers_nothing};
use super::steps::{complained, printed, told};
use super::{fails, letter, pressed, runs_words, went_well, went_wrong};

verus! {

// ---------------------------------------------------------------------------
// Diverged branches
// ---------------------------------------------------------------------------

/// A branch that diverged is asked about. A yes rebases it onto its
/// counterpart; a no, and a stop, leave it as it is, say what can be done by
/// hand, and are an error.
pub proof fn a_diverged_branch_does_as_told(
    rest: Seq<Answer>,
    branch: Seq<char>,
    remote: Seq<char>,
    n: nat,
)
    requires
        rest.len() == 5 + n || rest.len() == 6 + n,
        rest[1] == Answer::Flag(true),
        forall|i: int| 3 <= i < 3 + n ==> answers_nothing(#[trigger] rest[i]),
        letter(rest[3 + n as int], 'y', 'Y') || letter(rest[3 + n as int], 'n', 'N')
            || rest[3 + n as int] == pressed(Key::Escape) || rest[3 + n as int] == pressed(
            Key::Enter,
        ),
    ensures
        ({
            let run = reconcile_diverged_spec(rest, branch, remote);
            let onto = remote + "/"@ + branch;
            let yes = letter(rest[3 + n as int], 'y', 'Y');
            &&& yes && rest.len() == 5 + n ==> runs_words(
                run,
                None,
                args4("-c"@, "advice.skippedCherryPicks=false"@, "rebase"@, onto),
            )
            &&& yes && rest.len() == 6 + n && went_well(rest[5 + n as int]) ==> run == Progress::<
                Meant<()>,
            >::Finished(Ok(()), Seq::empty())
            &&& !yes && rest.len() == 5 + n ==> (run matches Progress::Waiting(request)
                && request is Tell)
            &&& !yes && rest.len() == 6 + n ==> run == Progress::<Meant<()>>::Finished(
                Err(Error::Diverged),
                Seq::empty(),
            )
        }),
{
    let after = rest.drop_first();
    assert forall|i: int| 2 <= i < 2 + n implies answers_nothing(#[trigger] after[i]) by {
        assert(after[i] == rest[i + 1]);
    }
    assert(after[2 + n as int] == rest[3 + n as int]);
    a_question_is_answered_by_its_key(
        after,
        "Rebase onto "@ + (remote + "/"@ + branch) + "?"@,
        false,
        n,
    );
    let left = after.skip(4 + n as int);
    if rest.len() == 5 + n {
        assert(left =~= Seq::empty());
    } else {
        assert(left[0] == rest[5 + n as int]);
        assert(left.drop_first() =~= Seq::empty());
    }
}

// ---------------------------------------------------------------------------
// Switching
// ---------------------------------------------------------------------------

/// A switch for which changes were stashed ends in restoring them, whatever it
/// came to; one for which nothing was stashed ends in what it came to.
pub proof fn a_switch_restores_exactly_what_it_stashed(
    looked: Answer,
    stashed: Answer,
    after: Seq<Answer>,
    target: Seq<char>,
    old_branch: Option<Seq<char>>,
    remote: Seq<char>,
    result: Meant<()>,
    left: Seq<Answer>,
)
    requires
        went_well(looked),
        went_well(stashed),
        switch_and_update_spec(after, target, old_branch, remote) == Progress::Finished(
            result,
            left,
        ),
    ensures
        printed(looked).len() > 0 ==> in_place_spec(
            Seq::empty().push(looked).push(stashed) + after,
            target,
            old_branch,
            remote,
        ) == restored_spec(left, result, old_branch),
        printed(looked).len() == 0 ==> in_place_spec(
            Seq::empty().push(looked) + after,
            target,
            old_branch,
            remote,
        ) == Progress::Finished(result, left),
{
    let none: Seq<Answer> = Seq::empty();
    let one = none.push(looked) + after;
    let two = none.push(looked).push(stashed) + after;
    assert(one[0] == looked);
    assert(one.drop_first() =~= after);
    assert(two[0] == looked);
    assert(two.drop_first()[0] == stashed);
    assert(two.drop_first().drop_first() =~= after);
}

/// Going to a worktree: the branch there is updated first; once that has ended,
/// however it did, the shell is handed the worktree's path.
pub proof fn going_to_a_worktree_ends_there(
    rest: Seq<Answer>,
    target: Seq<char>,
    path: Seq<char>,
    remote: Seq<char>,
    own: Seq<char>,
    known: Seq<Answer>,
    updated: Seq<Answer>,
    shown: Answer,
    told_so: Answer,
    after: Seq<Answer>,
)
    requires
        git::current_remote_spec(rest, Some(target)) == Progress::Finished(own, known),
        update_in_spec(known, path, target, own, None) == Progress::<Meant<()>>::Finished(
            Ok(()),
            updated,
        ),
        updated == Seq::empty().push(shown).push(told_so) + after,
    ensures
        held_elsewhere_spec(rest, Verb::Go, target, path, remote) == sweep_and_hand_off_spec(
            after,
            target,
            remote,
            Some(path),
        ),
{
    assert(updated.drop_first().drop_first() =~= after);
}

// ---------------------------------------------------------------------------
// Local branches
// ---------------------------------------------------------------------------

/// A branch is deleted by force where that is licensed, at its proven tip where
/// there is a proof, and otherwise only as git allows.
pub proof fn a_branch_is_deleted_as_licensed(
    dir: Option<Seq<char>>,
    branch: Seq<char>,
    force: bool,
    proven: Option<Proof<Seq<char>>>,
)
    ensures
        ({
            let run = delete_local_spec(Seq::empty(), dir, branch, force, proven);
            &&& force ==> runs_words(run, dir, args4("branch"@, "-D"@, "--quiet"@, branch))
            &&& !force && proven is None ==> runs_words(
                run,
                dir,
                args4("branch"@, "-d"@, "--quiet"@, branch),
            )
            &&& !force && proven is Some ==> runs_words(
                run,
                dir,
                args2("rev-parse"@, proven->0.anchor_ref),
            )
        }),
{
}

/// What git's reply to a deletion comes to: it went, it is not merged, or it
/// failed in git's own words.
pub proof fn a_deletion_is_what_git_says(
    dir: Option<Seq<char>>,
    branch: Seq<char>,
    replied: Answer,
)
    requires
        replied is Ran && replied->Ran_0 is Ok,
    ensures
        ({
            let one = Seq::empty().push(replied);
            let none: Seq<Answer> = Seq::empty();
            let unmerged = text::contains(complained(replied), "not fully merged"@);
            &&& went_well(replied) ==> delete_branch_if_merged_spec(one, dir, branch)
                == Progress::<Meant<BranchDeleteOutcome<Seq<char>>>>::Finished(
                Ok(BranchDeleteOutcome::Deleted),
                none,
            ) && force_delete_branch_spec(one, dir, branch) == Progress::<
                Meant<BranchDeleteOutcome<Seq<char>>>,
            >::Finished(Ok(BranchDeleteOutcome::Deleted), none)
            &&& went_wrong(replied) && unmerged ==> delete_branch_if_merged_spec(one, dir, branch)
                == Progress::<Meant<BranchDeleteOutcome<Seq<char>>>>::Finished(
                Ok(BranchDeleteOutcome::NotMerged),
                none,
            )
            &&& went_wrong(replied) && !unmerged ==> delete_branch_if_merged_spec(one, dir, branch)
                == Progress::<Meant<BranchDeleteOutcome<Seq<char>>>>::Finished(
                Ok(BranchDeleteOutcome::Failed(text::trim(complained(replied)))),
                none,
            )
            &&& went_wrong(replied) ==> force_delete_branch_spec(one, dir, branch) == Progress::<
                Meant<BranchDeleteOutcome<Seq<char>>>,
            >::Finished(
                Ok(BranchDeleteOutcome::Failed(text::trim(complained(replied)))),
                none,
            )
        }),
{
    assert(Seq::empty().push(replied).drop_first() =~= Seq::<Answer>::empty());
}

/// A branch counts as gone, so that its upstream may follow, only if it was
/// deleted and nothing put it back or may have. That is told with a check;
/// whatever else there is to say is a warning.
pub proof fn a_branch_is_gone_only_if_it_stays_gone(
    rest: Seq<Answer>,
    branch: Seq<char>,
    outcome: BranchDeleteOutcome<Seq<char>>,
)
    ensures
        ({
            let gone = match outcome {
                BranchDeleteOutcome::Deleted => true,
                BranchDeleteOutcome::DeletedConfigUnverified(_) => true,
                BranchDeleteOutcome::DeletedLeavingConfig(_) => true,
                BranchDeleteOutcome::DeletedNotRestored { .. } => false,
                BranchDeleteOutcome::DeletedStateUnknown { .. } => false,
                BranchDeleteOutcome::DeletedThenRecreated { .. } => false,
                BranchDeleteOutcome::NotMerged => false,
                BranchDeleteOutcome::Failed(_) => false,
            };
            let run = report_deletion_spec(rest, branch, outcome);
            &&& (run matches Progress::Finished(said, _) ==> said == gone)
            &&& rest.len() == 0 && gone ==> run == told::<bool>(Mark::Check, "deleted "@ + branch)
            &&& rest.len() == 0 && !gone ==> (run matches Progress::Waiting(Asked::Tell {
                mark,
                ..
            }) && mark == Mark::Warning)
        }),
{
}

/// Where there is a worktree, its branch is touched only once git has removed
/// the worktree; where that failed, so has the removal of the offer.
pub proof fn an_offer_goes_worktree_first(
    rest: Seq<Answer>,
    offer: Meaning,
    forced: bool,
    dir: Option<Seq<char>>,
    tree: Seq<char>,
    result: Meant<WorktreeRemoveOutcome<Seq<char>>>,
    left: Seq<Answer>,
)
    requires
        offer.worktree == Some(tree),
        remove_worktree_spec(rest, tree, offer.missing, forced || offer.dirty)
            == Progress::Finished(result, left),
    ensures
        result is Err ==> fails(remove_offer_spec(rest, offer, forced, dir)),
        (result matches Ok(WorktreeRemoveOutcome::Failed(_))) ==> {
            let run = remove_offer_spec(rest, offer, forced, dir);
            &&& (run matches Progress::Waiting(request) ==> request is Home || request is Tell)
            &&& (run matches Progress::Finished(gone, _) ==> gone == Meant::<bool>::Ok(false))
        },
        result == Meant::<WorktreeRemoveOutcome<Seq<char>>>::Ok(WorktreeRemoveOutcome::Removed)
            && left.len() == 0 ==> remove_offer_spec(rest, offer, forced, dir) == Progress::<
            Meant<bool>,
        >::Waiting(Asked::Home),
{
}

// ---------------------------------------------------------------------------
// Upstreams
// ---------------------------------------------------------------------------

/// What the server's replies to a deletion come to. A push that succeeded
/// deleted the upstream. One that failed is looked into: an upstream that is
/// not listed was gone already, one that is listed elsewhere has moved, and one
/// that stands where it stood was not deleted for the reason git gave.
pub proof fn an_upstream_deletion_is_what_the_server_says(
    upstream: RemoteBranch<Seq<char>>,
    pushed: Answer,
    listed: Answer,
    line: Seq<char>,
    now: Seq<char>,
)
    requires
        pushed is Ran && pushed->Ran_0 is Ok,
        went_well(listed),
    ensures
        ({
            let none: Seq<Answer> = Seq::empty();
            let one = none.push(pushed);
            let two = one.push(listed);
            let name = "refs/heads/"@ + upstream.branch;
            let lines = text::lines(printed(listed));
            &&& went_well(pushed) ==> delete_remote_branch_spec(one, upstream) == Progress::<
                Meant<RemoteBranchDeleteOutcome<Seq<char>>>,
            >::Finished(Ok(RemoteBranchDeleteOutcome::Deleted), none)
            &&& went_wrong(pushed) ==> runs_words(
                delete_remote_branch_spec(one, upstream),
                None,
                args5("ls-remote"@, "--heads"@, "--"@, upstream.remote, name),
            )
            &&& went_wrong(pushed) && lines.len() == 0 ==> delete_remote_branch_spec(two, upstream)
                == Progress::<Meant<RemoteBranchDeleteOutcome<Seq<char>>>>::Finished(
                Ok(RemoteBranchDeleteOutcome::AlreadyAbsent),
                none,
            )
            &&& went_wrong(pushed) && lines.len() == 1 && lines[0] == line && text::split_once(
                line,
                '\t',
            ) == Some((now, name)) ==> delete_remote_branch_spec(two, upstream) == Progress::<
                Meant<RemoteBranchDeleteOutcome<Seq<char>>>,
            >::Finished(
                Ok(
                    if now == upstream.tip {
                        RemoteBranchDeleteOutcome::Failed(text::trim(complained(pushed)))
                    } else {
                        RemoteBranchDeleteOutcome::Moved { expected: upstream.tip, now }
                    },
                ),
                none,
            )
        }),
{
    let none: Seq<Answer> = Seq::empty();
    assert(none.push(pushed).drop_first() =~= none);
    assert(none.push(pushed).push(listed).drop_first().drop_first() =~= none);
    reveal_with_fuel(first_of, 2);
}

/// An upstream that went, or was gone, is a success and told with a check;
/// anything else is a failure and a warning.
pub proof fn an_upstream_that_stays_is_a_failure(
    rest: Seq<Answer>,
    upstream: RemoteBranch<Seq<char>>,
    outcome: Meant<RemoteBranchDeleteOutcome<Seq<char>>>,
    left: Seq<Answer>,
)
    requires
        delete_remote_branch_spec(rest, upstream) == Progress::Finished(outcome, left),
    ensures
        ({
            let fine = outcome == Meant::<RemoteBranchDeleteOutcome<Seq<char>>>::Ok(
                RemoteBranchDeleteOutcome::Deleted,
            ) || outcome == Meant::<RemoteBranchDeleteOutcome<Seq<char>>>::Ok(
                RemoteBranchDeleteOutcome::AlreadyAbsent,
            );
            let run = remove_upstream_spec(rest, upstream);
            &&& left.len() > 0 ==> run == Progress::Finished(fine, left.drop_first())
            &&& left.len() == 0 ==> (run matches Progress::Waiting(Asked::Tell { mark, .. })
                && (mark == Mark::Check <==> fine) && (mark == Mark::Warning <==> !fine))
        }),
{
}

/// Upstreams are offered with nothing chosen, unless they were asked for: the
/// rows of several start out ticked, and the question over one proposes yes,
/// exactly where they were. They are not even looked at where they were not
/// asked for and nobody can be asked.
pub proof fn an_upstream_is_off_unless_asked_for(
    rest: Seq<Answer>,
    offers: Seq<Meaning>,
    options: BranchRemoval<Seq<char>>,
    found: Seq<Found>,
    told_so: Answer,
)
    requires
        !options.force,
        candidates(found).len() > 0,
    ensures
        options.target is None ==> (choose_upstreams_spec(Seq::empty(), options, true, found)
            matches Progress::Waiting(Asked::PickRows { rows, .. }) && rows.len() == candidates(
            found,
        ).len() && forall|i: int|
            0 <= i < rows.len() ==> (#[trigger] rows[i]).ticked == options.upstream),
        options.target is Some ==> (choose_upstreams_spec(
            Seq::empty().push(told_so).push(Answer::Flag(true)),
            options,
            true,
            found,
        ) matches Progress::Waiting(Asked::Prompt { hint, .. }) && (hint == "[Y/n] / esc"@
            <==> options.upstream)),
        !options.upstream ==> (prepared_spec(rest, offers, options, false)
            matches Progress::Finished(Ok(seen), left) && left == rest && forall|i: int|
            0 <= i < seen.len() ==> #[trigger] seen[i] == Found::Nothing),
{
    reveal_strlit("[Y/n] / esc");
    reveal_strlit("[y/N] / esc");
    assert("[Y/n] / esc"@[1] != "[y/N] / esc"@[1]);
    let two = Seq::empty().push(told_so).push(Answer::Flag(true));
    assert(two.drop_first().drop_first() =~= Seq::<Answer>::empty());
}

// ---------------------------------------------------------------------------
// New worktrees, and whole commands
// ---------------------------------------------------------------------------

/// A new worktree is told of with its path, and a new branch with what it was
/// cut from.
pub proof fn a_new_worktree_is_told_of(
    main: Seq<char>,
    branch: Seq<char>,
    base: Seq<char>,
    path: Seq<char>,
)
    ensures
        announce_spec(Seq::empty(), main, branch, Some(base), path) == told::<()>(
            Mark::Check,
            "created "@ + branch + " from "@ + base + " at "@ + path,
        ),
        announce_spec(Seq::empty(), main, branch, None, path) == told::<()>(
            Mark::Check,
            "created worktree at "@ + path,
        ),
{
}

/// A command that concerns worktrees starts by looking for what an earlier
/// removal left to reclaim; one that does not leaves that alone.
pub proof fn worktree_commands_retry_first(invocation: Invocation<Seq<char>>)
    ensures
        ({
            let looks = args3("rev-parse"@, "--path-format=absolute"@, "--git-common-dir"@);
            let run = run_invocation_spec(Seq::empty(), invocation);
            &&& invocation is ListWorktrees || invocation is RemoveWorktrees || (
            invocation matches Invocation::Navigate(Navigation::Worktree { .. })) ==> runs_words(
                run,
                None,
                looks,
            )
            &&& invocation is RemoveBranches || (invocation matches Invocation::Navigate(
                Navigation::Go(_),
            )) || (invocation matches Invocation::Navigate(Navigation::Here(_))) ==> runs_words(
                run,
                None,
                args2("branch"@, "--show-current"@),
            ) || runs_words(run, None, args2("branch"@, "--format=%(refname:short)"@))
        }),
{
}

} // verus!
