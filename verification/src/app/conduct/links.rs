//! How the steps of a command hang together.
use vstd::prelude::*;
use vstd::string::*;

use crate::app::catalogue::live_worktrees_spec;
use crate::app::prefetch::{FetchedRemote, Prefetch};
use crate::app::update::{
    fetch_and_ff_spec, reconcile_diverged_spec, refresh_current_spec, refreshed_spec,
};
use crate::app::reclamation::{
    moved_aside_spec, recover_staged_spec, repository_config_spec, repository_lock_spec,
    restore_spec, stage_spec, start_spec, Record, Staged, State,
};
use crate::app::removal::assess::{
    assess_branches_spec, assess_stale_spec, assess_worktrees_spec, at_risk, holder_dirty_spec,
    proofs_for_spec, stale_offer, stale_offers_spec, sweep_dir, sweepable, Meaning, Refusals,
    Stale,
};
use crate::app::removal::finish::{movable_spec, remove_worktree_spec, settle_spec};
use crate::app::removal::{
    named_selection_spec, picked_selection_spec, prompt_delete_stale_branches_spec,
    select_removal_locals_spec, AssessmentModel, SelectionModel,
};
use crate::app::verbs::{
    go_to_spec, run_verb_spec, sweep_and_hand_off_spec, switch_and_update_spec, update_here_spec,
};
use crate::app::wt::{
    act_spec, create_for_branch_spec, create_new_branch_spec, fetch_and_add_spec,
    give_worktree_spec, joined_spec, main_of_spec, prefetched_spec, resolve_target_spec, run_spec,
    worktree_path, Action, Existence,
};
use crate::ask::{args3, args4, args7};
use crate::error::Meant;
use crate::git::refs::unmerged_branches_spec;
use crate::git::worktrees::{holding, worktree_list_in_spec, worktree_remove_spec, Tree};
use crate::git::{self, FastForwardResult, MergeReport, Proof, WorktreeRemoveOutcome};
use crate::grammar::{BranchRemoval, ShellHandoff, Verb, Words, WorktreeRemoval};
use crate::rows::{first_of, keep_map};
use crate::talk::{Answer, Asked, Mark, Progress};
use crate::text;

use super::removing::{concerns_offer, removals_touch_only_what_was_chosen};
use super::steps::told;
use super::{fails, lemma_first_holder, runs_words};

verus! {

// ---------------------------------------------------------------------------
// Whole runs
// ---------------------------------------------------------------------------

/// `perch` and `br` go to the branch that is named, from the branch that is
/// checked out, and by the remote of the latter. Nobody is asked which branch
/// was meant.
pub proof fn a_named_branch_is_gone_to(
    rest: Seq<Answer>,
    verb: Verb,
    target: Seq<char>,
    old_branch: Option<Seq<char>>,
    named: Seq<Answer>,
    remote: Seq<char>,
    left: Seq<Answer>,
)
    requires
        target != "."@,
        git::current_branch_spec(rest) == Progress::<Meant<Option<Seq<char>>>>::Finished(
            Ok(old_branch),
            named,
        ),
        git::current_remote_spec(named, old_branch) == Progress::Finished(remote, left),
    ensures
        run_verb_spec(rest, verb, Some(target)) == go_to_spec(
            left,
            verb,
            target,
            old_branch,
            remote,
        ),
{
}

/// `wt` gives the branch that is named a worktree, under the directory name
/// that was asked for, with the hand-off that was asked for, and by the remote
/// of the branch that is checked out, which is also the one fetched ahead.
pub proof fn a_named_branch_is_given_a_worktree(
    rest: Seq<Answer>,
    name: Option<Seq<char>>,
    target: Seq<char>,
    handoff: ShellHandoff,
    current: Option<Seq<char>>,
    named: Seq<Answer>,
    remote: Seq<char>,
    known: Seq<Answer>,
    trees: Seq<Tree>,
    listed: Seq<Answer>,
    started: Option<Prefetch<Seq<char>>>,
    begun: Seq<Answer>,
    fetched: Option<FetchedRemote<Seq<char>>>,
    left: Seq<Answer>,
)
    requires
        git::current_branch_spec(rest) == Progress::<Meant<Option<Seq<char>>>>::Finished(
            Ok(current),
            named,
        ),
        git::current_remote_spec(named, current) == Progress::Finished(remote, known),
        live_worktrees_spec(known) == Progress::<Meant<Seq<Tree>>>::Finished(Ok(trees), listed),
        prefetched_spec(listed, Some(target), trees, remote) == Progress::Finished(started, begun),
        joined_spec(begun, started) == Progress::Finished(fetched, left),
    ensures
        run_spec(rest, name, Some(target), handoff) == give_worktree_spec(
            left,
            target,
            Existence::MayCreate,
            name,
            handoff,
            remote,
            fetched,
        ),
        started matches Some(prefetch) ==> prefetch.remote == remote,
{
}

/// The fetch before a worktree is made is of the remote that the branch is
/// configured with; a new branch is fetched for, and cut, from the remote given.
pub proof fn a_new_worktree_fetches_its_own_remote(
    path: Seq<char>,
    branch: Seq<char>,
    base: Option<Seq<char>>,
    remote: Seq<char>,
    spun: Answer,
    fetched: Answer,
    spun_again: Answer,
)
    ensures
        ({
            let one = Seq::empty().push(spun);
            &&& runs_words(
                fetch_and_add_spec(one, path, branch, base, remote, None),
                None,
                args4("fetch"@, "--quiet"@, "--prune"@, remote),
            )
            &&& runs_words(
                fetch_and_add_spec(
                    one.push(fetched).push(spun_again),
                    path,
                    branch,
                    base,
                    remote,
                    None,
                ),
                None,
                match base {
                    Some(base) => args7("worktree"@, "add"@, "--track"@, "-b"@, branch, path, base),
                    None => args4("worktree"@, "add"@, path, branch),
                },
            )
        }),
{
    let one = Seq::empty().push(spun);
    assert(one.drop_first() =~= Seq::<Answer>::empty());
    assert(one.push(fetched).push(spun_again).drop_first().drop_first().drop_first()
        =~= Seq::<Answer>::empty());
}

/// A worktree for a branch that exists is made by the remote of that very
/// branch: once that is known, what follows is what it would be for it.
pub proof fn an_existing_branch_comes_by_its_own_remote(
    rest: Seq<Answer>,
    main: Seq<char>,
    name: Option<Seq<char>>,
    branch: Seq<char>,
    fetched: Option<FetchedRemote<Seq<char>>>,
    own: Seq<char>,
    path: Seq<char>,
    made: Answer,
    after: Seq<Answer>,
)
    requires
        git::current_remote_spec(rest, Some(branch)) == Progress::Finished(
            own,
            Seq::empty().push(Answer::Flag(false)).push(made) + after,
        ),
        worktree_path(main, super::placing::wanted_name(name, branch)) == Meant::<Seq<char>>::Ok(
            path,
        ),
        crate::path::parent(path) is Some,
    ensures
        fetch_and_add_spec(after, path, branch, None, own, fetched) matches Progress::Waiting(
            request,
        ) ==> create_for_branch_spec(rest, main, name, branch, fetched) == Progress::<
            Meant<(Seq<char>, Seq<char>)>,
        >::Waiting(request),
{
    let known = Seq::empty().push(Answer::Flag(false)).push(made) + after;
    assert(known[0] == Answer::Flag(false));
    assert(known.drop_first().drop_first() =~= after);
}

// ---------------------------------------------------------------------------
// What is offered
// ---------------------------------------------------------------------------

/// Whether an offer's worktree, if it has one, holds the offer's branch and is
/// not the main one.
pub open spec fn takes_its_holder(offer: Meaning, trees: Seq<Tree>) -> bool {
    offer.worktree matches Some(path) ==> exists|i: int|
        0 <= i < trees.len() && (#[trigger] trees[i]).path == path && trees[i].branch == Some(
            offer.name,
        ) && !trees[i].is_main && trees[i].prunable == offer.missing
}

proof fn lemma_stale_offers_take(
    rest: Seq<Answer>,
    swept: Seq<Stale>,
    trees: Seq<Tree>,
    refusals: Refusals,
    proofs: Seq<(Seq<char>, Proof<Seq<char>>)>,
    old_branch: Option<Seq<char>>,
    found: Seq<Meaning>,
)
    requires
        forall|i: int| 0 <= i < found.len() ==> takes_its_holder(#[trigger] found[i], trees),
    ensures
        stale_offers_spec(rest, swept, trees, refusals, proofs, old_branch, found)
            matches Progress::Finished(offers, _) ==> forall|i: int|
            0 <= i < offers.len() ==> takes_its_holder(#[trigger] offers[i], trees),
    decreases swept.len(),
{
    if swept.len() > 0 {
        let others = swept.drop_first();
        let holder = first_of(trees, holding(swept[0].name));
        lemma_first_holder(trees, swept[0].name);
        if holder matches Some(tree) && tree.is_main {
            lemma_stale_offers_take(rest, others, trees, refusals, proofs, old_branch, found);
        } else {
            match holder_dirty_spec(rest, holder) {
                Progress::Waiting(_) => {},
                Progress::Finished(dirty, left) => {
                    let offer = stale_offer(
                        found.len(),
                        swept[0],
                        holder,
                        dirty,
                        refusals,
                        proofs,
                        old_branch,
                    );
                    assert(takes_its_holder(offer, trees));
                    lemma_stale_offers_take(
                        left,
                        others,
                        trees,
                        refusals,
                        proofs,
                        old_branch,
                        found.push(offer),
                    );
                },
            }
        }
    }
}

/// A stale branch takes along the worktree that holds it, and no other; the
/// main worktree never goes.
pub proof fn a_swept_branch_takes_only_its_holder(
    rest: Seq<Answer>,
    stale: Seq<Stale>,
    trees: Seq<Tree>,
    remote: Seq<char>,
    old_branch: Option<Seq<char>>,
    destination: Option<Seq<char>>,
)
    ensures
        assess_stale_spec(rest, stale, trees, remote, old_branch, destination)
            matches Progress::Finished(Ok(assessment), _) ==> (forall|i: int|
            0 <= i < assessment.offers.len() ==> takes_its_holder(
                #[trigger] assessment.offers[i],
                trees,
            )) && (main_of_spec(trees) matches Ok(main) ==> assessment.dir == Some(main.path)),
        main_of_spec(trees) matches Ok(main) ==> (unmerged_branches_spec(rest, Some(main.path))
            matches Progress::Waiting(request) ==> (keep_map(stale, sweepable(destination)).len()
            > 0 ==> assess_stale_spec(rest, stale, trees, remote, old_branch, destination)
            == Progress::<Meant<crate::app::removal::AssessmentModel>>::Waiting(request))),
{
    let swept = keep_map(stale, sweepable(destination));
    let dir = sweep_dir(trees);
    match unmerged_branches_spec(rest, dir) {
        Progress::Finished(Ok(refusals), left) => {
            match proofs_for_spec(left, dir, remote, keep_map(swept, at_risk(refusals))) {
                Progress::Finished(proofs, left) => {
                    lemma_stale_offers_take(
                        left,
                        swept,
                        trees,
                        refusals,
                        proofs,
                        old_branch,
                        Seq::empty(),
                    );
                },
                Progress::Waiting(_) => {},
            }
        },
        _ => {},
    }
}

/// `br rm` lists every local branch under its own name, takes no worktree
/// along, and keeps from being selected exactly those that a worktree holds.
pub proof fn every_local_branch_is_listed(
    rest: Seq<Answer>,
    names: Words,
    trees: Seq<Tree>,
    i: int,
)
    requires
        0 <= i < names.len(),
    ensures
        assess_branches_spec(rest, names, trees) matches Progress::Finished(Ok(assessment), _) ==> {
            &&& assessment.offers.len() == names.len()
            &&& assessment.offers[i].name == names[i]
            &&& assessment.offers[i].branch == Some(names[i])
            &&& assessment.offers[i].worktree is None
            &&& assessment.offers[i].proof is None
            &&& assessment.offers[i].held is Some <==> exists|j: int|
                0 <= j < trees.len() && (#[trigger] trees[j]).branch == Some(names[i])
        },
{
    lemma_first_holder(trees, names[i]);
}

// ---------------------------------------------------------------------------
// Moving aside
// ---------------------------------------------------------------------------

/// A worktree that may not be moved is left to git, and so is one that could
/// not be: git is asked to remove it, by force only where that is licensed.
pub proof fn what_is_not_moved_is_left_to_git(
    rest: Seq<Answer>,
    tree: Seq<char>,
    force: bool,
    looked: Seq<Answer>,
)
    ensures
        ({
            let words = if force {
                args4("worktree"@, "remove"@, "--force"@, tree)
            } else {
                args3("worktree"@, "remove"@, tree)
            };
            &&& runs_words(remove_worktree_spec(Seq::empty(), tree, true, force), None, words)
            &&& movable_spec(rest, tree, force) == Progress::Finished(false, Seq::<Answer>::empty())
                ==> runs_words(remove_worktree_spec(rest, tree, false, force), None, words)
            &&& movable_spec(rest, tree, force) == Progress::Finished(true, looked) && fails(
                stage_spec(looked, tree),
            ) ==> (stage_spec(looked, tree) matches Progress::Finished(_, left) && (left.len() == 0
                ==> runs_words(remove_worktree_spec(rest, tree, false, force), None, words)))
        }),
{
}

/// The lock that a move takes is let go: at once where the move fails, and
/// otherwise once what was moved has been settled.
pub proof fn the_lock_is_let_go(
    rest: Seq<Answer>,
    config: Seq<char>,
    original: Seq<char>,
    staged: Staged<Seq<char>>,
    removed: Meant<WorktreeRemoveOutcome<Seq<char>>>,
    locked: Seq<Answer>,
    taken: Seq<Answer>,
)
    requires
        repository_config_spec(rest) == Progress::<Meant<Seq<char>>>::Finished(Ok(config), locked),
        repository_lock_spec(locked, config) == Progress::<Meant<()>>::Finished(Ok(()), taken),
    ensures
        (moved_aside_spec(taken, config, original) matches Progress::Finished(Err(_), left)
            ==> left.len() == 0 ==> stage_spec(rest, original) == Progress::<
            Meant<Staged<Seq<char>>>,
        >::Waiting(Asked::Unlock)),
        removed == Meant::<WorktreeRemoveOutcome<Seq<char>>>::Ok(WorktreeRemoveOutcome::Removed)
            ==> (start_spec(rest, staged) matches Progress::Finished(_, left) ==> left.len() == 0
            ==> settle_spec(rest, staged, removed) == Progress::<
            Meant<WorktreeRemoveOutcome<Seq<char>>>,
        >::Waiting(Asked::Unlock)),
        removed != Meant::<WorktreeRemoveOutcome<Seq<char>>>::Ok(WorktreeRemoveOutcome::Removed)
            ==> (restore_spec(rest, staged) matches Progress::Finished(_, left) ==> left.len() == 0
            ==> settle_spec(rest, staged, removed) == Progress::<
            Meant<WorktreeRemoveOutcome<Seq<char>>>,
        >::Waiting(Asked::Unlock)),
{
}

/// After a crash, what was moved aside becomes ready for deletion only if its
/// original path is gone and git has then removed the registration, without
/// force.
pub proof fn a_crash_makes_nothing_ready_by_itself(
    rest: Seq<Answer>,
    config: Seq<char>,
    staged: Record<Seq<char>>,
)
    ensures
        rest.len() == 0 ==> recover_staged_spec(rest, config, staged) == Progress::<
            Meant<Option<Record<Seq<char>>>>,
        >::Waiting(Asked::Exists(staged.original)),
        rest.len() == 1 && rest[0] == Answer::Flag(false) ==> runs_words(
            recover_staged_spec(rest, config, staged),
            None,
            args3("worktree"@, "remove"@, staged.original),
        ),
        recover_staged_spec(rest, config, staged) matches Progress::Finished(Ok(Some(ready)), _)
            ==> {
            &&& rest.len() > 0 && rest[0] != Answer::Flag(true)
            &&& worktree_remove_spec(rest.drop_first(), staged.original, false)
                matches Progress::Finished(Ok(WorktreeRemoveOutcome::Removed), _)
            &&& ready == (Record { state: State::Ready, ..staged })
        },
{
}

// ---------------------------------------------------------------------------
// From one step to the next
// ---------------------------------------------------------------------------

/// What comes after a branch was checked out and fast-forwarded: one that
/// diverged is asked about, and otherwise it is told how many commits came.
pub proof fn a_switch_asks_about_diverged_work(
    rest: Seq<Answer>,
    target: Seq<char>,
    remote: Seq<char>,
    result: Meant<FastForwardResult>,
    left: Seq<Answer>,
)
    requires
        fetch_and_ff_spec(rest, None, target, remote, None) == Progress::Finished(result, left),
    ensures
        result == Meant::<FastForwardResult>::Ok(FastForwardResult::Diverged) ==> update_here_spec(
            rest,
            target,
            remote,
        ) == reconcile_diverged_spec(left, target, remote),
        result == Meant::<FastForwardResult>::Ok(FastForwardResult::Merged(MergeReport::NoRemote))
            && left.len() == 0 ==> update_here_spec(rest, target, remote) == told::<Meant<()>>(
            Mark::Plain,
            "No remote tracking branch."@,
        ),
        result == Meant::<FastForwardResult>::Ok(FastForwardResult::Merged(MergeReport::UpToDate))
            && left.len() == 0 ==> update_here_spec(rest, target, remote) == told::<Meant<()>>(
            Mark::Plain,
            "Already up to date."@,
        ),
        result is Err ==> fails(update_here_spec(rest, target, remote)),
{
}

/// A switch is a checkout, an update and the cleanup prompt, in this order; the
/// first that fails is the end of it.
pub proof fn a_switch_checks_out_updates_and_cleans_up(
    rest: Seq<Answer>,
    target: Seq<char>,
    old_branch: Option<Seq<char>>,
    remote: Seq<char>,
    checked_out: Meant<()>,
    there: Seq<Answer>,
    updated: Meant<()>,
    left: Seq<Answer>,
)
    requires
        old_branch != Some(target),
        git::checkout_spec(rest, target) == Progress::Finished(checked_out, there),
        update_here_spec(there, target, remote) == Progress::Finished(updated, left),
    ensures
        checked_out is Err ==> fails(switch_and_update_spec(rest, target, old_branch, remote)),
        checked_out is Ok && updated is Err ==> switch_and_update_spec(
            rest,
            target,
            old_branch,
            remote,
        ) == Progress::<Meant<()>>::Finished(Err(updated->Err_0), left),
        checked_out is Ok && updated is Ok ==> switch_and_update_spec(
            rest,
            target,
            old_branch,
            remote,
        ) == prompt_delete_stale_branches_spec(left, old_branch, None, remote),
{
}

/// Once the worktree is there, the cleanup prompt and the hand-off follow, for
/// the branch and the path that it came to, and by the remote of the branch
/// that is checked out.
pub proof fn a_worktree_is_arrived_at(
    rest: Seq<Answer>,
    branch: Seq<char>,
    existence: Existence,
    name: Option<Seq<char>>,
    remote: Seq<char>,
    fetched: Option<FetchedRemote<Seq<char>>>,
    trees: Seq<Tree>,
    listed: Seq<Answer>,
    main: Tree,
    action: Action<Seq<char>>,
    decided: Seq<Answer>,
    path: Seq<char>,
    held: Seq<char>,
    left: Seq<Answer>,
    handoff: ShellHandoff,
)
    requires
        live_worktrees_spec(rest) == Progress::<Meant<Seq<Tree>>>::Finished(Ok(trees), listed),
        main_of_spec(trees) == Meant::<Tree>::Ok(main),
        resolve_target_spec(listed, branch, existence, trees, remote) == Progress::<
            Meant<Action<Seq<char>>>,
        >::Finished(Ok(action), decided),
        act_spec(decided, action, main.path, name, handoff, remote, fetched) == Progress::<
            Meant<(Seq<char>, Seq<char>)>,
        >::Finished(Ok((path, held)), left),
    ensures
        give_worktree_spec(rest, branch, existence, name, handoff, remote, fetched)
            == sweep_and_hand_off_spec(
            left,
            held,
            remote,
            if handoff == ShellHandoff::Emit {
                Some(path)
            } else {
                None
            },
        ),
{
}

/// A new branch is cut from the remote's default branch and fetched for from
/// that same remote.
pub proof fn a_new_branch_comes_by_the_remote_it_is_cut_from(
    rest: Seq<Answer>,
    main: Seq<char>,
    name: Option<Seq<char>>,
    branch: Seq<char>,
    remote: Seq<char>,
    fetched: Option<FetchedRemote<Seq<char>>>,
    default: Seq<char>,
    path: Seq<char>,
    made: Answer,
    after: Seq<Answer>,
)
    requires
        git::default_branch_spec(rest, remote) == Progress::Finished(
            Some(default),
            Seq::empty().push(Answer::Flag(false)).push(made) + after,
        ),
        worktree_path(main, super::placing::wanted_name(name, branch)) == Meant::<Seq<char>>::Ok(
            path,
        ),
        crate::path::parent(path) is Some,
    ensures
        fetch_and_add_spec(after, path, branch, Some(remote + "/"@ + default), remote, fetched)
            matches Progress::Waiting(request) ==> create_new_branch_spec(
            rest,
            main,
            name,
            branch,
            remote,
            fetched,
        ) == Progress::<Meant<(Seq<char>, Seq<char>)>>::Waiting(request),
{
    let known = Seq::empty().push(Answer::Flag(false)).push(made) + after;
    assert(known[0] == Answer::Flag(false));
    assert(known.drop_first().drop_first() =~= after);
}

/// `wt rm` removes what was selected, from where it was assessed, by force only
/// if that was asked for, and touches nothing else.
pub proof fn selected_worktrees_alone_are_removed(
    rest: Seq<Answer>,
    assessment: AssessmentModel,
    selection: SelectionModel,
)
    ensures
        crate::app::wt::remove_selected_spec(rest, assessment, selection) matches Progress::Waiting(
            request,
        ) ==> {
            ||| request is Spin || request is Enter || request is Still
            ||| request is StdoutIsTerminal || request is Print || request is Tell
            ||| exists|i: int|
                0 <= i < selection.offers.len() && concerns_offer(
                    request,
                    #[trigger] selection.offers[i],
                    selection.choice.forced(),
                    assessment.dir,
                )
        },
{
    if rest.len() > 0 {
        let after = rest.drop_first();
        let forced = selection.choice.forced();
        removals_touch_only_what_was_chosen(after, selection.offers, forced, assessment.dir, true);
        if after.len() > 0 {
            removals_touch_only_what_was_chosen(
                after.drop_first(),
                selection.offers,
                forced,
                assessment.dir,
                true,
            );
        }
    }
}

/// `br rm` hands what was selected, and where it was assessed, to the removal.
pub proof fn selected_branches_are_removed_where_they_were_assessed(
    rest: Seq<Answer>,
    options: BranchRemoval<Seq<char>>,
    names: Words,
    named: Seq<Answer>,
    trees: Seq<Tree>,
    listed: Seq<Answer>,
    assessment: AssessmentModel,
    assessed: Seq<Answer>,
    selection: SelectionModel,
    left: Seq<Answer>,
)
    requires
        git::local_branches_spec(rest) == Progress::<Meant<Words>>::Finished(Ok(names), named),
        worktree_list_in_spec(named, None) == Progress::<Meant<Seq<Tree>>>::Finished(
            Ok(trees),
            listed,
        ),
        assess_branches_spec(listed, names, trees) == Progress::<Meant<AssessmentModel>>::Finished(
            Ok(assessment),
            assessed,
        ),
        select_removal_locals_spec(
            assessed,
            assessment,
            options.target,
            options.force,
            "Remove branches (space to toggle, →/← all/none)"@,
        ) == Progress::<Meant<Option<SelectionModel>>>::Finished(Ok(Some(selection)), left),
    ensures
        crate::app::br::run_rm_spec(rest, options) == crate::app::br::remove_selected_spec(
            left,
            selection.offers,
            options,
            assessment.dir,
        ),
{
}

/// What a refresh says where there is nothing to bring in: that there is no
/// counterpart, that the branch is level with it, or by how much it is ahead.
pub proof fn a_refresh_says_why_nothing_came(
    rest: Seq<Answer>,
    remote: Seq<char>,
    current: Seq<char>,
    found: bool,
    ahead: u32,
    fetched: Seq<Answer>,
)
    requires
        refreshed_spec(rest, remote, current) == Progress::Finished(found, fetched),
        found ==> git::ahead_behind_remote_spec(fetched, remote, current) == Progress::<
            Meant<(u32, u32)>,
        >::Finished(Ok((ahead, 0)), Seq::empty()),
        !found ==> fetched.len() == 0,
    ensures
        refresh_current_spec(rest, remote, current) == told::<Meant<()>>(
            Mark::Plain,
            if !found {
                "No remote tracking branch."@
            } else if ahead == 0 {
                "Already up to date."@
            } else {
                current + " is "@ + text::decimal(ahead as nat) + " "@ + (if ahead == 1 {
                    "commit"@
                } else {
                    "commit"@ + "s"@
                }) + " ahead of "@ + (remote + "/"@ + current) + "; nothing to pull."@
            },
        ),
{
}

/// `wt rm` assesses every worktree from the current directory, selects by the
/// name given or by the user's ticks, with force exactly where that was asked
/// for, and hands what was selected to the removal. Where there is nothing to
/// remove it says so.
pub proof fn selected_worktrees_are_handed_to_the_removal(
    rest: Seq<Answer>,
    options: WorktreeRemoval<Seq<char>>,
    trees: Seq<Tree>,
    listed: Seq<Answer>,
    cwd: Option<Seq<char>>,
    after: Seq<Answer>,
    assessment: AssessmentModel,
    assessed: Seq<Answer>,
    selection: SelectionModel,
    left: Seq<Answer>,
)
    requires
        worktree_list_in_spec(rest, None) == Progress::<Meant<Seq<Tree>>>::Finished(
            Ok(trees),
            listed,
        ),
        listed == Seq::empty().push(Answer::Text(cwd)) + after,
        assess_worktrees_spec(after, trees, cwd) == Progress::<Meant<AssessmentModel>>::Finished(
            Ok(assessment),
            assessed,
        ),
    ensures
        assessment.offers.len() == 0 && assessed.len() == 0 ==> crate::app::wt::run_rm_spec(
            rest,
            options,
        ) == told::<Meant<()>>(Mark::Plain, "No worktrees to remove."@),
        assessment.offers.len() > 0 && (match options.target {
            Some(name) => named_selection_spec(assessed, assessment, name, options.force),
            None => picked_selection_spec(
                assessed,
                assessment,
                options.force,
                "Remove worktrees (space to toggle, →/← all/none)"@,
            ),
        }) == Progress::<Meant<Option<SelectionModel>>>::Finished(Ok(Some(selection)), left)
            ==> crate::app::wt::run_rm_spec(rest, options)
            == crate::app::wt::remove_selected_spec(left, assessment, selection),
{
    assert(listed[0] == Answer::Text(cwd));
    assert(listed.drop_first() =~= after);
}

/// What is selected is the name given, or else what the user ticks: nothing
/// where there is nothing to offer.
pub proof fn a_target_is_named_or_ticked(
    rest: Seq<Answer>,
    assessment: AssessmentModel,
    name: Seq<char>,
    force: bool,
    prompt: Seq<char>,
)
    ensures
        select_removal_locals_spec(rest, assessment, Some(name), force, prompt)
            == named_selection_spec(rest, assessment, name, force),
        assessment.offers.len() > 0 ==> select_removal_locals_spec(
            rest,
            assessment,
            None,
            force,
            prompt,
        ) == picked_selection_spec(rest, assessment, force, prompt),
        assessment.offers.len() == 0 ==> select_removal_locals_spec(
            rest,
            assessment,
            None,
            force,
            prompt,
        ) == Progress::<Meant<Option<SelectionModel>>>::Finished(Ok(None), rest),
{
}

} // verus!
