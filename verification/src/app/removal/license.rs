//! What a removal may destroy, and in which order.
use vstd::prelude::*;
use vstd::string::*;

use crate::app::br;
use crate::app::reclamation::{self, Staged};
use crate::app::update::runs_git;
use crate::error::Meant;
use crate::git::deletion::delete_branch_if_merged_spec;
use crate::git::worktrees::{initialized_among, worktree_remove_spec, Tree};
use crate::git::{self, RemoteBranch, WorktreeRemoveOutcome};
use crate::grammar::{BranchRemoval, Words};
use crate::rows::{self, keep_map};
use crate::talk::{Answer, Asked, Progress};

use super::assess::{
    assess_stale_spec, assess_worktrees_spec, holder_dirty_spec, stale_offer,
    stale_offers_spec, sweepable, worktree_offer, worktree_offers_spec, Meaning, Refusals, Stale,
};
use super::finish::{
    delete_local_spec, movable_spec, remove_branch_spec, remove_offer_spec, remove_worktree_spec,
    settle_spec,
};
use super::{picked_rows, ticked};

verus! {

// ---------------------------------------------------------------------------
// Force
// ---------------------------------------------------------------------------

/// Whether a command line gets past what git guards: uncommitted changes in a
/// worktree, or the unmerged commits of a branch.
pub open spec fn overrides(args: Words) -> bool {
    ||| args.len() == 4 && args[0] == "worktree"@ && args[1] == "remove"@ && args[2] == "--force"@
    ||| args.len() > 1 && args[0] == "branch"@ && args[1] == "-D"@
}

/// Whether the next request gets past what git guards.
pub open spec fn forces<T>(progress: Progress<T>) -> bool {
    progress matches Progress::Waiting(Asked::Git { args, .. }) && overrides(args)
}

/// Whether the next request tells a hook.
pub open spec fn tells_hook<T>(progress: Progress<T>) -> bool {
    progress matches Progress::Waiting(request) && request is Shell
}

/// None of the other commands that a removal runs is one that forces.
proof fn lemma_other_commands()
    ensures
        "status"@ != "worktree"@,
        "status"@ != "branch"@,
        "rev-parse"@ != "worktree"@,
        "rev-parse"@ != "branch"@,
        "config"@ != "worktree"@,
        "config"@ != "branch"@,
        "worktree"@ != "branch"@,
        "-d"@ != "-D"@,
{
    reveal_strlit("status");
    reveal_strlit("rev-parse");
    reveal_strlit("config");
    reveal_strlit("worktree");
    reveal_strlit("branch");
    reveal_strlit("-d");
    reveal_strlit("-D");
    assert("status"@[0] != "worktree"@[0]);
    assert("status"@[0] != "branch"@[0]);
    assert("rev-parse"@[0] != "worktree"@[0]);
    assert("rev-parse"@[0] != "branch"@[0]);
    assert("config"@[0] != "worktree"@[0]);
    assert("config"@[0] != "branch"@[0]);
    assert("worktree"@[0] != "branch"@[0]);
    assert("-d"@[1] != "-D"@[1]);
}

broadcast proof fn lemma_initialized_among(
    rest: Seq<Answer>,
    below: Seq<char>,
    entries: Seq<Seq<u8>>,
)
    ensures
        #[trigger] initialized_among(rest, below, entries) matches Progress::Waiting(request)
            ==> request is Probe,
    decreases entries.len(),
{
    if entries.len() > 0 {
        lemma_initialized_among(rest, below, entries.drop_first());
        if rest.len() > 0 {
            lemma_initialized_among(rest.drop_first(), below, entries.drop_first());
        }
    }
}

broadcast proof fn lemma_unused_from(
    rest: Seq<Answer>,
    original: Seq<char>,
    dir: Seq<char>,
    name: Seq<char>,
    process: u32,
    nonce: u128,
    attempt: nat,
)
    ensures
        #[trigger] reclamation::unused_from(rest, original, dir, name, process, nonce, attempt)
            matches Progress::Waiting(request) ==> request is Exists,
    decreases 100 - attempt,
{
    if attempt < 100 && rest.len() > 0 {
        lemma_unused_from(rest.drop_first(), original, dir, name, process, nonce, attempt + 1);
    }
}

broadcast proof fn lemma_movable(rest: Seq<Answer>, path: Seq<char>, force: bool)
    ensures
        !forces(#[trigger] movable_spec(rest, path, force)),
        !tells_hook(movable_spec(rest, path, force)),
{
    broadcast use lemma_initialized_among;

    lemma_other_commands();
}

broadcast proof fn lemma_stage(rest: Seq<Answer>, original: Seq<char>)
    ensures
        !forces(#[trigger] reclamation::stage_spec(rest, original)),
        !tells_hook(reclamation::stage_spec(rest, original)),
{
    broadcast use lemma_unused_from;

    lemma_other_commands();
}

broadcast proof fn lemma_settle(
    rest: Seq<Answer>,
    staged: Staged<Seq<char>>,
    removed: Meant<WorktreeRemoveOutcome<Seq<char>>>,
)
    ensures
        !forces(#[trigger] settle_spec(rest, staged, removed)),
        !tells_hook(settle_spec(rest, staged, removed)),
{
    lemma_other_commands();
}

broadcast proof fn lemma_worktree_remove(rest: Seq<Answer>, path: Seq<char>, force: bool)
    ensures
        !force ==> !forces(#[trigger] worktree_remove_spec(rest, path, force)),
        !tells_hook(worktree_remove_spec(rest, path, force)),
{
    lemma_other_commands();
}

broadcast proof fn lemma_remove_worktree(
    rest: Seq<Answer>,
    path: Seq<char>,
    missing: bool,
    force: bool,
)
    ensures
        !force ==> !forces(#[trigger] remove_worktree_spec(rest, path, missing, force)),
        !tells_hook(remove_worktree_spec(rest, path, missing, force)),
{
    broadcast use {lemma_movable, lemma_stage, lemma_settle, lemma_worktree_remove};

}

/// What was neither marked nor forced meets git's own guards: nothing that a
/// removal of it asks for gets past them.
pub proof fn unmarked_removal_forces_nothing(
    rest: Seq<Answer>,
    offer: Meaning,
    dir: Option<Seq<char>>,
)
    requires
        !offer.dirty,
        offer.unmerged is None,
        offer.proof is None,
    ensures
        !forces(remove_offer_spec(rest, offer, false, dir)),
{
    broadcast use lemma_remove_worktree;

    lemma_other_commands();
}

/// A warning covers what it named and nothing else: uncommitted changes do not
/// license the loss of commits, nor unmerged commits that of changes.
pub proof fn a_license_covers_what_it_named(
    rest: Seq<Answer>,
    offer: Meaning,
    dir: Option<Seq<char>>,
)
    requires
        offer.proof is None,
    ensures
        offer.unmerged is None ==> !forces(remove_branch_spec(rest, offer, false, dir)),
        !offer.dirty && offer.worktree is Some ==> !forces(
            remove_worktree_spec(
                rest,
                offer.worktree->0,
                offer.missing,
                super::finish::worktree_licensed(offer, false),
            ),
        ),
{
    broadcast use lemma_remove_worktree;

    lemma_other_commands();
}

/// A proof lapses once the anchor it was made against has moved: git decides
/// then, as it would without the proof.
pub proof fn a_proof_lapses_with_its_anchor(
    rest: Seq<Answer>,
    dir: Option<Seq<char>>,
    branch: Seq<char>,
    proven: git::Proof<Seq<char>>,
    tip: Option<Seq<char>>,
    left: Seq<Answer>,
)
    requires
        git::resolve_spec(rest, dir, proven.anchor_ref) == Progress::Finished(tip, left),
        tip != Some(proven.anchor_tip),
    ensures
        delete_local_spec(rest, dir, branch, false, Some(proven)) == delete_branch_if_merged_spec(
            left,
            dir,
            branch,
        ),
{
}

// ---------------------------------------------------------------------------
// Order
// ---------------------------------------------------------------------------

/// A branch goes only after the worktree that held it: where that could not be
/// removed git is not asked for anything more, and the removal has failed.
pub proof fn a_branch_outlives_its_worktree(
    rest: Seq<Answer>,
    offer: Meaning,
    forced: bool,
    dir: Option<Seq<char>>,
    why: Seq<char>,
    left: Seq<Answer>,
)
    requires
        offer.worktree is Some,
        remove_worktree_spec(
            rest,
            offer.worktree->0,
            offer.missing,
            super::finish::worktree_licensed(offer, forced),
        ) == Progress::<Meant<WorktreeRemoveOutcome<Seq<char>>>>::Finished(
            Ok(WorktreeRemoveOutcome::Failed(why)),
            left,
        ),
    ensures
        !runs_git(remove_offer_spec(rest, offer, forced, dir)),
        remove_offer_spec(rest, offer, forced, dir) matches Progress::Finished(result, _)
            ==> result == Meant::<bool>::Ok(false),
{
}

/// The hook hears of a worktree only once it is gone.
pub proof fn the_hook_hears_only_of_what_is_gone(
    rest: Seq<Answer>,
    offer: Meaning,
    forced: bool,
    dir: Option<Seq<char>>,
)
    requires
        offer.worktree is Some,
        !(remove_worktree_spec(
            rest,
            offer.worktree->0,
            offer.missing,
            super::finish::worktree_licensed(offer, forced),
        ) matches Progress::Finished(Ok(WorktreeRemoveOutcome::Removed), _)),
    ensures
        !tells_hook(remove_offer_spec(rest, offer, forced, dir)),
{
    broadcast use lemma_remove_worktree;

}

/// An upstream goes only after its local branch: where that still exists the
/// server is asked for nothing.
pub proof fn an_upstream_follows_its_branch(
    rest: Seq<Answer>,
    found: br::Found,
    chosen: Seq<RemoteBranch<Seq<char>>>,
    upstream: bool,
)
    ensures
        !runs_git(br::follow_spec(rest, found, chosen, upstream, false)),
        br::follow_spec(rest, found, chosen, upstream, false) matches Progress::Finished(done, _)
            ==> !done,
{
}

/// An upstream goes only if it was chosen.
pub proof fn an_upstream_goes_only_if_chosen(
    rest: Seq<Answer>,
    branch: RemoteBranch<Seq<char>>,
    chosen: Seq<RemoteBranch<Seq<char>>>,
    upstream: bool,
    gone: bool,
)
    requires
        !chosen.contains(branch),
    ensures
        br::follow_spec(rest, br::Prepared::Candidate(branch), chosen, upstream, gone)
            == Progress::Finished(gone, rest),
{
}

/// Force alone speaks of local branches: it leaves every upstream alone, and
/// does not even look at one.
pub proof fn force_alone_leaves_upstreams_alone(
    rest: Seq<Answer>,
    offers: Seq<Meaning>,
    options: BranchRemoval<Seq<char>>,
    interactive: bool,
)
    requires
        options.force,
        !options.upstream,
    ensures
        br::prepared_spec(rest, offers, options, interactive) == Progress::<
            Meant<Seq<br::Found>>,
        >::Finished(Ok(br::nothing_for(offers)), rest),
        br::choose_upstreams_spec(rest, options, interactive, br::nothing_for(offers))
            == Progress::<Meant<Option<Seq<RemoteBranch<Seq<char>>>>>>::Finished(
            Ok(Some(Seq::empty())),
            rest,
        ),
{
    lemma_nothing_has_no_candidates(br::nothing_for(offers));
}

proof fn lemma_nothing_has_no_candidates(found: Seq<br::Found>)
    requires
        forall|i: int| 0 <= i < found.len() ==> #[trigger] found[i] == br::Found::Nothing,
    ensures
        br::candidates(found) == Seq::<RemoteBranch<Seq<char>>>::empty(),
    decreases found.len(),
{
    if found.len() > 0 {
        lemma_nothing_has_no_candidates(found.drop_last());
        assert(found.last() == br::Found::Nothing);
    }
}

/// Calling off the upstreams calls off the whole removal: nothing goes, and
/// that is no failure.
pub proof fn calling_off_upstreams_removes_nothing(
    rest: Seq<Answer>,
    offers: Seq<Meaning>,
    options: BranchRemoval<Seq<char>>,
    dir: Option<Seq<char>>,
    found: Seq<br::Found>,
    looked: Seq<Answer>,
    left: Seq<Answer>,
)
    requires
        rest.len() > 0,
        br::prepared_spec(rest.drop_first(), offers, options, rest[0] == Answer::Flag(true))
            == Progress::<Meant<Seq<br::Found>>>::Finished(Ok(found), looked),
        br::choose_upstreams_spec(looked, options, rest[0] == Answer::Flag(true), found)
            == Progress::<Meant<Option<Seq<RemoteBranch<Seq<char>>>>>>::Finished(Ok(None), left),
    ensures
        br::remove_selected_spec(rest, offers, options, dir) == Progress::<Meant<()>>::Finished(
            Ok(()),
            left,
        ),
{
}

// ---------------------------------------------------------------------------
// Offers
// ---------------------------------------------------------------------------

/// A row that cannot be selected is never among what was selected, whatever
/// was ticked.
pub proof fn a_held_branch_is_never_selected(
    offers: Seq<Meaning>,
    ticks: Seq<usize>,
    force: bool,
    offer: Meaning,
)
    ensures
        picked_rows(offers, ticks, force).offers.contains(offer) ==> offers.contains(offer)
            && offer.held is None,
{
    rows::lemma_keep_map_from(ticks, ticked(offers), offer);
}

/// What a sweep may offer: a stale branch other than the one to be entered,
/// on the ground that it is stale on, and with a proof nothing to warn of.
pub open spec fn fit_to_sweep(
    offer: Meaning,
    stale: Seq<Stale>,
    destination: Option<Seq<char>>,
) -> bool {
    &&& destination != Some(offer.name)
    &&& offer.branch == Some(offer.name)
    &&& offer.held is None
    &&& exists|i: int|
        0 <= i < stale.len() && (#[trigger] stale[i]).name == offer.name && offer.ground == Some(
            stale[i].ground,
        )
    &&& offer.proof is Some ==> offer.unmerged is None
}

proof fn lemma_stale_offers_fit(
    rest: Seq<Answer>,
    swept: Seq<Stale>,
    trees: Seq<Tree>,
    refusals: Refusals,
    proofs: Seq<(Seq<char>, git::Proof<Seq<char>>)>,
    old_branch: Option<Seq<char>>,
    found: Seq<Meaning>,
    stale: Seq<Stale>,
    destination: Option<Seq<char>>,
)
    requires
        forall|i: int|
            0 <= i < swept.len() ==> destination != Some((#[trigger] swept[i]).name)
                && stale.contains(swept[i]),
        forall|i: int|
            0 <= i < found.len() ==> fit_to_sweep(#[trigger] found[i], stale, destination),
    ensures
        stale_offers_spec(rest, swept, trees, refusals, proofs, old_branch, found)
            matches Progress::Finished(offers, _) ==> forall|i: int|
            0 <= i < offers.len() ==> fit_to_sweep(#[trigger] offers[i], stale, destination),
    decreases swept.len(),
{
    if swept.len() > 0 {
        let others = swept.drop_first();
        let holder = rows::first_of(trees, git::worktrees::holding(swept[0].name));
        assert(destination != Some(swept[0].name) && stale.contains(swept[0]));
        let at = choose|j: int| 0 <= j < stale.len() && stale[j] == swept[0];
        assert forall|i: int| 0 <= i < others.len() implies destination != Some(
            (#[trigger] others[i]).name,
        ) && stale.contains(others[i]) by {
            assert(others[i] == swept[i + 1]);
        }
        lemma_stale_offers_fit(
            rest,
            others,
            trees,
            refusals,
            proofs,
            old_branch,
            found,
            stale,
            destination,
        );
        match holder_dirty_spec(rest, holder) {
            Progress::Waiting(_) => {},
            Progress::Finished(dirty, left) => {
                let offer = stale_offer(
                    found.len(),
                    swept[0],
                    holder,
                    dirty,
                    refusals,
                    proofs,
                    old_branch,
                );
                assert(stale[at].ground == swept[0].ground);
                assert(fit_to_sweep(offer, stale, destination));
                lemma_stale_offers_fit(
                    left,
                    others,
                    trees,
                    refusals,
                    proofs,
                    old_branch,
                    found.push(offer),
                    stale,
                    destination,
                );
            },
        }
    }
}

/// The sweep offers stale branches alone, each on its own ground, and never the
/// one that the shell is about to be handed: deleting it would remove the very
/// worktree it goes to.
pub proof fn the_destination_is_never_offered(
    rest: Seq<Answer>,
    stale: Seq<Stale>,
    trees: Seq<Tree>,
    remote: Seq<char>,
    old_branch: Option<Seq<char>>,
    destination: Option<Seq<char>>,
)
    ensures
        assess_stale_spec(rest, stale, trees, remote, old_branch, destination)
            matches Progress::Finished(Ok(assessment), _) ==> forall|i: int|
            0 <= i < assessment.offers.len() ==> fit_to_sweep(
                #[trigger] assessment.offers[i],
                stale,
                destination,
            ),
{
    let swept = keep_map(stale, sweepable(destination));
    let dir = super::assess::sweep_dir(trees);
    assert forall|i: int| 0 <= i < swept.len() implies destination != Some(
        (#[trigger] swept[i]).name,
    ) && stale.contains(swept[i]) by {
        assert(swept.contains(swept[i]));
        rows::lemma_keep_map_from(stale, sweepable(destination), swept[i]);
        let j = choose|j: int|
            0 <= j < stale.len() && sweepable(destination)(#[trigger] stale[j]) == Some(swept[i]);
        assert(stale[j] == swept[i]);
    }
    match git::refs::unmerged_branches_spec(rest, dir) {
        Progress::Finished(Ok(refusals), left) => {
            match super::assess::proofs_for_spec(
                left,
                dir,
                remote,
                keep_map(swept, super::assess::at_risk(refusals)),
            ) {
                Progress::Finished(proofs, left) => {
                    lemma_stale_offers_fit(
                        left,
                        swept,
                        trees,
                        refusals,
                        proofs,
                        old_branch,
                        Seq::empty(),
                        stale,
                        destination,
                    );
                },
                Progress::Waiting(_) => {},
            }
        },
        _ => {},
    }
}

proof fn lemma_worktree_offers_removable(
    rest: Seq<Answer>,
    trees: Seq<Tree>,
    refusals: Refusals,
    found: Seq<Meaning>,
    all: Seq<Tree>,
)
    requires
        forall|i: int| 0 <= i < trees.len() ==> all.contains(#[trigger] trees[i]),
        forall|i: int| 0 <= i < found.len() ==> of_removable(#[trigger] found[i], all),
    ensures
        worktree_offers_spec(rest, trees, refusals, found) matches Progress::Finished(offers, _)
            ==> forall|i: int|
            0 <= i < offers.len() ==> of_removable(#[trigger] offers[i], all),
    decreases trees.len(),
{
    if trees.len() > 0 {
        let others = trees.drop_first();
        assert forall|i: int| 0 <= i < others.len() implies all.contains(#[trigger] others[i]) by {
            assert(others[i] == trees[i + 1]);
        }
        assert(all.contains(trees[0]));
        lemma_worktree_offers_removable(rest, others, refusals, found, all);
        if !trees[0].is_main {
            match crate::app::wt::dirty_spec(rest, trees[0]) {
                Progress::Waiting(_) => {},
                Progress::Finished(dirty, left) => {
                    let offer = worktree_offer(found.len(), trees[0], dirty, refusals);
                    let at = choose|i: int| 0 <= i < all.len() && all[i] == trees[0];
                    assert(all[at].path == offer.worktree->0);
                    assert(of_removable(offer, all));
                    lemma_worktree_offers_removable(
                        left,
                        others,
                        refusals,
                        found.push(offer),
                        all,
                    );
                },
            }
        }
    }
}

/// Whether an offer is that of a worktree other than the main one.
pub open spec fn of_removable(offer: Meaning, trees: Seq<Tree>) -> bool {
    offer.worktree is Some && exists|i: int|
        0 <= i < trees.len() && !(#[trigger] trees[i]).is_main && trees[i].path
            == offer.worktree->0 && trees[i].branch == offer.branch
}

/// `wt rm` offers worktrees alone, and never the main one.
pub proof fn the_main_worktree_is_never_offered(
    rest: Seq<Answer>,
    trees: Seq<Tree>,
    cwd: Option<Seq<char>>,
)
    ensures
        assess_worktrees_spec(rest, trees, cwd) matches Progress::Finished(Ok(assessment), _)
            ==> forall|i: int|
            0 <= i < assessment.offers.len() ==> of_removable(
                #[trigger] assessment.offers[i],
                trees,
            ),
{
    match crate::app::wt::main_of_spec(trees) {
        Ok(main) => match git::refs::unmerged_branches_spec(rest, Some(main.path)) {
            Progress::Finished(Ok(refusals), left) => {
                lemma_worktree_offers_removable(left, trees, refusals, Seq::empty(), trees);
            },
            _ => {},
        },
        Err(_) => {},
    }
}

} // verus!
