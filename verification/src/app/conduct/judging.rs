//! Where the sweep looks before it offers anything.
use vstd::prelude::*;
use vstd::string::*;

use crate::app::removal::assess::{
    assess_branches_spec, assess_stale_spec, assess_worktrees_spec, at_risk, holder_dirty_spec,
    proofs_for_spec, stale_offer, stale_offers_spec, sweep_dir, sweepable, worktree_offer,
    worktree_offers_spec, Meaning, Refusals, Stale,
};
use crate::app::wt::{dirty_spec, main_of_spec};
use crate::error::Meant;
use crate::git::equivalence::{
    any_exact, commit_diff, content_present_spec, equivalent_to_spec, proofs_spec,
    verbatim_patch_id_spec,
};
use crate::git::refs::unmerged_branches_spec;
use crate::git::upstream::head_ref;
use crate::git::worktrees::{holding, Tree};
use crate::git::{self, Proof};
use crate::grammar::Words;
use crate::rows::{self, first_of, keep_map};
use crate::table;
use crate::talk::{Answer, Asked, Progress};

use super::{command_of, git_args, git_dir, lemma_first_holder, lemma_spelled};

verus! {

/// Whether a request is one of those that a proof of equivalence is made of:
/// it has git compare commits, in the directory given.
pub open spec fn compares(request: Asked, dir: Option<Seq<char>>) -> bool {
    request is Git && git_dir(request) == dir && {
        let command = command_of(git_args(request));
        ||| command == "rev-parse"@
        ||| command == "merge-base"@
        ||| command == "commit-tree"@
        ||| command == "cherry"@
        ||| command == "diff"@
        ||| command == "show"@
        ||| command == "patch-id"@
        ||| command == "--literal-pathspecs"@
    }
}

/// Whether a request looks for the branch that staleness is judged against.
pub open spec fn looks_for_anchor(request: Asked) -> bool {
    request is Git && git_dir(request) is None && (command_of(git_args(request))
        == "symbolic-ref"@ || command_of(git_args(request)) == "rev-parse"@)
}

/// Whether the next request is made of comparisons in a directory.
pub open spec fn only_compares<T>(progress: Progress<T>, dir: Option<Seq<char>>) -> bool {
    progress matches Progress::Waiting(request) ==> compares(request, dir)
}

proof fn lemma_any_exact(
    rest: Seq<Answer>,
    dir: Option<Seq<char>>,
    commits: Words,
    wanted: Seq<char>,
)
    ensures
        only_compares(any_exact(rest, dir, commits, wanted), dir),
    decreases commits.len(),
{
    lemma_spelled();
    if commits.len() > 0 {
        match verbatim_patch_id_spec(rest, dir, commit_diff(commits[0])) {
            Progress::Finished(_, left) => {
                lemma_any_exact(left, dir, commits.drop_first(), wanted);
            },
            Progress::Waiting(_) => {},
        }
    }
}

/// Whether a branch is equivalent to the anchor is asked in one directory, and
/// by comparing commits alone.
pub proof fn equivalence_is_asked_in_one_place(
    rest: Seq<Answer>,
    dir: Option<Seq<char>>,
    anchor: Seq<char>,
    tip: Seq<char>,
)
    ensures
        only_compares(equivalent_to_spec(rest, dir, anchor, tip), dir),
{
    lemma_spelled();
    assert forall|left: Seq<Answer>, commits: Words, wanted: Seq<char>|
        only_compares(#[trigger] any_exact(left, dir, commits, wanted), dir) by {
        lemma_any_exact(left, dir, commits, wanted);
    }
    assert forall|left: Seq<Answer>, base: Seq<char>|
        only_compares(#[trigger] content_present_spec(left, dir, anchor, tip, base), dir) by {
        assert(crate::git::equivalence::listing_args(base, tip)[0] == "diff"@);
        assert forall|touched: Words|
            (#[trigger] crate::git::equivalence::comparison_args(tip, anchor, touched))[0]
                == "--literal-pathspecs"@ by {}
    }
}

proof fn lemma_proofs(
    rest: Seq<Answer>,
    dir: Option<Seq<char>>,
    anchor_ref: Seq<char>,
    anchor_tip: Seq<char>,
    candidates: Words,
    found: Seq<(Seq<char>, Proof<Seq<char>>)>,
)
    ensures
        only_compares(
            proofs_spec(rest, dir, anchor_ref, anchor_tip, candidates, found),
            dir,
        ),
    decreases candidates.len(),
{
    lemma_spelled();
    if candidates.len() > 0 {
        let name = candidates[0];
        let others = candidates.drop_first();
        match git::resolve_spec(rest, dir, head_ref(name)) {
            Progress::Waiting(_) => {},
            Progress::Finished(None, left) => {
                lemma_proofs(left, dir, anchor_ref, anchor_tip, others, found);
            },
            Progress::Finished(Some(tip), left) => {
                equivalence_is_asked_in_one_place(left, dir, anchor_tip, tip);
                match equivalent_to_spec(left, dir, anchor_tip, tip) {
                    Progress::Waiting(_) => {},
                    Progress::Finished(proven, left) => {
                        let more = if proven {
                            table::put(found, name, Proof { anchor_ref, anchor_tip, tip })
                        } else {
                            found
                        };
                        lemma_proofs(left, dir, anchor_ref, anchor_tip, others, more);
                    },
                }
            },
        }
    }
}

/// Whether a request of the sweep's assessment is in its place: what is merged
/// is asked where the removal will run, what git's refs say and where the
/// anchor is wherever the user is, equivalence where the removal will run, and
/// uncommitted changes in a worktree that holds one of the stale branches.
pub open spec fn in_its_place(
    request: Asked,
    dir: Option<Seq<char>>,
    stale: Seq<Stale>,
    trees: Seq<Tree>,
) -> bool {
    ||| request is Git && git_dir(request) == dir && command_of(git_args(request)) == "branch"@
    ||| request is Git && git_dir(request) is None && command_of(git_args(request))
        == "for-each-ref"@
    ||| looks_for_anchor(request)
    ||| compares(request, dir)
    ||| looks_into_holder(request, stale, trees)
}

/// Whether git is asked for uncommitted changes in a worktree, other than the
/// main one, that holds one of some branches.
pub open spec fn looks_into_holder(request: Asked, stale: Seq<Stale>, trees: Seq<Tree>) -> bool {
    request is Git && command_of(git_args(request)) == "status"@ && exists|i: int, j: int|
        0 <= i < stale.len() && 0 <= j < trees.len() && (#[trigger] trees[j]).branch == Some(
            (#[trigger] stale[i]).name,
        ) && !trees[j].is_main && git_dir(request) == Some(trees[j].path)
}

proof fn lemma_stale_offers_look(
    rest: Seq<Answer>,
    swept: Seq<Stale>,
    trees: Seq<Tree>,
    refusals: Refusals,
    proofs: Seq<(Seq<char>, Proof<Seq<char>>)>,
    old_branch: Option<Seq<char>>,
    found: Seq<Meaning>,
    stale: Seq<Stale>,
)
    requires
        forall|i: int| 0 <= i < swept.len() ==> stale.contains(#[trigger] swept[i]),
    ensures
        stale_offers_spec(rest, swept, trees, refusals, proofs, old_branch, found)
            matches Progress::Waiting(request) ==> looks_into_holder(request, stale, trees),
    decreases swept.len(),
{
    lemma_spelled();
    if swept.len() > 0 {
        let others = swept.drop_first();
        let holder = first_of(trees, holding(swept[0].name));
        lemma_first_holder(trees, swept[0].name);
        assert(stale.contains(swept[0]));
        let at = choose|i: int| 0 <= i < stale.len() && stale[i] == swept[0];
        assert(stale[at].name == swept[0].name);
        assert forall|i: int| 0 <= i < others.len() implies stale.contains(#[trigger] others[i]) by {
            assert(others[i] == swept[i + 1]);
        }
        if holder matches Some(tree) && tree.is_main {
            lemma_stale_offers_look(
                rest,
                others,
                trees,
                refusals,
                proofs,
                old_branch,
                found,
                stale,
            );
        } else {
            match holder_dirty_spec(rest, holder) {
                Progress::Waiting(_) => {},
                Progress::Finished(dirty, left) => {
                    let offer = stale_offer(
                        found.len(),
                        swept[0],
                        holder,
                        dirty,
                        refusals,
                        proofs,
                        old_branch,
                    );
                    lemma_stale_offers_look(
                        left,
                        others,
                        trees,
                        refusals,
                        proofs,
                        old_branch,
                        found.push(offer),
                        stale,
                    );
                },
            }
        }
    }
}

/// The sweep asks each thing in its place. What a branch would lose is judged
/// from the main worktree, where the removal will run.
pub proof fn the_sweep_asks_each_thing_in_its_place(
    rest: Seq<Answer>,
    stale: Seq<Stale>,
    trees: Seq<Tree>,
    remote: Seq<char>,
    old_branch: Option<Seq<char>>,
    destination: Option<Seq<char>>,
    main: Tree,
)
    requires
        main_of_spec(trees) == Meant::<Tree>::Ok(main),
    ensures
        assess_stale_spec(rest, stale, trees, remote, old_branch, destination)
            matches Progress::Waiting(request) ==> in_its_place(
            request,
            Some(main.path),
            stale,
            trees,
        ),
{
    lemma_spelled();
    let swept = keep_map(stale, sweepable(destination));
    let dir = sweep_dir(trees);
    assert forall|i: int| 0 <= i < swept.len() implies stale.contains(#[trigger] swept[i]) by {
        assert(swept.contains(swept[i]));
        rows::lemma_keep_map_from(stale, sweepable(destination), swept[i]);
        let j = choose|j: int|
            0 <= j < stale.len() && sweepable(destination)(#[trigger] stale[j]) == Some(swept[i]);
        assert(stale[j] == swept[i]);
    }
    match unmerged_branches_spec(rest, dir) {
        Progress::Finished(Ok(refusals), left) => {
            let risky = keep_map(swept, at_risk(refusals));
            assert forall|after: Seq<Answer>, anchor_ref: Seq<char>, anchor_tip: Seq<char>|
                only_compares(
                    #[trigger] proofs_spec(
                        after,
                        dir,
                        anchor_ref,
                        anchor_tip,
                        risky,
                        Seq::empty(),
                    ),
                    dir,
                ) by {
                lemma_proofs(after, dir, anchor_ref, anchor_tip, risky, Seq::empty());
            }
            match proofs_for_spec(left, dir, remote, risky) {
                Progress::Finished(proofs, left) => {
                    lemma_stale_offers_look(
                        left,
                        swept,
                        trees,
                        refusals,
                        proofs,
                        old_branch,
                        Seq::empty(),
                        stale,
                    );
                },
                Progress::Waiting(_) => {},
            }
        },
        _ => {},
    }
}

// ---------------------------------------------------------------------------
// What is at risk
// ---------------------------------------------------------------------------

/// Whether an offer carries what git would refuse its branch for, unless that
/// is proven to cost nothing.
pub open spec fn carries_its_risk(offer: Meaning, refusals: Refusals) -> bool {
    offer.unmerged == if offer.proof is Some || offer.branch is None {
        None
    } else {
        table::get(refusals, offer.branch->0)
    }
}

proof fn lemma_worktree_offers_carry(
    rest: Seq<Answer>,
    trees: Seq<Tree>,
    refusals: Refusals,
    found: Seq<Meaning>,
)
    requires
        forall|i: int| 0 <= i < found.len() ==> carries_its_risk(#[trigger] found[i], refusals),
    ensures
        worktree_offers_spec(rest, trees, refusals, found) matches Progress::Finished(offers, _)
            ==> forall|i: int|
            0 <= i < offers.len() ==> carries_its_risk(#[trigger] offers[i], refusals),
    decreases trees.len(),
{
    if trees.len() > 0 {
        let others = trees.drop_first();
        if trees[0].is_main {
            lemma_worktree_offers_carry(rest, others, refusals, found);
        } else {
            match dirty_spec(rest, trees[0]) {
                Progress::Waiting(_) => {},
                Progress::Finished(dirty, left) => {
                    let offer = worktree_offer(found.len(), trees[0], dirty, refusals);
                    assert(carries_its_risk(offer, refusals));
                    lemma_worktree_offers_carry(left, others, refusals, found.push(offer));
                },
            }
        }
    }
}

proof fn lemma_stale_offers_carry(
    rest: Seq<Answer>,
    swept: Seq<Stale>,
    trees: Seq<Tree>,
    refusals: Refusals,
    proofs: Seq<(Seq<char>, Proof<Seq<char>>)>,
    old_branch: Option<Seq<char>>,
    found: Seq<Meaning>,
)
    requires
        forall|i: int|
            0 <= i < found.len() ==> carries_its_risk(#[trigger] found[i], refusals)
                && found[i].proof == table::get(proofs, found[i].name),
    ensures
        stale_offers_spec(rest, swept, trees, refusals, proofs, old_branch, found)
            matches Progress::Finished(offers, _) ==> forall|i: int|
            0 <= i < offers.len() ==> carries_its_risk(#[trigger] offers[i], refusals)
                && offers[i].proof == table::get(proofs, offers[i].name),
    decreases swept.len(),
{
    if swept.len() > 0 {
        let others = swept.drop_first();
        let holder = first_of(trees, holding(swept[0].name));
        lemma_stale_offers_carry(rest, others, trees, refusals, proofs, old_branch, found);
        match holder_dirty_spec(rest, holder) {
            Progress::Waiting(_) => {},
            Progress::Finished(dirty, left) => {
                let offer = stale_offer(
                    found.len(),
                    swept[0],
                    holder,
                    dirty,
                    refusals,
                    proofs,
                    old_branch,
                );
                assert(carries_its_risk(offer, refusals));
                lemma_stale_offers_carry(
                    left,
                    others,
                    trees,
                    refusals,
                    proofs,
                    old_branch,
                    found.push(offer),
                );
            },
        }
    }
}

/// What git would refuse a branch for, as git says from the main worktree, is
/// carried by the offer of that very branch, whatever is assessed. Only a proof
/// of its own takes it away, and only the sweep asks for one.
pub proof fn every_offer_carries_its_own_risk(
    rest: Seq<Answer>,
    names: Words,
    trees: Seq<Tree>,
    cwd: Option<Seq<char>>,
    stale: Seq<Stale>,
    remote: Seq<char>,
    old_branch: Option<Seq<char>>,
    destination: Option<Seq<char>>,
    main: Tree,
    refusals: Refusals,
    left: Seq<Answer>,
)
    requires
        main_of_spec(trees) == Meant::<Tree>::Ok(main),
        unmerged_branches_spec(rest, Some(main.path)) == Progress::<Meant<Refusals>>::Finished(
            Ok(refusals),
            left,
        ),
    ensures
        assess_worktrees_spec(rest, trees, cwd) matches Progress::Finished(Ok(assessment), _)
            ==> forall|i: int|
            0 <= i < assessment.offers.len() ==> carries_its_risk(
                #[trigger] assessment.offers[i],
                refusals,
            ),
        assess_branches_spec(rest, names, trees) matches Progress::Finished(Ok(assessment), _)
            ==> forall|i: int|
            0 <= i < assessment.offers.len() ==> carries_its_risk(
                #[trigger] assessment.offers[i],
                refusals,
            ),
        assess_stale_spec(rest, stale, trees, remote, old_branch, destination)
            matches Progress::Finished(Ok(assessment), _) ==> forall|i: int|
            0 <= i < assessment.offers.len() ==> carries_its_risk(
                #[trigger] assessment.offers[i],
                refusals,
            ),
{
    let none: Seq<Meaning> = Seq::empty();
    lemma_worktree_offers_carry(left, trees, refusals, none);
    let swept = keep_map(stale, sweepable(destination));
    match proofs_for_spec(
        left,
        Some(main.path),
        remote,
        keep_map(swept, at_risk(refusals)),
    ) {
        Progress::Finished(proofs, after) => {
            lemma_stale_offers_carry(after, swept, trees, refusals, proofs, old_branch, none);
        },
        Progress::Waiting(_) => {},
    }
}

} // verus!
