//! What looking at things never does.
//!
//! A removal assesses before it removes. Whatever assessing asks for only
//! reads, but for one thing: a proof of equivalence has git write a commit
//! that nothing refers to.
use vstd::prelude::*;
use vstd::string::*;

use crate::app::br;
use crate::app::wt::dirty_spec;
use crate::git::refs::{stale_branches_spec, unmerged_branches_spec};
use crate::git::worktrees::{holding, worktree_list_in_spec, Tree};
use crate::git::{self, equivalence, Proof, StaleBranch};
use crate::grammar::{BranchRemoval, Words};
use crate::rows::first_of;
use crate::table;
use crate::talk::{Answer, Asked, Progress};

use super::assess::{
    assess_branches_spec, assess_stale_spec, assess_worktrees_spec, holder_dirty_spec,
    named_offer_spec, proofs_for_spec, stale_offer, stale_offers_spec, worktree_offer,
    worktree_offers_spec, Meaning, Refusals, Stale,
};
use super::AssessmentModel;

verus! {

/// Whether git only reads when it is run with these words.
pub open spec fn only_reads(args: Words) -> bool {
    &&& args.len() > 1
    &&& {
        ||| args[0] == "for-each-ref"@
        ||| args[0] == "status"@
        ||| args[0] == "rev-parse"@
        ||| args[0] == "merge-base"@
        ||| args[0] == "cherry"@
        ||| args[0] == "diff"@
        ||| args[0] == "show"@
        ||| args[0] == "patch-id"@
        ||| args[0] == "ls-remote"@
        ||| args[0] == "symbolic-ref"@ && args.len() == 2
        ||| args[0] == "branch"@ && (args[1] == "--show-current"@ || args[1]
            == "--format=%(refname:short)"@)
        ||| args[0] == "worktree"@ && args[1] == "list"@
        ||| args[0] == "config"@ && (args[1] == "--get"@ || args[1] == "--get-all"@)
        ||| args[0] == "--literal-pathspecs"@ && args[1] == "diff"@
    }
}

/// Whether git only writes a commit that nothing refers to.
pub open spec fn writes_an_unreachable_commit(args: Words) -> bool {
    args.len() > 0 && args[0] == "commit-tree"@
}

/// Whether carrying a request out changes nothing that anybody can see.
pub open spec fn harmless(request: Asked) -> bool {
    match request {
        Asked::Git { args, .. } => only_reads(args) || writes_an_unreachable_commit(args),
        Asked::Home => true,
        _ => false,
    }
}

/// Whether the next request could change something.
pub open spec fn harms<T>(progress: Progress<T>) -> bool {
    progress matches Progress::Waiting(request) && !harmless(request)
}

broadcast proof fn lemma_any_exact(
    rest: Seq<Answer>,
    dir: Option<Seq<char>>,
    commits: Words,
    wanted: Seq<char>,
)
    ensures
        !harms(#[trigger] equivalence::any_exact(rest, dir, commits, wanted)),
    decreases commits.len(),
{
    if commits.len() > 0 {
        match equivalence::verbatim_patch_id_spec(rest, dir, equivalence::commit_diff(commits[0])) {
            Progress::Finished(_, left) => {
                lemma_any_exact(left, dir, commits.drop_first(), wanted);
            },
            Progress::Waiting(_) => {},
        }
    }
}

broadcast proof fn lemma_patch_landed(
    rest: Seq<Answer>,
    dir: Option<Seq<char>>,
    anchor: Seq<char>,
    tip: Seq<char>,
    base: Seq<char>,
)
    ensures
        !harms(#[trigger] equivalence::patch_landed_spec(rest, dir, anchor, tip, base)),
{
    broadcast use lemma_any_exact;

}

broadcast proof fn lemma_content_present(
    rest: Seq<Answer>,
    dir: Option<Seq<char>>,
    anchor: Seq<char>,
    tip: Seq<char>,
    base: Seq<char>,
)
    ensures
        !harms(#[trigger] equivalence::content_present_spec(rest, dir, anchor, tip, base)),
{
}

broadcast proof fn lemma_equivalent_to(
    rest: Seq<Answer>,
    dir: Option<Seq<char>>,
    anchor: Seq<char>,
    tip: Seq<char>,
)
    ensures
        !harms(#[trigger] equivalence::equivalent_to_spec(rest, dir, anchor, tip)),
{
    broadcast use {lemma_patch_landed, lemma_content_present};

}

broadcast proof fn lemma_proofs(
    rest: Seq<Answer>,
    dir: Option<Seq<char>>,
    anchor_ref: Seq<char>,
    anchor_tip: Seq<char>,
    candidates: Words,
    found: Seq<(Seq<char>, Proof<Seq<char>>)>,
)
    ensures
        !harms(
            #[trigger] equivalence::proofs_spec(
                rest,
                dir,
                anchor_ref,
                anchor_tip,
                candidates,
                found,
            ),
        ),
    decreases candidates.len(),
{
    broadcast use lemma_equivalent_to;

    if candidates.len() > 0 {
        let name = candidates[0];
        let (standing, left) = equivalence::verdict(rest, dir, anchor_tip, name);
        let more = match standing {
            Some(tip) => table::put(found, name, Proof { anchor_ref, anchor_tip, tip }),
            None => found,
        };
        lemma_proofs(left, dir, anchor_ref, anchor_tip, candidates.drop_first(), more);
    }
}

broadcast proof fn lemma_proofs_for(
    rest: Seq<Answer>,
    dir: Option<Seq<char>>,
    remote: Seq<char>,
    risky: Words,
)
    ensures
        !harms(#[trigger] proofs_for_spec(rest, dir, remote, risky)),
{
    broadcast use lemma_proofs;

}

broadcast proof fn lemma_unmerged_branches(rest: Seq<Answer>, dir: Option<Seq<char>>)
    ensures
        !harms(#[trigger] unmerged_branches_spec(rest, dir)),
{
}

broadcast proof fn lemma_worktree_offers(
    rest: Seq<Answer>,
    trees: Seq<Tree>,
    refusals: Refusals,
    found: Seq<Meaning>,
)
    ensures
        !harms(#[trigger] worktree_offers_spec(rest, trees, refusals, found)),
    decreases trees.len(),
{
    if trees.len() > 0 {
        let others = trees.drop_first();
        lemma_worktree_offers(rest, others, refusals, found);
        match dirty_spec(rest, trees[0]) {
            Progress::Waiting(_) => {},
            Progress::Finished(dirty, left) => {
                let offer = worktree_offer(found.len(), trees[0], dirty, refusals);
                lemma_worktree_offers(left, others, refusals, found.push(offer));
            },
        }
    }
}

broadcast proof fn lemma_stale_offers(
    rest: Seq<Answer>,
    stale: Seq<Stale>,
    trees: Seq<Tree>,
    refusals: Refusals,
    proofs: Seq<(Seq<char>, Proof<Seq<char>>)>,
    old_branch: Option<Seq<char>>,
    found: Seq<Meaning>,
)
    ensures
        !harms(
            #[trigger] stale_offers_spec(rest, stale, trees, refusals, proofs, old_branch, found),
        ),
    decreases stale.len(),
{
    if stale.len() > 0 {
        let others = stale.drop_first();
        let holder = first_of(trees, holding(stale[0].name));
        lemma_stale_offers(rest, others, trees, refusals, proofs, old_branch, found);
        match holder_dirty_spec(rest, holder) {
            Progress::Waiting(_) => {},
            Progress::Finished(dirty, left) => {
                let offer = stale_offer(
                    found.len(),
                    stale[0],
                    holder,
                    dirty,
                    refusals,
                    proofs,
                    old_branch,
                );
                lemma_stale_offers(
                    left,
                    others,
                    trees,
                    refusals,
                    proofs,
                    old_branch,
                    found.push(offer),
                );
            },
        }
    }
}

/// Assessing worktrees changes nothing: not by listing them, not by looking
/// into them, and not by finding the one that a name stands for.
pub proof fn assessing_worktrees_is_harmless(
    rest: Seq<Answer>,
    trees: Seq<Tree>,
    cwd: Option<Seq<char>>,
    assessment: AssessmentModel,
    name: Seq<char>,
)
    ensures
        !harms(worktree_list_in_spec(rest, None)),
        !harms(assess_worktrees_spec(rest, trees, cwd)),
        !harms(named_offer_spec(rest, assessment, name)),
{
    broadcast use {lemma_unmerged_branches, lemma_worktree_offers};

}

/// Assessing stale branches changes nothing that anybody can see: not by
/// finding them, nor by proving what they hold to be elsewhere.
pub proof fn assessing_stale_branches_is_harmless(
    rest: Seq<Answer>,
    stale: Seq<StaleBranch<Seq<char>>>,
    trees: Seq<Tree>,
    remote: Seq<char>,
    old_branch: Option<Seq<char>>,
    destination: Option<Seq<char>>,
)
    ensures
        !harms(stale_branches_spec(rest, remote)),
        !harms(assess_stale_spec(rest, stale, trees, remote, old_branch, destination)),
{
    broadcast use {lemma_unmerged_branches, lemma_proofs_for, lemma_stale_offers};

}

proof fn lemma_prepare_each(
    rest: Seq<Answer>,
    offers: Seq<Meaning>,
    strict: bool,
    found: Seq<br::Found>,
)
    ensures
        !harms(br::prepare_each(rest, offers, strict, found)),
    decreases offers.len(),
{
    if offers.len() > 0 {
        match br::prepare_spec(rest, offers[0].name, strict) {
            Progress::Finished(Ok(one), left) => {
                lemma_prepare_each(left, offers.drop_first(), strict, found.push(one));
            },
            _ => {},
        }
    }
}

/// Assessing branches changes nothing: not by listing them, nor by looking at
/// their upstreams on the server.
pub proof fn assessing_branches_is_harmless(
    rest: Seq<Answer>,
    names: Words,
    trees: Seq<Tree>,
    offers: Seq<Meaning>,
    options: BranchRemoval<Seq<char>>,
    interactive: bool,
)
    ensures
        !harms(git::local_branches_spec(rest)),
        !harms(worktree_list_in_spec(rest, None)),
        !harms(assess_branches_spec(rest, names, trees)),
        !harms(br::prepared_spec(rest, offers, options, interactive)),
{
    broadcast use lemma_unmerged_branches;

    lemma_prepare_each(
        rest,
        offers,
        options.upstream && options.target is Some,
        Seq::empty(),
    );
}

} // verus!
