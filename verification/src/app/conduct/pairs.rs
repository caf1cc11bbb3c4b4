//! `br rm`: the upstream beside the local branch.
use vstd::prelude::*;
use vstd::string::*;

use crate::app::br::{
    candidates, choose_upstreams_spec, prepare_each, prepare_spec, prepared_spec,
    remove_pair_spec, remove_pairs, Found, Prepared,
};
use crate::app::removal::assess::{
    assess_branches_spec, assess_stale_spec, assess_worktrees_spec, at_risk, holder_dirty_spec,
    proofs_for_spec, stale_offer, stale_offers_spec, sweep_dir, sweepable, worktree_offer,
    worktree_offers_spec, Meaning, Refusals, Stale,
};
use crate::app::wt::{dirty_spec, main_of_spec};
use crate::ask::args3;
use crate::error::{Error, Meant};
use crate::git::refs::unmerged_branches_spec;
use crate::git::upstream::{
    inspect_upstream_spec, same_named_upstream_spec, UpstreamInspection, UpstreamRef,
};
use crate::git::worktrees::{holding, Tree};
use crate::git::{Proof, RemoteBranch};
use crate::grammar::{BranchRemoval, Words};
use crate::rows::{first_of, keep_map};
use crate::talk::{Answer, Progress};
use crate::text;

use super::steps::printed;
use super::{fails, runs_words, went_well};

verus! {

// ---------------------------------------------------------------------------
// Finding an upstream
// ---------------------------------------------------------------------------

/// An upstream that could go is one that the branch tracks under its own name,
/// on a remote that git names for it, and at the tip that the server gives for
/// it now. Its own line of git's listing says so, and another line that
/// something else is the server's default.
pub proof fn a_candidate_is_the_branchs_own_upstream(
    rest: Seq<Answer>,
    branch: Seq<char>,
    strict: bool,
)
    ensures
        runs_words(
            prepare_spec(Seq::empty(), branch, strict),
            None,
            args3(
                "for-each-ref"@,
                "--format=%(refname:short)%09%(upstream:remotename)%09%(upstream:remoteref)"@,
                "refs/heads/"@ + branch,
            ),
        ),
        prepare_spec(rest, branch, strict) matches Progress::Finished(
            Ok(Prepared::Candidate(found)),
            _,
        ) ==> {
            &&& found.branch == branch
            &&& rest.len() > 1 && went_well(rest[0]) && went_well(rest[1])
            &&& names_upstream(text::lines(printed(rest[0])), branch, found.remote)
            &&& lists_tip(text::lines(printed(rest[1])), branch, found.tip)
            &&& lists_another_default(text::lines(printed(rest[1])), branch)
        },
{
    if rest.len() > 1 && went_well(rest[0]) && went_well(rest[1]) {
        let lines = text::lines(printed(rest[0]));
        lemma_first_named(lines, branch);
        let listed = text::lines(printed(rest[1]));
        lemma_last_tip(listed, branch);
        lemma_last_symref(listed);
    }
}

/// Whether a line says that a branch tracks its namesake on a remote.
pub open spec fn names_upstream(lines: Words, branch: Seq<char>, remote: Seq<char>) -> bool {
    exists|i: int|
        0 <= i < lines.len() && ({
            let fields = text::split(#[trigger] lines[i], '\t');
            fields.len() >= 3 && fields[0] == branch && fields[1] == remote && fields[2]
                == "refs/heads/"@ + branch
        }) && remote.len() > 0 && remote != "."@
}

/// Whether a line gives the tip of a branch.
pub open spec fn lists_tip(lines: Words, branch: Seq<char>, tip: Seq<char>) -> bool {
    exists|i: int|
        0 <= i < lines.len() && text::split_once(#[trigger] lines[i], '\t') == Some(
            (tip, "refs/heads/"@ + branch),
        )
}

/// Whether a line says that another branch is the server's default.
pub open spec fn lists_another_default(lines: Words, branch: Seq<char>) -> bool {
    exists|i: int, target: Seq<char>|
        0 <= i < lines.len() && target != "refs/heads/"@ + branch && #[trigger] says_default(
            lines[i],
            target,
        )
}

/// Whether a line says what the server's HEAD stands for.
pub open spec fn says_default(line: Seq<char>, target: Seq<char>) -> bool {
    text::starts_with(line, "ref: "@) && text::split_once(line.skip("ref: "@.len() as int), '\t')
        == Some((target, "HEAD"@))
}

proof fn lemma_first_named(lines: Words, branch: Seq<char>)
    ensures
        first_of(lines, crate::git::upstream::same_named(branch)) matches Some(upstream)
            ==> upstream.branch == branch && names_upstream(lines, branch, upstream.remote),
    decreases lines.len(),
{
    if lines.len() > 0 {
        let others = lines.drop_first();
        lemma_first_named(others, branch);
        match crate::git::upstream::same_named(branch)(lines[0]) {
            Some(upstream) => {
                assert(names_upstream(lines, branch, upstream.remote)) by {
                    assert(lines[0] == lines[0]);
                }
            },
            None => {
                match first_of(others, crate::git::upstream::same_named(branch)) {
                    Some(upstream) => {
                        let remote = upstream.remote;
                        let i = choose|i: int|
                            0 <= i < others.len() && ({
                                let fields = text::split(#[trigger] others[i], '\t');
                                fields.len() >= 3 && fields[0] == branch && fields[1] == remote
                                    && fields[2] == "refs/heads/"@ + branch
                            }) && remote.len() > 0 && remote != "."@;
                        assert(lines[i + 1] == others[i]);
                    },
                    None => {},
                }
            },
        }
    }
}

proof fn lemma_last_tip(lines: Words, branch: Seq<char>)
    ensures
        crate::rows::last_of(lines, crate::git::upstream::tip_of("refs/heads/"@ + branch)) matches Some(
            tip,
        ) ==> lists_tip(lines, branch, tip),
    decreases lines.len(),
{
    if lines.len() > 0 {
        let before = lines.drop_last();
        lemma_last_tip(before, branch);
        let f = crate::git::upstream::tip_of("refs/heads/"@ + branch);
        assert(lines[lines.len() - 1] == lines.last());
        if f(lines.last()) is None {
            match crate::rows::last_of(before, f) {
                Some(tip) => {
                    let i = choose|i: int|
                        0 <= i < before.len() && text::split_once(#[trigger] before[i], '\t')
                            == Some((tip, "refs/heads/"@ + branch));
                    assert(lines[i] == before[i]);
                },
                None => {},
            }
        }
    }
}

proof fn lemma_last_symref(lines: Words)
    ensures
        crate::rows::last_of(lines, crate::git::upstream::symref_in()) matches Some(target)
            ==> exists|i: int| 0 <= i < lines.len() && says_default(#[trigger] lines[i], target),
    decreases lines.len(),
{
    if lines.len() > 0 {
        let before = lines.drop_last();
        lemma_last_symref(before);
        let f = crate::git::upstream::symref_in();
        assert(lines[lines.len() - 1] == lines.last());
        if f(lines.last()) is None {
            match crate::rows::last_of(before, f) {
                Some(target) => {
                    let i = choose|i: int|
                        0 <= i < before.len() && says_default(#[trigger] before[i], target);
                    assert(lines[i] == before[i]);
                },
                None => {},
            }
        }
    }
}

/// Whether what was found belongs to what was offered, one for one: an upstream
/// that could go is the namesake of the branch beside it.
pub open spec fn belong_together(found: Seq<Found>, offers: Seq<Meaning>) -> bool {
    found.len() == offers.len() && forall|i: int|
        0 <= i < found.len() ==> (#[trigger] found[i] matches Prepared::Candidate(branch)
            ==> branch.branch == offers[i].name)
}

proof fn lemma_prepare_each(
    rest: Seq<Answer>,
    done: Seq<Meaning>,
    offers: Seq<Meaning>,
    strict: bool,
    found: Seq<Found>,
)
    requires
        belong_together(found, done),
    ensures
        prepare_each(rest, offers, strict, found) matches Progress::Finished(Ok(all), _)
            ==> belong_together(all, done + offers),
    decreases offers.len(),
{
    if offers.len() == 0 {
        assert(done + offers =~= done);
    } else {
        let others = offers.drop_first();
        a_candidate_is_the_branchs_own_upstream(rest, offers[0].name, strict);
        match prepare_spec(rest, offers[0].name, strict) {
            Progress::Finished(Ok(one), left) => {
                let more = found.push(one);
                let so_far = done.push(offers[0]);
                assert forall|i: int| 0 <= i < more.len() implies (#[trigger] more[i]
                    matches Prepared::Candidate(branch) ==> branch.branch == so_far[i].name) by {
                    if i < found.len() {
                        assert(more[i] == found[i]);
                        assert(so_far[i] == done[i]);
                    }
                }
                lemma_prepare_each(left, so_far, others, strict, more);
                assert(so_far + others =~= done + offers);
            },
            _ => {},
        }
    }
}

/// What is found of the upstreams stands in the order of the branches: each
/// that could go is the namesake of the local branch that it will follow.
pub proof fn every_upstream_stands_beside_its_branch(
    rest: Seq<Answer>,
    offers: Seq<Meaning>,
    options: BranchRemoval<Seq<char>>,
    interactive: bool,
)
    ensures
        prepared_spec(rest, offers, options, interactive) matches Progress::Finished(Ok(found), _)
            ==> belong_together(found, offers),
{
    let none: Seq<Meaning> = Seq::empty();
    lemma_prepare_each(
        rest,
        none,
        offers,
        options.upstream && options.target is Some,
        Seq::empty(),
    );
    assert(none + offers =~= offers);
}

// ---------------------------------------------------------------------------
// Choosing
// ---------------------------------------------------------------------------

/// Without force an upstream goes only where somebody can be asked: where
/// nobody can, any upstream that could go makes it an error. With force all of
/// them go, and nobody is asked.
pub proof fn upstreams_need_an_answer_or_force(
    rest: Seq<Answer>,
    options: BranchRemoval<Seq<char>>,
    interactive: bool,
    found: Seq<Found>,
    i: int,
)
    requires
        0 <= i < found.len(),
        found[i] is Candidate,
    ensures
        options.force ==> (choose_upstreams_spec(rest, options, interactive, found)
            matches Progress::Finished(Ok(Some(chosen)), left) && left == rest && chosen.contains(
            found[i]->Candidate_0,
        )),
        !options.force && !interactive ==> fails(
            choose_upstreams_spec(rest, options, interactive, found),
        ),
        !options.force && interactive && rest.len() == 0 ==> choose_upstreams_spec(
            rest,
            options,
            interactive,
            found,
        ) is Waiting,
{
    crate::rows::lemma_keep_map_from(
        found,
        crate::app::br::candidate(),
        found[i]->Candidate_0,
    );
    assert(crate::app::br::candidate()(found[i]) == Some(found[i]->Candidate_0));
    assert(candidates(found).contains(found[i]->Candidate_0));
}

/// An upstream that was asked for together with a named branch has to be there
/// and has to be removable: where the branch tracks no namesake, where it
/// cannot be looked at, and where it is the server's default or that is not
/// known, it is an error, before anything is removed. Where it was not asked for
/// like that, none of this is.
pub proof fn a_wanted_upstream_has_to_be_removable(
    rest: Seq<Answer>,
    offer: Meaning,
    options: BranchRemoval<Seq<char>>,
    interactive: bool,
    upstream: Meant<Option<UpstreamRef<Seq<char>>>>,
    looked: Seq<Answer>,
)
    requires
        options.upstream,
        same_named_upstream_spec(rest, offer.name) == Progress::Finished(upstream, looked),
    ensures
        ({
            let run = prepared_spec(rest, Seq::empty().push(offer), options, interactive);
            let named = options.target is Some;
            let seen = match upstream {
                Ok(Some(at)) => inspect_upstream_spec(looked, at),
                _ => Progress::Finished(
                    Err::<UpstreamInspection<Seq<char>>, Error<Seq<char>>>(Error::NoBranches),
                    looked,
                ),
            };
            let unfit = match seen {
                Progress::Finished(Ok(UpstreamInspection::Removable(_)), _) => false,
                Progress::Finished(Ok(UpstreamInspection::Absent(_)), _) => false,
                _ => true,
            };
            &&& named && seen is Finished && unfit ==> fails(run)
            &&& !named ==> !fails(run)
        }),
{
    let one = Seq::empty().push(offer);
    assert(one.drop_first() =~= Seq::empty());
    reveal_with_fuel(crate::app::br::prepare_each, 2);
}

/// Where an upstream was wanted and could not be looked at, its local branch
/// stays too: git is not run for either.
pub proof fn a_branch_stays_with_an_upstream_not_seen(
    rest: Seq<Answer>,
    offer: Meaning,
    why: Error<Seq<char>>,
    chosen: Seq<RemoteBranch<Seq<char>>>,
    options: BranchRemoval<Seq<char>>,
    dir: Option<Seq<char>>,
)
    requires
        options.upstream,
    ensures
        remove_pair_spec(rest, offer, Prepared::Failed(why), chosen, options, dir)
            matches Progress::Waiting(request) ==> request is Tell,
        remove_pair_spec(rest, offer, Prepared::Failed(why), chosen, options, dir)
            matches Progress::Finished(result, _) ==> result == Meant::<bool>::Ok(false),
{
}

/// A removal of pairs succeeds only if every pair did, and only if all had
/// before.
pub proof fn one_failed_pair_fails_the_whole(
    rest: Seq<Answer>,
    offers: Seq<Meaning>,
    found: Seq<Found>,
    chosen: Seq<RemoteBranch<Seq<char>>>,
    options: BranchRemoval<Seq<char>>,
    dir: Option<Seq<char>>,
    all: bool,
)
    ensures
        remove_pairs(rest, offers, found, chosen, options, dir, all) matches Progress::Finished(
            Ok(done),
            _,
        ) ==> (!all ==> !done) && (offers.len() > 0 && (remove_pair_spec(
            rest,
            offers[0],
            found[0],
            chosen,
            options,
            dir,
        ) matches Progress::Finished(Ok(false), _)) ==> !done),
    decreases offers.len(),
{
    if offers.len() > 0 {
        match remove_pair_spec(rest, offers[0], found[0], chosen, options, dir) {
            Progress::Finished(Ok(done), left) => {
                one_failed_pair_fails_the_whole(
                    left,
                    offers.drop_first(),
                    found.drop_first(),
                    chosen,
                    options,
                    dir,
                    all && done,
                );
            },
            _ => {},
        }
    }
}

// ---------------------------------------------------------------------------
// Numbering
// ---------------------------------------------------------------------------

/// Whether offers are numbered by their rows.
pub open spec fn are_numbered(offers: Seq<Meaning>) -> bool {
    offers.len() <= usize::MAX ==> forall|i: int|
        0 <= i < offers.len() ==> (#[trigger] offers[i]).id == i
}

proof fn lemma_one_more(found: Seq<Meaning>, offer: Meaning)
    requires
        are_numbered(found),
        found.len() <= usize::MAX ==> offer.id == found.len() as usize,
    ensures
        are_numbered(found.push(offer)),
{
    let more = found.push(offer);
    if more.len() <= usize::MAX {
        assert forall|i: int| 0 <= i < more.len() implies (#[trigger] more[i]).id == i by {
            if i < found.len() {
                assert(more[i] == found[i]);
            }
        }
    }
}

proof fn lemma_worktree_offers_numbered(
    rest: Seq<Answer>,
    trees: Seq<Tree>,
    refusals: Refusals,
    found: Seq<Meaning>,
)
    requires
        are_numbered(found),
    ensures
        worktree_offers_spec(rest, trees, refusals, found) matches Progress::Finished(offers, _)
            ==> are_numbered(offers),
    decreases trees.len(),
{
    if trees.len() > 0 {
        let others = trees.drop_first();
        if trees[0].is_main {
            lemma_worktree_offers_numbered(rest, others, refusals, found);
        } else {
            match dirty_spec(rest, trees[0]) {
                Progress::Waiting(_) => {},
                Progress::Finished(dirty, left) => {
                    let offer = worktree_offer(found.len(), trees[0], dirty, refusals);
                    lemma_one_more(found, offer);
                    lemma_worktree_offers_numbered(left, others, refusals, found.push(offer));
                },
            }
        }
    }
}

proof fn lemma_stale_offers_numbered(
    rest: Seq<Answer>,
    swept: Seq<Stale>,
    trees: Seq<Tree>,
    refusals: Refusals,
    proofs: Seq<(Seq<char>, Proof<Seq<char>>)>,
    old_branch: Option<Seq<char>>,
    found: Seq<Meaning>,
)
    requires
        are_numbered(found),
    ensures
        stale_offers_spec(rest, swept, trees, refusals, proofs, old_branch, found)
            matches Progress::Finished(offers, _) ==> are_numbered(offers),
    decreases swept.len(),
{
    if swept.len() > 0 {
        let others = swept.drop_first();
        let holder = first_of(trees, holding(swept[0].name));
        lemma_stale_offers_numbered(rest, others, trees, refusals, proofs, old_branch, found);
        match holder_dirty_spec(rest, holder) {
            Progress::Waiting(_) => {},
            Progress::Finished(dirty, left) => {
                let offer = stale_offer(
                    found.len(),
                    swept[0],
                    holder,
                    dirty,
                    refusals,
                    proofs,
                    old_branch,
                );
                lemma_one_more(found, offer);
                lemma_stale_offers_numbered(
                    left,
                    others,
                    trees,
                    refusals,
                    proofs,
                    old_branch,
                    found.push(offer),
                );
            },
        }
    }
}

/// Whatever is assessed, the offers are numbered by their rows.
pub proof fn offers_are_numbered_by_their_rows(
    rest: Seq<Answer>,
    names: Words,
    trees: Seq<Tree>,
    cwd: Option<Seq<char>>,
    stale: Seq<Stale>,
    remote: Seq<char>,
    old_branch: Option<Seq<char>>,
    destination: Option<Seq<char>>,
)
    ensures
        assess_worktrees_spec(rest, trees, cwd) matches Progress::Finished(Ok(assessment), _)
            ==> are_numbered(assessment.offers),
        assess_branches_spec(rest, names, trees) matches Progress::Finished(Ok(assessment), _)
            ==> are_numbered(assessment.offers),
        assess_stale_spec(rest, stale, trees, remote, old_branch, destination)
            matches Progress::Finished(Ok(assessment), _) ==> are_numbered(assessment.offers),
{
    let none: Seq<Meaning> = Seq::empty();
    assert(are_numbered(none));
    match main_of_spec(trees) {
        Ok(main) => match unmerged_branches_spec(rest, Some(main.path)) {
            Progress::Finished(Ok(refusals), left) => {
                lemma_worktree_offers_numbered(left, trees, refusals, none);
            },
            _ => {},
        },
        Err(_) => {},
    }
    let swept = keep_map(stale, sweepable(destination));
    let dir = sweep_dir(trees);
    match unmerged_branches_spec(rest, dir) {
        Progress::Finished(Ok(refusals), left) => {
            match proofs_for_spec(left, dir, remote, keep_map(swept, at_risk(refusals))) {
                Progress::Finished(proofs, left) => {
                    lemma_stale_offers_numbered(
                        left,
                        swept,
                        trees,
                        refusals,
                        proofs,
                        old_branch,
                        none,
                    );
                },
                Progress::Waiting(_) => {},
            }
        },
        _ => {},
    }
}

} // verus!
