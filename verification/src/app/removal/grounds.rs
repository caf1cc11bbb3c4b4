//! What a ground says, and what it does not.
//!
//! A stale branch is offered on a ground, and its row says which in words. The
//! words are no mark: they warn of nothing, so they license nothing.
use vstd::prelude::*;
use vstd::string::*;

use crate::app::wt::{dirty_spec, main_of_spec};
use crate::error::Meant;
use crate::git::refs::{stale_branches_spec, unmerged_branches_spec};
use crate::git::worktrees::{holding, worktree_list_in_spec, Tree};
use crate::git::Proof;
use crate::grammar::Words;
use crate::rows::{self, first_of, keep_map};
use crate::talk::{Answer, Asked, Progress, Row};
use crate::text;

use super::assess::{
    assess_branches_spec, assess_stale_spec, assess_worktrees_spec, at_risk, detail,
    holder_dirty_spec, legend_spec, marks, named_of, proofs_for_spec, risks, row, rows_spec,
    stale_offer, stale_offers_spec, sweep_dir, sweepable, worktree_offer, worktree_offers_spec,
    Meaning, Refusals, Stale,
};
use super::finish::{
    branch_licensed, finish_each, finish_spec, remove_offer_spec, worktree_licensed,
};
use super::license::{fit_to_sweep, the_destination_is_never_offered};
use super::{listed_or_none, prompt_delete_stale_branches_spec, AssessmentModel, Offer, Subject};

verus! {

// ---------------------------------------------------------------------------
// What is said
// ---------------------------------------------------------------------------

/// Whether a row is that of a stale branch, and starts with the ground that
/// the branch is stale on.
pub open spec fn states_its_ground(row: Row<Seq<char>>, stale: Seq<Stale>) -> bool {
    exists|i: int|
        0 <= i < stale.len() && (#[trigger] stale[i]).name == row.name && text::starts_with(
            row.detail,
            stale[i].ground.words_spec(),
        )
}

proof fn lemma_detail_starts_with_ground(offer: Meaning)
    requires
        offer.held is None,
        offer.ground is Some,
    ensures
        text::starts_with(detail(Subject::Stale, offer), offer.ground->0.words_spec()),
{
    let words = offer.ground->0.words_spec();
    let said = detail(Subject::Stale, offer);
    reveal_strlit("gone");
    reveal_strlit("tracks anchor, ahead");
    reveal_strlit("untracked, tip in anchor");
    assert(said.take(words.len() as int) =~= words);
}

/// Every row of the sweep is that of a stale branch, and starts with the words
/// of its ground.
pub proof fn every_swept_row_states_its_ground(
    rest: Seq<Answer>,
    stale: Seq<Stale>,
    trees: Seq<Tree>,
    remote: Seq<char>,
    old_branch: Option<Seq<char>>,
    destination: Option<Seq<char>>,
)
    ensures
        assess_stale_spec(rest, stale, trees, remote, old_branch, destination)
            matches Progress::Finished(Ok(assessment), _) ==> forall|i: int|
            0 <= i < rows_spec(assessment).len() ==> states_its_ground(
                #[trigger] rows_spec(assessment)[i],
                stale,
            ),
{
    the_destination_is_never_offered(rest, stale, trees, remote, old_branch, destination);
    match assess_stale_spec(rest, stale, trees, remote, old_branch, destination) {
        Progress::Finished(Ok(assessment), _) => {
            assert forall|i: int| 0 <= i < rows_spec(assessment).len() implies states_its_ground(
                #[trigger] rows_spec(assessment)[i],
                stale,
            ) by {
                let offer = assessment.offers[i];
                assert(fit_to_sweep(offer, stale, destination));
                lemma_detail_starts_with_ground(offer);
                let j = choose|j: int|
                    0 <= j < stale.len() && (#[trigger] stale[j]).name == offer.name
                        && offer.ground == Some(stale[j].ground);
                assert(stale[j].name == rows_spec(assessment)[i].name);
            }
        },
        _ => {},
    }
}

/// The cleanup prompt shows the grounds that git's refs gave: once everything
/// is assessed and there is something to offer, what is shown is one row for
/// each offer, and each starts with the ground that its branch was found stale
/// on.
pub proof fn the_prompt_shows_the_grounds_found(
    rest: Seq<Answer>,
    old_branch: Option<Seq<char>>,
    destination: Option<Seq<char>>,
    remote: Seq<char>,
    stale: Seq<Stale>,
    found: Seq<Answer>,
    trees: Meant<Seq<Tree>>,
    listed: Seq<Answer>,
    assessment: AssessmentModel,
    left: Seq<Answer>,
)
    requires
        rest.len() > 0,
        rest[0] == Answer::Flag(true),
        stale_branches_spec(rest.drop_first(), remote) == Progress::<Meant<Seq<Stale>>>::Finished(
            Ok(stale),
            found,
        ),
        worktree_list_in_spec(found, None) == Progress::Finished(trees, listed),
        assess_stale_spec(listed, stale, listed_or_none(trees), remote, old_branch, destination)
            == Progress::<Meant<AssessmentModel>>::Finished(Ok(assessment), left),
        assessment.offers.len() > 0,
        left.len() == 1,
        left[0] == Answer::Flag(true),
    ensures
        prompt_delete_stale_branches_spec(rest, old_branch, destination, remote)
            matches Progress::Waiting(request) && request matches Asked::PickRows {
            rows,
            legend,
            ..
        } && rows == rows_spec(assessment) && legend == legend_spec(assessment.offers) && forall|
            i: int,
        |
            0 <= i < rows.len() ==> states_its_ground(#[trigger] rows[i], stale),
{
    every_swept_row_states_its_ground(
        listed,
        stale,
        listed_or_none(trees),
        remote,
        old_branch,
        destination,
    );
}

/// Whether a stale branch is among some offers, on its own ground.
pub open spec fn offered(offers: Seq<Meaning>, stale: Stale) -> bool {
    exists|i: int|
        0 <= i < offers.len() && (#[trigger] offers[i]).name == stale.name && offers[i].ground
            == Some(stale.ground)
}

/// Whether the main worktree holds a branch.
pub open spec fn held_by_main(trees: Seq<Tree>, name: Seq<char>) -> bool {
    first_of(trees, holding(name)) matches Some(tree) && tree.is_main
}

proof fn lemma_stale_offers_hold(
    rest: Seq<Answer>,
    swept: Seq<Stale>,
    trees: Seq<Tree>,
    refusals: Refusals,
    proofs: Seq<(Seq<char>, Proof<Seq<char>>)>,
    old_branch: Option<Seq<char>>,
    found: Seq<Meaning>,
    one: Stale,
)
    requires
        offered(found, one) || swept.contains(one) && !held_by_main(trees, one.name),
    ensures
        stale_offers_spec(rest, swept, trees, refusals, proofs, old_branch, found)
            matches Progress::Finished(offers, _) ==> offered(offers, one),
    decreases swept.len(),
{
    if swept.len() > 0 {
        let others = swept.drop_first();
        let holder = first_of(trees, holding(swept[0].name));
        if swept.contains(one) && swept[0] != one {
            let at = choose|i: int| 0 <= i < swept.len() && swept[i] == one;
            assert(others[at - 1] == one);
        }
        if held_by_main(trees, swept[0].name) {
            lemma_stale_offers_hold(
                rest,
                others,
                trees,
                refusals,
                proofs,
                old_branch,
                found,
                one,
            );
        } else {
            match holder_dirty_spec(rest, holder) {
                Progress::Waiting(_) => {},
                Progress::Finished(dirty, left) => {
                    let offer = stale_offer(
                        found.len(),
                        swept[0],
                        holder,
                        dirty,
                        refusals,
                        proofs,
                        old_branch,
                    );
                    let more = found.push(offer);
                    assert(more[found.len() as int] == offer);
                    if offered(found, one) {
                        let at = choose|i: int|
                            0 <= i < found.len() && (#[trigger] found[i]).name == one.name
                                && found[i].ground == Some(one.ground);
                        assert(more[at] == found[at]);
                    }
                    lemma_stale_offers_hold(
                        left,
                        others,
                        trees,
                        refusals,
                        proofs,
                        old_branch,
                        more,
                        one,
                    );
                },
            }
        }
    }
}

/// Every stale branch is offered on its own ground, but for the one about to be
/// entered and one that the main worktree holds.
pub proof fn every_stale_branch_is_offered(
    rest: Seq<Answer>,
    stale: Seq<Stale>,
    trees: Seq<Tree>,
    remote: Seq<char>,
    old_branch: Option<Seq<char>>,
    destination: Option<Seq<char>>,
    one: Stale,
)
    requires
        stale.contains(one),
        destination != Some(one.name),
        !held_by_main(trees, one.name),
    ensures
        assess_stale_spec(rest, stale, trees, remote, old_branch, destination)
            matches Progress::Finished(Ok(assessment), _) ==> offered(assessment.offers, one),
{
    let swept = keep_map(stale, sweepable(destination));
    let dir = sweep_dir(trees);
    let at = choose|i: int| 0 <= i < stale.len() && stale[i] == one;
    assert(sweepable(destination)(stale[at]) == Some(one));
    rows::lemma_keep_map_from(stale, sweepable(destination), one);
    match unmerged_branches_spec(rest, dir) {
        Progress::Finished(Ok(refusals), left) => {
            match proofs_for_spec(left, dir, remote, keep_map(swept, at_risk(refusals))) {
                Progress::Finished(proofs, left) => {
                    lemma_stale_offers_hold(
                        left,
                        swept,
                        trees,
                        refusals,
                        proofs,
                        old_branch,
                        Seq::empty(),
                        one,
                    );
                },
                Progress::Waiting(_) => {},
            }
        },
        _ => {},
    }
}

proof fn lemma_worktrees_have_no_ground(
    rest: Seq<Answer>,
    trees: Seq<Tree>,
    refusals: Refusals,
    found: Seq<Meaning>,
)
    requires
        forall|i: int| 0 <= i < found.len() ==> (#[trigger] found[i]).ground is None,
    ensures
        worktree_offers_spec(rest, trees, refusals, found) matches Progress::Finished(offers, _)
            ==> forall|i: int| 0 <= i < offers.len() ==> (#[trigger] offers[i]).ground is None,
    decreases trees.len(),
{
    if trees.len() > 0 {
        let others = trees.drop_first();
        if trees[0].is_main {
            lemma_worktrees_have_no_ground(rest, others, refusals, found);
        } else {
            match dirty_spec(rest, trees[0]) {
                Progress::Waiting(_) => {},
                Progress::Finished(dirty, left) => {
                    let offer = worktree_offer(found.len(), trees[0], dirty, refusals);
                    lemma_worktrees_have_no_ground(left, others, refusals, found.push(offer));
                },
            }
        }
    }
}

/// What is asked for by name needs no ground: only the sweep gives any.
pub proof fn only_the_sweep_gives_grounds(
    rest: Seq<Answer>,
    names: Words,
    trees: Seq<Tree>,
    cwd: Option<Seq<char>>,
)
    ensures
        assess_worktrees_spec(rest, trees, cwd) matches Progress::Finished(Ok(assessment), _)
            ==> forall|i: int|
            0 <= i < assessment.offers.len() ==> (#[trigger] assessment.offers[i]).ground is None,
        assess_branches_spec(rest, names, trees) matches Progress::Finished(Ok(assessment), _)
            ==> forall|i: int|
            0 <= i < assessment.offers.len() ==> (#[trigger] assessment.offers[i]).ground is None,
{
    match main_of_spec(trees) {
        Ok(main) => match unmerged_branches_spec(rest, Some(main.path)) {
            Progress::Finished(Ok(refusals), left) => {
                lemma_worktrees_have_no_ground(left, trees, refusals, Seq::empty());
            },
            _ => {},
        },
        Err(_) => {},
    }
}

// ---------------------------------------------------------------------------
// What is not said
// ---------------------------------------------------------------------------

/// An offer, with nothing said of why it is made.
pub open spec fn groundless(offer: Meaning) -> Meaning {
    Offer { ground: None, ..offer }
}

pub open spec fn all_groundless(offers: Seq<Meaning>) -> Seq<Meaning> {
    Seq::new(offers.len(), |i: int| groundless(offers[i]))
}

/// A ground is no mark: without it a row shows the same marks and can be
/// selected as before, the same is warned of and asked, and the same is
/// licensed.
pub proof fn a_ground_is_not_a_marker(
    rest: Seq<Answer>,
    subject: Subject<Seq<char>>,
    offer: Meaning,
    shown: Seq<char>,
    forced: bool,
    dir: Option<Seq<char>>,
)
    ensures
        marks(subject, groundless(offer)) == marks(subject, offer),
        row(subject, groundless(offer)).selectable == row(subject, offer).selectable,
        row(subject, groundless(offer)).ticked == row(subject, offer).ticked,
        risks(groundless(offer), shown) == risks(offer, shown),
        named_of(groundless(offer), shown) == named_of(offer, shown),
        branch_licensed(groundless(offer), forced) == branch_licensed(offer, forced),
        worktree_licensed(groundless(offer), forced) == worktree_licensed(offer, forced),
        remove_offer_spec(rest, groundless(offer), forced, dir) == remove_offer_spec(
            rest,
            offer,
            forced,
            dir,
        ),
{
}

/// A list explains its marks as if no row stated a ground.
pub proof fn grounds_add_nothing_to_the_legend(offers: Seq<Meaning>)
    ensures
        legend_spec(all_groundless(offers)) == legend_spec(offers),
{
    let bare = all_groundless(offers);
    assert forall|i: int| 0 <= i < offers.len() implies (#[trigger] bare[i]).dirty
        == offers[i].dirty && bare[i].unmerged == offers[i].unmerged by {}
    if super::assess::some_dirty(offers) {
        let i = choose|i: int| 0 <= i < offers.len() && (#[trigger] offers[i]).dirty;
        assert(bare[i].dirty);
    }
    if super::assess::some_unmerged(offers) {
        let i = choose|i: int| 0 <= i < offers.len() && (#[trigger] offers[i]).unmerged is Some;
        assert(bare[i].unmerged is Some);
    }
}

proof fn lemma_finish_each(
    rest: Seq<Answer>,
    offers: Seq<Meaning>,
    forced: bool,
    dir: Option<Seq<char>>,
    all: bool,
)
    ensures
        finish_each(rest, all_groundless(offers), forced, dir, all) == finish_each(
            rest,
            offers,
            forced,
            dir,
            all,
        ),
    decreases offers.len(),
{
    if offers.len() > 0 {
        let others = offers.drop_first();
        a_ground_is_not_a_marker(rest, Subject::Stale, offers[0], Seq::empty(), forced, dir);
        assert(all_groundless(offers).drop_first() =~= all_groundless(others));
        match remove_offer_spec(rest, offers[0], forced, dir) {
            Progress::Finished(Ok(gone), left) => {
                lemma_finish_each(left, others, forced, dir, all && gone);
            },
            _ => {},
        }
    }
}

/// What becomes of what was chosen does not rest on any ground.
pub proof fn grounds_license_nothing(
    rest: Seq<Answer>,
    offers: Seq<Meaning>,
    forced: bool,
    dir: Option<Seq<char>>,
)
    ensures
        finish_spec(rest, all_groundless(offers), forced, dir) == finish_spec(
            rest,
            offers,
            forced,
            dir,
        ),
{
    lemma_finish_each(rest, offers, forced, dir, true);
}

} // verus!
