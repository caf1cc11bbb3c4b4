//! The cleanup prompt and the hand-off behind it.
use vstd::prelude::*;
use vstd::string::*;

use crate::app::removal::assess::{
    assess_stale_spec, at_risk, holder_dirty_spec, proofs_for_spec, row, rows_spec, stale_offer,
    stale_offers_spec, sweep_dir, sweepable, Meaning, Refusals, Stale,
};
use crate::app::removal::finish::finish_spec;
use crate::app::removal::harmless::{assessing_stale_branches_is_harmless, harmless};
use crate::app::removal::license::{fit_to_sweep, the_destination_is_never_offered};
use crate::app::removal::{
    listed_or_none, offer_stale_spec, picked_selection_spec, prompt_delete_stale_branches_spec,
    AssessmentModel,
};
use crate::app::verbs::sweep_and_hand_off_spec;
use crate::error::Meant;
use crate::git::refs::{stale_branches_spec, unmerged_branches_spec};
use crate::git::worktrees::{holding, worktree_list_in_spec, Tree};
use crate::git::Proof;
use crate::rows::{first_of, keep_map};
use crate::talk::{Answer, Asked, Progress};

use super::removing::{concerns_offer, removals_touch_only_what_was_chosen};

verus! {

/// Whether the rows of the next request, if it shows any to tick, leave a
/// branch out, and start out ticked exactly for another.
pub open spec fn rows_respect<T>(
    progress: Progress<T>,
    entered: Option<Seq<char>>,
    just_left: Option<Seq<char>>,
) -> bool {
    progress matches Progress::Waiting(Asked::PickRows { rows, .. }) ==> forall|i: int|
        0 <= i < rows.len() ==> entered != Some((#[trigger] rows[i]).name) && rows[i].ticked == (
        just_left == Some(rows[i].name))
}

/// Whether the next request shows rows to tick, or writes to standard output.
pub open spec fn shows<T>(progress: Progress<T>) -> bool {
    progress matches Progress::Waiting(request) && (request is PickRows || request is Print)
}

/// Whether the next request, if it writes to standard output, writes a path as
/// a line of its own.
pub open spec fn prints_only<T>(progress: Progress<T>, path: Seq<char>) -> bool {
    progress matches Progress::Waiting(Asked::Print(text)) ==> text == path + "\n"@
}

proof fn lemma_stale_offers_ticked(
    rest: Seq<Answer>,
    swept: Seq<Stale>,
    trees: Seq<Tree>,
    refusals: Refusals,
    proofs: Seq<(Seq<char>, Proof<Seq<char>>)>,
    old_branch: Option<Seq<char>>,
    found: Seq<Meaning>,
)
    requires
        forall|i: int|
            0 <= i < found.len() ==> (#[trigger] found[i]).ticked == (old_branch == Some(
                found[i].name,
            )),
    ensures
        stale_offers_spec(rest, swept, trees, refusals, proofs, old_branch, found)
            matches Progress::Finished(offers, _) ==> forall|i: int|
            0 <= i < offers.len() ==> (#[trigger] offers[i]).ticked == (old_branch == Some(
                offers[i].name,
            )),
    decreases swept.len(),
{
    if swept.len() > 0 {
        let others = swept.drop_first();
        let holder = first_of(trees, holding(swept[0].name));
        lemma_stale_offers_ticked(rest, others, trees, refusals, proofs, old_branch, found);
        match holder_dirty_spec(rest, holder) {
            Progress::Waiting(_) => {},
            Progress::Finished(dirty, left) => {
                let offer = stale_offer(
                    found.len(),
                    swept[0],
                    holder,
                    dirty,
                    refusals,
                    proofs,
                    old_branch,
                );
                lemma_stale_offers_ticked(
                    left,
                    others,
                    trees,
                    refusals,
                    proofs,
                    old_branch,
                    found.push(offer),
                );
            },
        }
    }
}

proof fn lemma_assessed_ticked(
    rest: Seq<Answer>,
    stale: Seq<Stale>,
    trees: Seq<Tree>,
    remote: Seq<char>,
    old_branch: Option<Seq<char>>,
    destination: Option<Seq<char>>,
)
    ensures
        assess_stale_spec(rest, stale, trees, remote, old_branch, destination)
            matches Progress::Finished(Ok(assessment), _) ==> forall|i: int|
            0 <= i < assessment.offers.len() ==> (#[trigger] assessment.offers[i]).ticked == (
            old_branch == Some(assessment.offers[i].name)),
{
    let swept = keep_map(stale, sweepable(destination));
    let dir = sweep_dir(trees);
    match unmerged_branches_spec(rest, dir) {
        Progress::Finished(Ok(refusals), left) => {
            match proofs_for_spec(left, dir, remote, keep_map(swept, at_risk(refusals))) {
                Progress::Finished(proofs, left) => {
                    lemma_stale_offers_ticked(
                        left,
                        swept,
                        trees,
                        refusals,
                        proofs,
                        old_branch,
                        Seq::empty(),
                    );
                },
                Progress::Waiting(_) => {},
            }
        },
        _ => {},
    }
}

proof fn lemma_finish_shows_nothing(
    rest: Seq<Answer>,
    offers: Seq<Meaning>,
    forced: bool,
    dir: Option<Seq<char>>,
)
    ensures
        !shows(finish_spec(rest, offers, forced, dir)),
{
    removals_touch_only_what_was_chosen(rest, offers, forced, dir, true);
}

/// The cleanup prompt never lists the branch that is being entered, and the
/// branch just left is the only one whose row starts out ticked.
#[verifier::spinoff_prover]
#[verifier::rlimit(40)]
pub proof fn the_prompt_leaves_out_what_is_entered(
    rest: Seq<Answer>,
    just_left: Option<Seq<char>>,
    entered: Option<Seq<char>>,
    remote: Seq<char>,
)
    ensures
        rows_respect(
            prompt_delete_stale_branches_spec(rest, just_left, entered, remote),
            entered,
            just_left,
        ),
        !(prompt_delete_stale_branches_spec(rest, just_left, entered, remote)
            matches Progress::Waiting(Asked::Print(_))),
{
    if rest.len() > 0 && rest[0] == Answer::Flag(true) {
        let none: Seq<Stale> = Seq::empty();
        let after = rest.drop_first();
        assessing_stale_branches_is_harmless(
            after,
            none,
            Seq::empty(),
            remote,
            just_left,
            entered,
        );
        match stale_branches_spec(after, remote) {
            Progress::Finished(Ok(stale), found) => {
                match worktree_list_in_spec(found, None) {
                    Progress::Finished(trees, listed) => {
                        let seen = listed_or_none(trees);
                        assessing_stale_branches_is_harmless(
                            listed,
                            stale,
                            seen,
                            remote,
                            just_left,
                            entered,
                        );
                        the_destination_is_never_offered(
                            listed,
                            stale,
                            seen,
                            remote,
                            just_left,
                            entered,
                        );
                        lemma_assessed_ticked(listed, stale, seen, remote, just_left, entered);
                        match assess_stale_spec(listed, stale, seen, remote, just_left, entered) {
                            Progress::Finished(Ok(assessment), left) => {
                                lemma_offered(left, assessment, entered, just_left, stale);
                            },
                            _ => {},
                        }
                    },
                    Progress::Waiting(_) => {},
                }
            },
            _ => {},
        }
    }
}

#[verifier::spinoff_prover]
#[verifier::rlimit(40)]
proof fn lemma_offered(
    rest: Seq<Answer>,
    assessment: AssessmentModel,
    entered: Option<Seq<char>>,
    just_left: Option<Seq<char>>,
    stale: Seq<Stale>,
)
    requires
        forall|i: int|
            0 <= i < assessment.offers.len() ==> fit_to_sweep(
                #[trigger] assessment.offers[i],
                stale,
                entered,
            ),
        forall|i: int|
            0 <= i < assessment.offers.len() ==> (#[trigger] assessment.offers[i]).ticked == (
            just_left == Some(assessment.offers[i].name)),
    ensures
        rows_respect(offer_stale_spec(rest, assessment), entered, just_left),
        !(offer_stale_spec(rest, assessment) matches Progress::Waiting(Asked::Print(_))),
{
    let rows = rows_spec(assessment);
    assert forall|i: int| 0 <= i < rows.len() implies entered != Some((#[trigger] rows[i]).name)
        && rows[i].ticked == (just_left == Some(rows[i].name)) by {
        assert(fit_to_sweep(assessment.offers[i], stale, entered));
    }
    assert forall|left: Seq<Answer>, offers: Seq<Meaning>, forced: bool|
        !shows(#[trigger] finish_spec(left, offers, forced, assessment.dir)) by {
        lemma_finish_shows_nothing(left, offers, forced, assessment.dir);
    }
}

/// What the cleanup prompt has git do: it reads, it proves what it may delete,
/// and it removes what was ticked. It never checks anything out, nor does it
/// fetch, push, or move a branch.
#[verifier::spinoff_prover]
#[verifier::rlimit(40)]
pub proof fn the_prompt_only_reads_and_removes(
    rest: Seq<Answer>,
    just_left: Option<Seq<char>>,
    entered: Option<Seq<char>>,
    remote: Seq<char>,
)
    ensures
        prompt_delete_stale_branches_spec(rest, just_left, entered, remote)
            matches Progress::Waiting(request) ==> {
            ||| harmless(request)
            ||| request is Interactive || request is PickRows
            ||| exists|offer: Meaning, dir: Option<Seq<char>>|
                #[trigger] concerns_offer(request, offer, false, dir)
        },
{
    if rest.len() > 0 && rest[0] == Answer::Flag(true) {
        let none: Seq<Stale> = Seq::empty();
        let after = rest.drop_first();
        assessing_stale_branches_is_harmless(
            after,
            none,
            Seq::empty(),
            remote,
            just_left,
            entered,
        );
        match stale_branches_spec(after, remote) {
            Progress::Finished(Ok(stale), found) => {
                match worktree_list_in_spec(found, None) {
                    Progress::Finished(trees, listed) => {
                        let seen = listed_or_none(trees);
                        assessing_stale_branches_is_harmless(
                            listed,
                            stale,
                            seen,
                            remote,
                            just_left,
                            entered,
                        );
                        match assess_stale_spec(listed, stale, seen, remote, just_left, entered) {
                            Progress::Finished(Ok(assessment), left) => {
                                lemma_offered_concerns(left, assessment);
                            },
                            _ => {},
                        }
                    },
                    Progress::Waiting(_) => {},
                }
            },
            _ => {},
        }
    }
}

#[verifier::spinoff_prover]
#[verifier::rlimit(40)]
proof fn lemma_offered_concerns(rest: Seq<Answer>, assessment: AssessmentModel)
    ensures
        offer_stale_spec(rest, assessment) matches Progress::Waiting(request) ==> {
            ||| request is Interactive || request is PickRows
            ||| exists|offer: Meaning, dir: Option<Seq<char>>|
                #[trigger] concerns_offer(request, offer, false, dir)
        },
{
    match picked_selection_spec(
        rest,
        assessment,
        false,
        "Delete stale branches (space to toggle, →/← all/none)"@,
    ) {
        Progress::Finished(Ok(Some(selection)), left) => {
            removals_touch_only_what_was_chosen(
                left,
                selection.offers,
                false,
                assessment.dir,
                true,
            );
        },
        _ => {},
    }
}

/// Before the shell is handed a worktree, the branch that it goes to is not
/// offered for deletion, and nothing starts out ticked. What is handed over is
/// the path given, and nothing else is ever printed.
#[verifier::spinoff_prover]
#[verifier::rlimit(40)]
pub proof fn a_handoff_never_offers_where_it_leads(
    rest: Seq<Answer>,
    destination: Seq<char>,
    remote: Seq<char>,
    path: Option<Seq<char>>,
)
    ensures
        rows_respect(
            sweep_and_hand_off_spec(rest, destination, remote, path),
            Some(destination),
            None,
        ),
        sweep_and_hand_off_spec(rest, destination, remote, path) matches Progress::Waiting(
            Asked::Print(text),
        ) ==> path is Some && text == path->0 + "\n"@,
{
    the_prompt_leaves_out_what_is_entered(rest, None, Some(destination), remote);
}

/// Once the cleanup prompt has ended well the path is handed over: printed as a
/// line where standard output is not a terminal.
#[verifier::spinoff_prover]
#[verifier::rlimit(40)]
pub proof fn the_handoff_follows_the_prompt(
    rest: Seq<Answer>,
    destination: Seq<char>,
    remote: Seq<char>,
    path: Seq<char>,
    left: Seq<Answer>,
)
    requires
        prompt_delete_stale_branches_spec(rest, None, Some(destination), remote) == Progress::<
            Meant<()>,
        >::Finished(Ok(()), left),
    ensures
        ({
            let run = sweep_and_hand_off_spec(rest, destination, remote, Some(path));
            &&& left.len() == 0 ==> run == Progress::<Meant<()>>::Waiting(Asked::StdoutIsTerminal)
            &&& left.len() == 1 && left[0] == Answer::Flag(false) ==> run == Progress::<
                Meant<()>,
            >::Waiting(Asked::Print(path + "\n"@))
            &&& left.len() > 1 && left[0] == Answer::Flag(false) ==> run == Progress::<
                Meant<()>,
            >::Finished(Ok(()), left.drop_first().drop_first())
        }),
{
}

} // verus!
