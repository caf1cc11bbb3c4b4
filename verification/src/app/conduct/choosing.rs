//! What the user chose: by a key, by ticking rows, or by a name.
use vstd::prelude::*;
use vstd::string::*;

use crate::app::br::{
    ask_one_spec, ask_several_spec, candidates, follow_spec, prepared_spec, remove_pair_spec,
    remove_pairs, remove_selected_spec, Found, Prepared,
};
use crate::app::prompts::{confirm_keys, confirm_spec, Confirmation};
use crate::app::removal::assess::{answers, row, Meaning};
use crate::app::removal::finish::finish_spec;
use crate::app::removal::{
    named_removal_choice_spec, offer_stale_spec, picked_rows, picked_selection_spec, ticked,
    warned, AssessmentModel, ChoiceModel, NamedOfferModel, SelectionModel,
};
use crate::app::update::reconcile_diverged_spec;
use crate::ask::{args5, args6};
use crate::error::Meant;
use crate::git::RemoteBranch;
use crate::grammar::{BranchRemoval, Words};
use crate::rows::{self, keep_map};
use crate::talk::{Answer, Asked, Key, Progress};

use super::going::lemma_confirm_runs_nothing;
use super::removing::{
    concerns_branch, concerns_offer, lemma_remove_branch, removals_touch_only_what_was_chosen,
};
use super::{
    git_args, git_dir, left_of, lemma_left_after_one, lemma_left_of_itself, lemma_left_of_left,
    lemma_pressed_in_what_is_left, lemma_spelled, letter, pressed, runs_command, was_pressed,
};

verus! {

// ---------------------------------------------------------------------------
// Keys
// ---------------------------------------------------------------------------

/// A key that answers no question.
pub open spec fn answers_nothing(answer: Answer) -> bool {
    answer matches Answer::Pressed(Ok(key)) && key != Key::Escape && key != Key::Enter && !letter(
        answer,
        'y',
        'Y',
    ) && !letter(answer, 'n', 'N')
}

proof fn lemma_confirm_keys_pass(rest: Seq<Answer>, default_yes: bool, n: nat)
    requires
        n <= rest.len(),
        forall|i: int| 0 <= i < n ==> answers_nothing(#[trigger] rest[i]),
    ensures
        confirm_keys(rest, default_yes) == confirm_keys(rest.skip(n as int), default_yes),
    decreases n,
{
    if n == 0 {
        assert(rest.skip(0) =~= rest);
    } else {
        let after = rest.drop_first();
        assert(answers_nothing(rest[0]));
        assert forall|i: int| 0 <= i < n - 1 implies answers_nothing(#[trigger] after[i]) by {
            assert(after[i] == rest[i + 1]);
        }
        lemma_confirm_keys_pass(after, default_yes, (n - 1) as nat);
        assert(after.skip(n - 1) =~= rest.skip(n as int));
    }
}

/// A question is answered by the first key that answers it: `y` accepts, `n`
/// declines, Escape cancels, and Enter gives the answer that the question
/// proposes.
pub proof fn a_question_is_answered_by_its_key(
    rest: Seq<Answer>,
    question: Seq<char>,
    default_yes: bool,
    n: nat,
)
    requires
        rest.len() > 3 + n,
        rest[0] == Answer::Flag(true),
        forall|i: int| 2 <= i < 2 + n ==> answers_nothing(#[trigger] rest[i]),
        rest[2 + n as int] is Pressed && rest[2 + n as int]->Pressed_0 is Ok && !answers_nothing(
            rest[2 + n as int],
        ),
    ensures
        confirm_spec(rest, question, default_yes) == Progress::<Meant<Confirmation>>::Finished(
            Ok(
                if letter(rest[2 + n as int], 'y', 'Y') {
                    Confirmation::Accepted
                } else if letter(rest[2 + n as int], 'n', 'N') {
                    Confirmation::Declined
                } else if rest[2 + n as int] == pressed(Key::Escape) {
                    Confirmation::Cancelled
                } else if default_yes {
                    Confirmation::Accepted
                } else {
                    Confirmation::Declined
                },
            ),
            rest.skip(4 + n as int),
        ),
{
    let keys = rest.drop_first().drop_first();
    assert forall|i: int| 0 <= i < n implies answers_nothing(#[trigger] keys[i]) by {
        assert(keys[i] == rest[i + 2]);
    }
    lemma_confirm_keys_pass(keys, default_yes, n);
    let decided = keys.skip(n as int);
    assert(decided[0] == rest[2 + n as int]);
    reveal_with_fuel(confirm_keys, 2);
    assert(decided.drop_first().drop_first() =~= rest.skip(4 + n as int));
}

proof fn lemma_accepted_keys(rest: Seq<Answer>, default_yes: bool)
    ensures
        confirm_keys(rest, default_yes) matches Progress::Finished(result, left) ==> left_of(
            left,
            rest,
        ) && (result == Meant::<Confirmation>::Ok(Confirmation::Accepted) && !default_yes
            ==> was_pressed(rest, 'y', 'Y')),
    decreases rest.len(),
{
    broadcast use {
        lemma_left_after_one,
        lemma_left_of_left,
        lemma_left_of_itself,
        lemma_pressed_in_what_is_left,
    };

    if rest.len() > 0 {
        lemma_accepted_keys(rest.drop_first(), default_yes);
        if letter(rest[0], 'y', 'Y') {
            assert(was_pressed(rest, 'y', 'Y'));
        }
    }
}

/// A question that proposes no is accepted only by the key that says yes.
pub proof fn a_yes_has_to_be_pressed(rest: Seq<Answer>, question: Seq<char>)
    ensures
        confirm_spec(rest, question, false) matches Progress::Finished(
            Ok(Confirmation::Accepted),
            _,
        ) ==> was_pressed(rest, 'y', 'Y'),
{
    broadcast use lemma_pressed_in_what_is_left;

    if rest.len() > 1 {
        let keys = rest.drop_first().drop_first();
        lemma_accepted_keys(keys, false);
        assert(keys =~= rest.skip(rest.len() - keys.len()));
    }
}

/// A branch that diverged is rebased only after the user pressed yes.
pub proof fn a_rebase_of_diverged_work_is_accepted(
    rest: Seq<Answer>,
    branch: Seq<char>,
    remote: Seq<char>,
)
    ensures
        runs_command(reconcile_diverged_spec(rest, branch, remote), "rebase"@) ==> was_pressed(
            rest,
            'y',
            'Y',
        ),
        reconcile_diverged_spec(rest, branch, remote) matches Progress::Finished(Ok(_), _)
            ==> was_pressed(rest, 'y', 'Y'),
{
    broadcast use {lemma_confirm_runs_nothing, lemma_pressed_in_what_is_left};

    if rest.len() > 0 {
        let after = rest.drop_first();
        a_yes_has_to_be_pressed(after, "Rebase onto "@ + (remote + "/"@ + branch) + "?"@);
        lemma_left_after_one(rest);
    }
}

proof fn lemma_warned_leaves(rest: Seq<Answer>, warnings: Words)
    ensures
        warned(rest, warnings) matches Progress::Finished(_, left) ==> left_of(left, rest),
    decreases warnings.len(),
{
    broadcast use {lemma_left_after_one, lemma_left_of_left, lemma_left_of_itself};

    if warnings.len() > 0 && rest.len() > 0 {
        lemma_warned_leaves(rest.drop_first(), warnings.drop_first());
    }
}

/// What a name stands for and what would be lost with it goes only by force or
/// by a yes. It is forced, past git's guards as a whole, only if force was
/// asked for.
pub proof fn a_risky_name_goes_only_by_yes_or_force(
    rest: Seq<Answer>,
    named: NamedOfferModel,
    force: bool,
)
    ensures
        named_removal_choice_spec(rest, named, force) matches Progress::Finished(
            Ok(Some(choice)),
            _,
        ) ==> {
            &&& force ==> choice == ChoiceModel::Forced(named.id)
            &&& !force ==> choice == ChoiceModel::Named(named.id)
            &&& !force && named.warnings.len() > 0 ==> was_pressed(rest, 'y', 'Y')
        },
{
    broadcast use lemma_pressed_in_what_is_left;

    if rest.len() > 0 {
        lemma_warned_leaves(rest.drop_first(), named.warnings);
        match warned(rest.drop_first(), named.warnings) {
            Progress::Finished(_, left) => {
                a_yes_has_to_be_pressed(left, named.question);
                lemma_left_after_one(rest);
                lemma_left_of_left(left, rest.drop_first(), rest);
            },
            Progress::Waiting(_) => {},
        }
    }
}

// ---------------------------------------------------------------------------
// Rows
// ---------------------------------------------------------------------------

/// The replies that come next: one, and then others.
pub open spec fn then_come(one: Answer, others: Seq<Answer>) -> Seq<Answer> {
    Seq::empty().push(one) + others
}

proof fn lemma_then_come(one: Answer, others: Seq<Answer>)
    ensures
        then_come(one, others).len() == others.len() + 1,
        then_come(one, others)[0] == one,
        then_come(one, others).drop_first() == others,
{
    assert(then_come(one, others).drop_first() =~= others);
}

/// A list of things to remove shows one row for each, with its name, and a row
/// that was ticked selects the very thing that it shows: all that were ticked
/// and can be selected, in the order of the ticks, and nothing else.
pub proof fn a_tick_selects_its_own_row(
    assessment: AssessmentModel,
    force: bool,
    prompt: Seq<char>,
    ticks: Seq<usize>,
    others: Seq<Answer>,
    offer: Meaning,
)
    requires
        ticks.len() > 0,
    ensures
        ({
            let asked = Seq::empty().push(Answer::Flag(true));
            let reply = Answer::Ticked(Ok(Some(ticks)));
            let offers = assessment.offers;
            &&& shows_rows_of(
                picked_selection_spec(asked, assessment, force, prompt),
                offers,
            )
            &&& selects(
                picked_selection_spec(
                    then_come(Answer::Flag(true), then_come(reply, others)),
                    assessment,
                    force,
                    prompt,
                ),
                offers,
                ticks,
                offer,
                others,
                force,
            )
        }),
{
    let reply = Answer::Ticked(Ok(Some(ticks)));
    let offers = assessment.offers;
    let asked = Seq::empty().push(Answer::Flag(true));
    assert(asked.drop_first() =~= Seq::empty());
    lemma_then_come(reply, others);
    lemma_then_come(Answer::Flag(true), then_come(reply, others));
    rows::lemma_keep_map_from(ticks, ticked(offers), offer);
    if picked_rows(offers, ticks, force).offers.contains(offer) {
        let i = choose|i: int|
            0 <= i < ticks.len() && ticked(offers)(#[trigger] ticks[i]) == Some(offer);
        assert(ticks.contains(ticks[i]));
    }
    if exists|t: usize|
        #[trigger] ticks.contains(t) && t < offers.len() && offers[t as int] == offer
            && offer.held is None {
        let t = choose|t: usize|
            #[trigger] ticks.contains(t) && t < offers.len() && offers[t as int] == offer
                && offer.held is None;
        let i = choose|i: int| 0 <= i < ticks.len() && ticks[i] == t;
        assert(ticked(offers)(ticks[i]) == Some(offer));
    }
    if forall|i: int|
        0 <= i < ticks.len() ==> #[trigger] ticks[i] < offers.len()
            && offers[ticks[i] as int].held is None {
        assert forall|i: int| 0 <= i < ticks.len() implies ticked(offers)(
            #[trigger] ticks[i],
        ) is Some by {}
        rows::lemma_keep_map_of_all(ticks, ticked(offers));
        assert forall|i: int| 0 <= i < ticks.len() implies (#[trigger] picked_rows(
            offers,
            ticks,
            force,
        ).offers[i]) == offers[ticks[i] as int] by {
            assert(ticked(offers)(ticks[i]) == Some(keep_map(ticks, ticked(offers))[i]));
        }
    }
}

/// Whether the next request shows one row for each offer, under its name, and
/// selectable unless a worktree holds it.
pub open spec fn shows_rows_of<T>(progress: Progress<T>, offers: Seq<Meaning>) -> bool {
    progress matches Progress::Waiting(Asked::PickRows { rows, .. }) && rows.len() == offers.len()
        && forall|i: int|
        0 <= i < rows.len() ==> (#[trigger] rows[i]).name == offers[i].name && rows[i].selectable
            == (offers[i].held is None)
}

/// Whether ticks select what they stand for.
pub open spec fn selects(
    progress: Progress<Meant<Option<SelectionModel>>>,
    offers: Seq<Meaning>,
    ticks: Seq<usize>,
    offer: Meaning,
    others: Seq<Answer>,
    force: bool,
) -> bool {
    progress matches Progress::Finished(Ok(Some(selection)), left) && {
        &&& left == others
        &&& selection.choice.forced() == force
        &&& selection.offers.contains(offer) <==> exists|t: usize|
            #[trigger] ticks.contains(t) && t < offers.len() && offers[t as int] == offer
                && offer.held is None
        &&& (forall|i: int|
            0 <= i < ticks.len() ==> #[trigger] ticks[i] < offers.len()
                && offers[ticks[i] as int].held is None) ==> selection.offers.len() == ticks.len()
            && forall|i: int|
            0 <= i < ticks.len() ==> #[trigger] selection.offers[i] == offers[ticks[i] as int]
    }
}

/// The sweep touches what was ticked and nothing else, and never by force that
/// no row warned of.
#[verifier::spinoff_prover]
#[verifier::rlimit(40)]
pub proof fn the_sweep_removes_only_what_was_ticked(
    assessment: AssessmentModel,
    ticks: Seq<usize>,
    others: Seq<Answer>,
)
    requires
        assessment.offers.len() > 0,
    ensures
        offer_stale_spec(
            then_come(Answer::Flag(true), then_come(Answer::Ticked(Ok(Some(ticks))), others)),
            assessment,
        ) matches Progress::Waiting(request) ==> exists|t: usize|
            #[trigger] ticks.contains(t) && t < assessment.offers.len() && concerns_offer(
                request,
                assessment.offers[t as int],
                false,
                assessment.dir,
            ),
{
    let reply = Answer::Ticked(Ok(Some(ticks)));
    let offers = assessment.offers;
    lemma_then_come(reply, others);
    lemma_then_come(Answer::Flag(true), then_come(reply, others));
    if ticks.len() > 0 {
        let chosen = picked_rows(offers, ticks, false).offers;
        removals_touch_only_what_was_chosen(others, chosen, false, assessment.dir, true);
        match finish_spec(others, chosen, false, assessment.dir) {
            Progress::Waiting(request) => {
                let i = choose|i: int|
                    0 <= i < chosen.len() && concerns_offer(
                        request,
                        #[trigger] chosen[i],
                        false,
                        assessment.dir,
                    );
                assert(chosen.contains(chosen[i]));
                rows::lemma_keep_map_from(ticks, ticked(offers), chosen[i]);
                let j = choose|j: int|
                    0 <= j < ticks.len() && ticked(offers)(#[trigger] ticks[j]) == Some(chosen[i]);
                assert(ticks.contains(ticks[j]));
            },
            _ => {},
        }
    }
}

// ---------------------------------------------------------------------------
// Upstreams
// ---------------------------------------------------------------------------

/// The upstreams of several branches are listed one to a row, as their remote
/// and their name, and ticked to begin with only if upstreams were asked for.
/// Those that go are exactly the ones whose own row was ticked.
pub proof fn an_upstream_goes_by_its_own_row(
    branches: Seq<RemoteBranch<Seq<char>>>,
    preselected: bool,
    ticks: Seq<usize>,
    others: Seq<Answer>,
    i: usize,
)
    requires
        i < branches.len(),
    ensures
        ask_several_spec(Seq::empty(), branches, preselected) matches Progress::Waiting(
            Asked::PickRows { rows, .. },
        ) && rows.len() == branches.len() && rows[i as int].name == branches[i as int].remote + "/"@
            + branches[i as int].branch && rows[i as int].selectable && rows[i as int].ticked
            == preselected,
        ask_several_spec(
            then_come(Answer::Ticked(Ok(Some(ticks))), others),
            branches,
            preselected,
        ) matches Progress::Finished(Ok(Some(chosen)), left) && left == others && (
        chosen.contains(branches[i as int]) <==> exists|t: usize|
            #[trigger] ticks.contains(t) && t < branches.len() && branches[t as int]
                == branches[i as int]) && (branches.no_duplicates() ==> (chosen.contains(
            branches[i as int],
        ) <==> ticks.contains(i))),
{
    lemma_then_come(Answer::Ticked(Ok(Some(ticks))), others);
    lemma_ticked_upstreams(branches, preselected, ticks, others, branches[i as int]);
    if branches.no_duplicates() {
        if ticks.contains(i) {
            assert(branches[i as int] == branches[i as int]);
        }
    }
}

proof fn lemma_ticked_upstreams(
    branches: Seq<RemoteBranch<Seq<char>>>,
    preselected: bool,
    ticks: Seq<usize>,
    others: Seq<Answer>,
    branch: RemoteBranch<Seq<char>>,
)
    ensures
        ask_several_spec(
            then_come(Answer::Ticked(Ok(Some(ticks))), others),
            branches,
            preselected,
        ) matches Progress::Finished(Ok(Some(chosen)), left) && left == others && (
        chosen.contains(branch) <==> exists|t: usize|
            #[trigger] ticks.contains(t) && t < branches.len() && branches[t as int] == branch),
{
    let f = crate::app::br::at_row(branches);
    lemma_then_come(Answer::Ticked(Ok(Some(ticks))), others);
    rows::lemma_keep_map_from(ticks, f, branch);
    let chosen = keep_map(ticks, f);
    if chosen.contains(branch) {
        let j = choose|j: int| 0 <= j < ticks.len() && f(#[trigger] ticks[j]) == Some(branch);
        assert(ticks.contains(ticks[j]));
    }
    if exists|t: usize|
        #[trigger] ticks.contains(t) && t < branches.len() && branches[t as int] == branch {
        let t = choose|t: usize|
            #[trigger] ticks.contains(t) && t < branches.len() && branches[t as int] == branch;
        let j = choose|j: int| 0 <= j < ticks.len() && ticks[j] == t;
        assert(f(ticks[j]) == Some(branch));
    }
}

/// Whether git is to delete an upstream: on its own remote, under its own name,
/// and only while it stands at the tip that was seen.
pub open spec fn deletes_upstream(request: Asked, branch: RemoteBranch<Seq<char>>) -> bool {
    git_args(request) == args6(
        "push"@,
        "--quiet"@,
        "--force-with-lease="@ + ("refs/heads/"@ + branch.branch) + ":"@ + branch.tip,
        "--"@,
        branch.remote,
        ":"@ + ("refs/heads/"@ + branch.branch),
    )
}

/// Whether a request is one that removing pairs may make: it concerns the local
/// branch of one of them, or the upstream of one, if that was chosen.
pub open spec fn concerns_pairs(
    request: Asked,
    offers: Seq<Meaning>,
    found: Seq<Found>,
    chosen: Seq<RemoteBranch<Seq<char>>>,
    force: bool,
    dir: Option<Seq<char>>,
) -> bool {
    ||| request is Tell
    ||| exists|i: int|
        0 <= i < offers.len() && (#[trigger] offers[i]).branch is Some && concerns_branch(
            request,
            offers[i].branch->0,
            dir,
            force || offers[i].unmerged is Some,
            offers[i].proof,
        )
    ||| exists|b: RemoteBranch<Seq<char>>|
        chosen.contains(b) && found.contains(Prepared::Candidate(b)) && #[trigger] concerns_upstream(
            request,
            b,
        )
}

/// Whether a request concerns an upstream alone: its deletion, or a look at
/// where it stands.
pub open spec fn concerns_upstream(request: Asked, branch: RemoteBranch<Seq<char>>) -> bool {
    request is Git && git_dir(request) is None && (deletes_upstream(request, branch) || git_args(
        request,
    ) == args5("ls-remote"@, "--heads"@, "--"@, branch.remote, "refs/heads/"@ + branch.branch))
}

proof fn lemma_follow_requests(
    rest: Seq<Answer>,
    found: Found,
    chosen: Seq<RemoteBranch<Seq<char>>>,
    upstream: bool,
    gone: bool,
)
    ensures
        follow_spec(rest, found, chosen, upstream, gone) matches Progress::Waiting(request) ==> {
            ||| request is Tell
            ||| found is Candidate && chosen.contains(found->Candidate_0) && gone
                && concerns_upstream(request, found->Candidate_0)
        },
{
}

/// Removing local branches and their upstreams touches those branches, and of
/// the upstreams the ones chosen: the server is asked to delete nothing else.
#[verifier::spinoff_prover]
#[verifier::rlimit(40)]
pub proof fn only_chosen_upstreams_are_touched(
    rest: Seq<Answer>,
    offers: Seq<Meaning>,
    found: Seq<Found>,
    chosen: Seq<RemoteBranch<Seq<char>>>,
    options: BranchRemoval<Seq<char>>,
    dir: Option<Seq<char>>,
    all: bool,
)
    requires
        offers.len() == found.len(),
    ensures
        remove_pairs(rest, offers, found, chosen, options, dir, all) matches Progress::Waiting(
            request,
        ) ==> concerns_pairs(request, offers, found, chosen, options.force, dir),
    decreases offers.len(),
{
    if offers.len() > 0 {
        lemma_remove_branch(rest, offers[0], options.force, dir);
        assert forall|left: Seq<Answer>, gone: bool|
            follows(
                #[trigger] follow_spec(left, found[0], chosen, options.upstream, gone),
                found[0],
                chosen,
            ) by {
            lemma_follow_requests(left, found[0], chosen, options.upstream, gone);
        }
        match remove_pair_spec(rest, offers[0], found[0], chosen, options, dir) {
            Progress::Waiting(request) => {
                assert(found.contains(found[0]));
                assert(offers[0] == offers[0]);
            },
            Progress::Finished(Ok(done), left) => {
                let more = offers.drop_first();
                let rest_found = found.drop_first();
                only_chosen_upstreams_are_touched(
                    left,
                    more,
                    rest_found,
                    chosen,
                    options,
                    dir,
                    all && done,
                );
                match remove_pairs(left, more, rest_found, chosen, options, dir, all && done) {
                    Progress::Waiting(request) => {
                        lemma_more_pairs(request, offers, found, chosen, options.force, dir);
                    },
                    _ => {},
                }
            },
            _ => {},
        }
    }
}

spec fn follows<T>(
    progress: Progress<T>,
    found: Found,
    chosen: Seq<RemoteBranch<Seq<char>>>,
) -> bool {
    progress matches Progress::Waiting(request) ==> {
        ||| request is Tell
        ||| found is Candidate && chosen.contains(found->Candidate_0) && concerns_upstream(
            request,
            found->Candidate_0,
        )
    }
}

proof fn lemma_more_pairs(
    request: Asked,
    offers: Seq<Meaning>,
    found: Seq<Found>,
    chosen: Seq<RemoteBranch<Seq<char>>>,
    force: bool,
    dir: Option<Seq<char>>,
)
    requires
        offers.len() > 0,
        found.len() > 0,
        concerns_pairs(request, offers.drop_first(), found.drop_first(), chosen, force, dir),
    ensures
        concerns_pairs(request, offers, found, chosen, force, dir),
{
    let more = offers.drop_first();
    let others = found.drop_first();
    if exists|i: int|
        0 <= i < more.len() && (#[trigger] more[i]).branch is Some && concerns_branch(
            request,
            more[i].branch->0,
            dir,
            force || more[i].unmerged is Some,
            more[i].proof,
        ) {
        let i = choose|i: int|
            0 <= i < more.len() && (#[trigger] more[i]).branch is Some && concerns_branch(
                request,
                more[i].branch->0,
                dir,
                force || more[i].unmerged is Some,
                more[i].proof,
            );
        assert(offers[i + 1] == more[i]);
    } else if !(request is Tell) {
        let b = choose|b: RemoteBranch<Seq<char>>|
            chosen.contains(b) && others.contains(Prepared::Candidate(b))
                && #[trigger] concerns_upstream(request, b);
        let j = choose|j: int| 0 <= j < others.len() && others[j] == Prepared::Candidate(b);
        assert(found[j + 1] == others[j]);
        assert(found.contains(Prepared::Candidate(b)));
    }
}

/// A chosen upstream is deleted once its local branch is gone, and that is what
/// the pair comes to; one that was not chosen is left alone.
pub proof fn a_chosen_upstream_goes_with_its_branch(
    rest: Seq<Answer>,
    branch: RemoteBranch<Seq<char>>,
    chosen: Seq<RemoteBranch<Seq<char>>>,
    upstream: bool,
)
    ensures
        chosen.contains(branch) ==> (follow_spec(
            Seq::empty(),
            Prepared::Candidate(branch),
            chosen,
            upstream,
            true,
        ) matches Progress::Waiting(request) && deletes_upstream(request, branch)),
        chosen.contains(branch) && rest.len() > 1 && super::went_well(rest[0]) ==> follow_spec(
            rest,
            Prepared::Candidate(branch),
            chosen,
            upstream,
            true,
        ) == Progress::Finished(true, rest.drop_first().drop_first()),
        !chosen.contains(branch) ==> follow_spec(
            rest,
            Prepared::Candidate(branch),
            chosen,
            upstream,
            true,
        ) == Progress::Finished(true, rest),
{
}

/// `br rm` on a terminal, for several branches: once the user has ticked rows
/// in the list of upstreams, the server is asked to delete an upstream only if
/// its own row was ticked.
#[verifier::spinoff_prover]
#[verifier::rlimit(40)]
pub proof fn an_unticked_upstream_stays(
    rest: Seq<Answer>,
    offers: Seq<Meaning>,
    options: BranchRemoval<Seq<char>>,
    dir: Option<Seq<char>>,
    found: Seq<Found>,
    ticks: Seq<usize>,
    others: Seq<Answer>,
)
    requires
        rest.len() > 0,
        rest[0] == Answer::Flag(true),
        options.target is None,
        !options.force,
        found.len() == offers.len(),
        candidates(found).len() > 0,
        prepared_spec(rest.drop_first(), offers, options, true) == Progress::<
            Meant<Seq<Found>>,
        >::Finished(Ok(found), then_come(Answer::Ticked(Ok(Some(ticks))), others)),
    ensures
        remove_selected_spec(rest, offers, options, dir) matches Progress::Waiting(request) ==> (
        request is Git && git_args(request).len() > 0 && git_args(request)[0] == "push"@ ==> exists|
            t: usize,
        |
            #[trigger] ticks.contains(t) && t < candidates(found).len() && deletes_upstream(
                request,
                candidates(found)[t as int],
            )),
{
    let reply = Answer::Ticked(Ok(Some(ticks)));
    let branches = candidates(found);
    lemma_spelled();
    lemma_then_come(reply, others);
    let chosen = keep_map(ticks, crate::app::br::at_row(branches));
    only_chosen_upstreams_are_touched(others, offers, found, chosen, options, dir, true);
    match remove_pairs(others, offers, found, chosen, options, dir, true) {
        Progress::Waiting(request) => {
            if request is Git && git_args(request).len() > 0 && git_args(request)[0] == "push"@ {
                let b = choose|b: RemoteBranch<Seq<char>>|
                    chosen.contains(b) && found.contains(Prepared::Candidate(b))
                        && #[trigger] concerns_upstream(request, b);
                lemma_ticked_upstreams(branches, options.upstream, ticks, others, b);
            }
        },
        _ => {},
    }
}

/// The one upstream of a named branch goes only if the user says yes to it, and
/// where upstreams were not asked for the yes has to be pressed.
pub proof fn one_upstream_goes_by_a_yes(
    rest: Seq<Answer>,
    branch: RemoteBranch<Seq<char>>,
    default_yes: bool,
)
    ensures
        ask_one_spec(rest, branch, default_yes) matches Progress::Finished(Ok(Some(chosen)), _)
            ==> {
            &&& chosen.len() == 0 || chosen == Seq::empty().push(branch)
            &&& chosen.len() > 0 && !default_yes ==> was_pressed(rest, 'y', 'Y')
        },
{
    broadcast use lemma_pressed_in_what_is_left;

    if rest.len() > 0 {
        let after = rest.drop_first();
        let question = "Delete upstream "@ + crate::app::br::spoken(branch) + " too?"@;
        a_yes_has_to_be_pressed(after, question);
        lemma_left_after_one(rest);
    }
}

} // verus!
