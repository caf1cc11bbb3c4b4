//! What stands between a removal and a loss.
use vstd::prelude::*;
use vstd::string::*;

use crate::app::reclamation::Staged;
use crate::app::removal::assess::{
    answers, assess_branches_spec, assess_worktrees_spec, called, detail, depth, innermost,
    named_of, row, stands_in, unmerged_mark, wanted, worktree_mark, worktree_offer,
    worktree_offers_spec, Meaning, Refusals,
};
use crate::app::removal::finish::{remove_worktree_spec, settle_spec};
use crate::app::removal::{
    named_selection_spec, numbered, AssessmentModel, SelectionModel, Subject,
};
use crate::app::wt::{dirty_spec, main_of_spec, remove_selected_spec};
use crate::error::Meant;
use crate::git::refs::unmerged_branches_spec;
use crate::git::worktrees::{listing, worktree_remove_spec, Tree};
use crate::git::{Unmerged, WorktreeRemoveOutcome};
use crate::grammar::Words;
use crate::path;
use crate::rows::{first_of, keep_map};
use crate::talk::{Answer, Asked, Progress};
use crate::text;

use super::removing::removals_touch_only_what_was_chosen;
use super::steps::printed;
use super::sweeping::prints_only;
use super::{command_of, git_args, git_dir, lemma_spelled, went_well};

verus! {

// ---------------------------------------------------------------------------
// Moving aside
// ---------------------------------------------------------------------------

/// Whether a reply lets a worktree be moved past git's guards: git looked into
/// it, and found nothing uncommitted, or what it found may go by force.
pub open spec fn known_safe(answer: Answer, force: bool) -> bool {
    went_well(answer) && (printed(answer).len() == 0 || force)
}

/// A worktree is moved aside, and handed to a worker, only after git has looked
/// into it and found nothing that force does not cover, and never where its
/// directory was gone already.
pub proof fn a_worktree_is_moved_only_if_known_safe(
    rest: Seq<Answer>,
    tree: Seq<char>,
    missing: bool,
    force: bool,
)
    ensures
        remove_worktree_spec(rest, tree, missing, force) matches Progress::Waiting(request) ==> (
        request is Rename || request is SpawnWorker ==> !missing && rest.len() > 0 && known_safe(
            rest[0],
            force,
        )),
{
    broadcast use crate::app::conduct::removing::lemma_initialized_among;

}

/// Once git has removed the registration what was moved aside is never moved
/// back, and where git has not it is never handed to a worker.
pub proof fn what_git_kept_is_moved_back(
    rest: Seq<Answer>,
    staged: Staged<Seq<char>>,
    removed: Meant<WorktreeRemoveOutcome<Seq<char>>>,
)
    ensures
        removed == Meant::<WorktreeRemoveOutcome<Seq<char>>>::Ok(WorktreeRemoveOutcome::Removed)
            ==> !(settle_spec(rest, staged, removed) matches Progress::Waiting(
            Asked::Rename { .. },
        )),
        removed != Meant::<WorktreeRemoveOutcome<Seq<char>>>::Ok(WorktreeRemoveOutcome::Removed)
            ==> settle_spec(Seq::empty(), staged, removed) == Progress::<
            Meant<WorktreeRemoveOutcome<Seq<char>>>,
        >::Waiting(Asked::Rename { from: staged.trash, to: staged.original }) && !(settle_spec(
            rest,
            staged,
            removed,
        ) matches Progress::Waiting(Asked::SpawnWorker(_))),
        settle_spec(rest, staged, removed) matches Progress::Finished(result, _) ==> result
            == removed,
{
}

/// A worktree counts as removed only if git says so, or if its directory is
/// gone and git no longer lists it.
pub proof fn a_worktree_is_gone_only_if_git_says_so(
    rest: Seq<Answer>,
    tree: Seq<char>,
    force: bool,
)
    ensures
        worktree_remove_spec(rest, tree, force) matches Progress::Finished(
            Ok(WorktreeRemoveOutcome::Removed),
            _,
        ) ==> rest.len() > 0 && (went_well(rest[0]) || rest.len() > 3 && rest[1] != Answer::Flag(
            true,
        ) && went_well(rest[3]) && forall|i: int|
            0 <= i < listing(text::lines(printed(rest[3]))).len() ==> !path::same_path(
                (#[trigger] listing(text::lines(printed(rest[3])))[i]).path,
                tree,
            )),
{
}

// ---------------------------------------------------------------------------
// Where losses are judged
// ---------------------------------------------------------------------------

proof fn lemma_main_is_main(trees: Seq<Tree>)
    ensures
        main_of_spec(trees) matches Ok(main) ==> main.is_main && exists|i: int|
            0 <= i < trees.len() && #[trigger] trees[i] == main,
    decreases trees.len(),
{
    if trees.len() > 0 {
        let others = trees.drop_first();
        lemma_main_is_main(others);
        if trees[0].is_main {
            assert(trees[0] == main_of_spec(trees)->Ok_0);
        } else {
            match main_of_spec(others) {
                Ok(main) => {
                    let i = choose|i: int| 0 <= i < others.len() && #[trigger] others[i] == main;
                    assert(trees[i + 1] == main);
                },
                Err(_) => {},
            }
        }
    }
}

/// Whether a request, if it asks git what is merged, asks in a directory, and
/// if it asks for uncommitted changes, asks in a worktree other than the main
/// one.
pub open spec fn judges_from<T>(
    progress: Progress<T>,
    dir: Option<Seq<char>>,
    trees: Seq<Tree>,
) -> bool {
    progress matches Progress::Waiting(request) ==> {
        &&& request is Git && command_of(git_args(request)) == "branch"@ ==> git_dir(request) == dir
        &&& request is Git && command_of(git_args(request)) == "status"@ ==> exists|i: int|
            0 <= i < trees.len() && !(#[trigger] trees[i]).is_main && git_dir(request) == Some(
                trees[i].path,
            )
    }
}

proof fn lemma_worktree_offers_look(
    rest: Seq<Answer>,
    trees: Seq<Tree>,
    refusals: Refusals,
    found: Seq<Meaning>,
    dir: Option<Seq<char>>,
    all: Seq<Tree>,
)
    requires
        forall|i: int| 0 <= i < trees.len() ==> all.contains(#[trigger] trees[i]),
    ensures
        judges_from(worktree_offers_spec(rest, trees, refusals, found), dir, all),
    decreases trees.len(),
{
    lemma_spelled();
    if trees.len() > 0 {
        let others = trees.drop_first();
        assert forall|i: int| 0 <= i < others.len() implies all.contains(#[trigger] others[i]) by {
            assert(others[i] == trees[i + 1]);
        }
        assert(all.contains(trees[0]));
        let at = choose|i: int| 0 <= i < all.len() && all[i] == trees[0];
        assert(all[at] == trees[0]);
        if trees[0].is_main {
            lemma_worktree_offers_look(rest, others, refusals, found, dir, all);
        } else {
            match dirty_spec(rest, trees[0]) {
                Progress::Waiting(_) => {},
                Progress::Finished(dirty, left) => {
                    let offer = worktree_offer(found.len(), trees[0], dirty, refusals);
                    lemma_worktree_offers_look(
                        left,
                        others,
                        refusals,
                        found.push(offer),
                        dir,
                        all,
                    );
                },
            }
        }
    }
}

/// What would be lost is judged from the main worktree, where every branch but
/// its own can be seen to be merged or not, and it is there that the removal
/// runs.
pub proof fn losses_are_judged_from_the_main_worktree(
    rest: Seq<Answer>,
    names: Words,
    trees: Seq<Tree>,
    cwd: Option<Seq<char>>,
    main: Tree,
)
    requires
        main_of_spec(trees) == Meant::<Tree>::Ok(main),
    ensures
        main.is_main && trees.contains(main),
        judges_from(assess_worktrees_spec(rest, trees, cwd), Some(main.path), trees),
        judges_from(assess_branches_spec(rest, names, trees), Some(main.path), trees),
        assess_worktrees_spec(rest, trees, cwd) matches Progress::Finished(Ok(assessment), _)
            ==> assessment.dir == Some(main.path),
        assess_branches_spec(rest, names, trees) matches Progress::Finished(Ok(assessment), _)
            ==> assessment.dir == Some(main.path),
{
    lemma_spelled();
    lemma_main_is_main(trees);
    match unmerged_branches_spec(rest, Some(main.path)) {
        Progress::Finished(Ok(refusals), left) => {
            lemma_worktree_offers_look(
                left,
                trees,
                refusals,
                Seq::empty(),
                Some(main.path),
                trees,
            );
        },
        _ => {},
    }
}

// ---------------------------------------------------------------------------
// Warnings
// ---------------------------------------------------------------------------

/// What a row licenses is shown in it: a worktree with uncommitted changes by
/// its mark, and commits that are merged nowhere by theirs, with their number
/// where there is one. A row of what has neither shows no such mark.
pub proof fn what_a_row_licenses_it_shows(subject: Subject<Seq<char>>, offer: Meaning)
    requires
        offer.held is None,
        offer.ground is None,
        offer.dirty ==> offer.worktree is Some && !offer.missing,
    ensures
        offer.dirty <==> row(subject, offer).detail.contains('●'),
        offer.unmerged is Some <==> row(subject, offer).detail.contains('↑'),
        offer.unmerged matches Some(Unmerged::Ahead(n)) ==> text::ends_with(
            row(subject, offer).detail,
            "↑"@ + text::decimal(n as nat),
        ),
{
    reveal_strlit("●");
    reveal_strlit("↑");
    reveal_strlit(" ");
    reveal_strlit("missing");
    reveal_strlit("(+ worktree, missing)");
    reveal_strlit("(+ worktree ●)");
    reveal_strlit("(+ worktree)");
    let along = worktree_mark(subject, offer);
    let lost = unmerged_mark(offer.unmerged);
    let shown = row(subject, offer).detail;
    if offer.unmerged is Some {
        assert(lost[0] == '↑');
        assert(shown[shown.len() - lost.len()] == '↑');
        assert(shown.skip(shown.len() - lost.len()) =~= lost);
    }
    if offer.dirty {
        if subject is Worktrees {
            assert(along[0] == '●');
            assert(shown[0] == '●');
        } else {
            assert(along[12] == '●');
            assert(shown[12] == '●');
        }
    }
    lemma_marks_apart(subject, offer);
    if shown.contains('↑') && offer.unmerged is None {
        let i = choose|i: int| 0 <= i < shown.len() && shown[i] == '↑';
        assert(along[i] == '↑');
        assert(along.contains('↑'));
    }
    if shown.contains('●') && !offer.dirty {
        let i = choose|i: int| 0 <= i < shown.len() && shown[i] == '●';
        if i < along.len() {
            assert(along[i] == '●');
            assert(along.contains('●'));
        } else if along.len() > 0 && i == along.len() {
            assert(shown[i] == ' ');
        } else {
            let j = if along.len() == 0 {
                i
            } else {
                i - along.len() - 1
            };
            assert(lost[j] == '●');
            assert(lost.contains('●'));
        }
    }
}

proof fn lemma_digits(n: nat, c: char)
    requires
        c == '●' || c == '↑',
    ensures
        !text::decimal(n).contains(c),
    decreases n,
{
    if text::decimal(n).contains(c) {
        let i = choose|i: int| 0 <= i < text::decimal(n).len() && text::decimal(n)[i] == c;
        if n >= 10 {
            lemma_digits(n / 10, c);
            if i < text::decimal(n / 10).len() {
                assert(text::decimal(n / 10)[i] == c);
            }
        }
    }
}

proof fn lemma_marks_apart(subject: Subject<Seq<char>>, offer: Meaning)
    requires
        offer.dirty ==> offer.worktree is Some && !offer.missing,
    ensures
        !worktree_mark(subject, offer).contains('↑'),
        !offer.dirty ==> !worktree_mark(subject, offer).contains('●'),
        !unmerged_mark(offer.unmerged).contains('●'),
{
    reveal_strlit("●");
    reveal_strlit("↑");
    reveal_strlit("missing");
    reveal_strlit("(+ worktree, missing)");
    reveal_strlit("(+ worktree ●)");
    reveal_strlit("(+ worktree)");
    match offer.unmerged {
        Some(Unmerged::Ahead(n)) => {
            lemma_digits(n as nat, '●');
            let lost = unmerged_mark(offer.unmerged);
            if lost.contains('●') {
                let i = choose|i: int| 0 <= i < lost.len() && lost[i] == '●';
                assert(text::decimal(n as nat)[i - 1] == '●');
            }
        },
        _ => {},
    }
}

/// What is asked for by name is warned of in words: uncommitted changes by the
/// worktree that holds them, and commits that are merged nowhere by the
/// branch. Nothing at risk is nothing to warn of.
pub proof fn a_name_is_warned_of_what_it_risks(offer: Meaning, shown: Seq<char>)
    ensures
        named_of(offer, shown).id == offer.id,
        named_of(offer, shown).warnings.len() == (if offer.dirty {
            1int
        } else {
            0
        }) + (if offer.unmerged is Some {
            1int
        } else {
            0
        }),
        offer.dirty ==> named_of(offer, shown).warnings.contains(
            shown + " has uncommitted changes"@,
        ),
        offer.unmerged == Some(Unmerged::NoUpstream) ==> named_of(offer, shown).warnings.contains(
            offer.name + " has unmerged commits and no upstream"@,
        ),
        offer.unmerged matches Some(Unmerged::Ahead(n)) ==> named_of(offer, shown).warnings.contains(
            offer.name + " has "@ + text::decimal(n as nat) + " unmerged "@ + (if n == 1 {
                "commit"@
            } else {
                "commit"@ + "s"@
            }),
        ),
{
    let warnings = named_of(offer, shown).warnings;
    if offer.dirty {
        assert(warnings[0] == shown + " has uncommitted changes"@);
    }
    if offer.unmerged is Some {
        assert(warnings.last() == warnings[warnings.len() - 1]);
        assert(warnings.contains(warnings.last()));
    }
}

// ---------------------------------------------------------------------------
// Names
// ---------------------------------------------------------------------------

proof fn lemma_first_is<A>(s: Seq<A>, f: spec_fn(A) -> Option<A>)
    requires
        forall|a: A| #[trigger] f(a) matches Some(b) ==> b == a,
    ensures
        first_of(s, f) matches Some(a) ==> s.contains(a) && f(a) == Some(a),
        first_of(s, f) is None ==> forall|i: int| 0 <= i < s.len() ==> f(#[trigger] s[i]) is None,
    decreases s.len(),
{
    if s.len() > 0 {
        let others = s.drop_first();
        lemma_first_is(others, f);
        if f(s[0]) is Some {
            assert(s.contains(s[0]));
        } else {
            match first_of(others, f) {
                Some(a) => {
                    let i = choose|i: int| 0 <= i < others.len() && others[i] == a;
                    assert(s[i + 1] == a);
                },
                None => {
                    assert forall|i: int| 0 <= i < s.len() implies f(#[trigger] s[i]) is None by {
                        if i > 0 {
                            assert(s[i] == others[i - 1]);
                        }
                    }
                },
            }
        }
    }
}

proof fn lemma_innermost(offers: Seq<Meaning>, cwd: Seq<char>)
    ensures
        innermost(offers, cwd) matches Some(offer) ==> offers.contains(offer)
            && offer.worktree is Some && stands_in(cwd, offer.worktree->0),
        forall|i: int|
            0 <= i < offers.len() && (#[trigger] offers[i]).worktree is Some && stands_in(
                cwd,
                offers[i].worktree->0,
            ) ==> innermost(offers, cwd) is Some && depth(
                innermost(offers, cwd)->0.worktree->0,
            ) >= depth(offers[i].worktree->0),
    decreases offers.len(),
{
    if offers.len() > 0 {
        let before = offers.drop_last();
        lemma_innermost(before, cwd);
        match innermost(before, cwd) {
            Some(offer) => {
                let i = choose|i: int| 0 <= i < before.len() && before[i] == offer;
                assert(offers[i] == offer);
            },
            None => {},
        }
        assert(offers[offers.len() - 1] == offers.last());
        assert forall|i: int|
            0 <= i < offers.len() && (#[trigger] offers[i]).worktree is Some && stands_in(
                cwd,
                offers[i].worktree->0,
            ) implies innermost(offers, cwd) is Some && depth(
            innermost(offers, cwd)->0.worktree->0,
        ) >= depth(offers[i].worktree->0) by {
            if i < before.len() {
                assert(before[i] == offers[i]);
            }
        }
    }
}

/// A name stands for what goes by it: a worktree for its branch or its
/// directory, a branch for its own name, and `.` for the innermost worktree
/// that the current directory is in. It stands for nothing else, and where
/// nothing goes by it that is an error.
pub proof fn a_name_stands_for_what_goes_by_it(assessment: AssessmentModel, name: Seq<char>)
    ensures
        wanted(assessment, name) matches Ok(offer) ==> assessment.offers.contains(offer),
        !(assessment.subject is Worktrees) ==> match wanted(assessment, name) {
            Ok(offer) => offer.name == name,
            Err(_) => forall|i: int|
                0 <= i < assessment.offers.len() ==> (#[trigger] assessment.offers[i]).name != name,
        },
        assessment.subject is Worktrees && name != "."@ ==> match wanted(assessment, name) {
            Ok(offer) => answers(offer).contains(name),
            Err(_) => forall|i: int|
                0 <= i < assessment.offers.len() ==> !answers(
                    #[trigger] assessment.offers[i],
                ).contains(name),
        },
        assessment.subject matches Subject::Worktrees { main, cwd } ==> name == "."@ ==> (wanted(
            assessment,
            name,
        ) matches Ok(offer) ==> cwd is Some && offer.worktree is Some && stands_in(
            cwd->0,
            offer.worktree->0,
        ) && forall|i: int|
            0 <= i < assessment.offers.len() && (#[trigger] assessment.offers[i]).worktree is Some
                && stands_in(cwd->0, assessment.offers[i].worktree->0) ==> depth(
                offer.worktree->0,
            ) >= depth(assessment.offers[i].worktree->0)),
{
    let offers = assessment.offers;
    lemma_first_is(offers, called(name));
    lemma_first_is(offers, crate::app::removal::assess::answering(name));
    match assessment.subject {
        Subject::Worktrees { main, cwd } => {
            if cwd is Some {
                lemma_innermost(offers, cwd->0);
            }
        },
        _ => {},
    }
}

/// Where offers are numbered by their rows, a name selects the one offer that
/// it stands for, by force only if that was asked for.
pub proof fn a_name_selects_one_offer(
    rest: Seq<Answer>,
    assessment: AssessmentModel,
    name: Seq<char>,
    force: bool,
)
    requires
        forall|i: int|
            0 <= i < assessment.offers.len() ==> (#[trigger] assessment.offers[i]).id == i,
    ensures
        named_selection_spec(rest, assessment, name, force) matches Progress::Finished(
            Ok(Some(selection)),
            _,
        ) ==> wanted(assessment, name) matches Ok(offer) && selection.offers
            == Seq::<Meaning>::empty().push(offer) && offer.held is None
            && selection.choice.forced() == force,
{
    a_name_stands_for_what_goes_by_it(assessment, name);
    match wanted(assessment, name) {
        Ok(offer) => {
            let i = choose|i: int|
                0 <= i < assessment.offers.len() && assessment.offers[i] == offer;
            lemma_only_numbered(assessment.offers, i, assessment.offers.len());
            assert(assessment.offers.take(assessment.offers.len() as int) =~= assessment.offers);
        },
        Err(_) => {},
    }
}

proof fn lemma_only_numbered(offers: Seq<Meaning>, at: int, n: nat)
    requires
        0 <= at < offers.len(),
        n <= offers.len(),
        forall|i: int| 0 <= i < offers.len() ==> (#[trigger] offers[i]).id == i,
    ensures
        keep_map(offers.take(n as int), numbered(offers[at].id)) == if at < n {
            Seq::<Meaning>::empty().push(offers[at])
        } else {
            Seq::empty()
        },
    decreases n,
{
    if n > 0 {
        let taken = offers.take(n as int);
        lemma_only_numbered(offers, at, (n - 1) as nat);
        assert(taken.drop_last() =~= offers.take(n - 1));
        assert(taken.last() == offers[n - 1]);
        assert(offers[n - 1].id == n - 1);
        assert(offers[at].id == at);
    }
}

// ---------------------------------------------------------------------------
// The shell
// ---------------------------------------------------------------------------

/// `wt rm` sends the shell to the main worktree exactly where it stands in one
/// that is to go: nothing else is ever printed, and nothing at all where it
/// stands elsewhere.
pub proof fn a_doomed_shell_is_sent_to_the_main_worktree(
    rest: Seq<Answer>,
    assessment: AssessmentModel,
    selection: SelectionModel,
    main: Tree,
    cwd: Option<Seq<char>>,
)
    requires
        assessment.subject == (Subject::Worktrees { main, cwd }),
    ensures
        ({
            let run = remove_selected_spec(rest, assessment, selection);
            let in_danger = cwd is Some && exists|i: int|
                0 <= i < selection.offers.len() && (#[trigger] selection.offers[i]).worktree is Some
                    && stands_in(cwd->0, selection.offers[i].worktree->0);
            &&& prints_only(run, main.path)
            &&& !in_danger ==> !(run matches Progress::Waiting(Asked::Print(_))) && !(run
                matches Progress::Waiting(Asked::Enter(_)))
            &&& in_danger && rest.len() == 1 ==> run == Progress::<Meant<()>>::Waiting(
                Asked::Enter(main.path),
            )
        }),
{
    let refuge = crate::app::wt::refuge(assessment.subject, selection.offers);
    if rest.len() > 0 {
        let after = rest.drop_first();
        let forced = selection.choice.forced();
        removals_touch_only_what_was_chosen(after, selection.offers, forced, assessment.dir, true);
        if after.len() > 0 {
            removals_touch_only_what_was_chosen(
                after.drop_first(),
                selection.offers,
                forced,
                assessment.dir,
                true,
            );
        }
    }
}

} // verus!
