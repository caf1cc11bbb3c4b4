//! What is found out, and what has to have been said for it.
use vstd::prelude::*;
use vstd::string::*;

use crate::app::prefetch::{alike_spec, Coverage};
use crate::app::removal::finish::movable_spec;
use crate::app::removal::prompt_delete_stale_branches_spec;
use crate::app::signs::{status_signs_spec, Sign};
use crate::app::update::{fetch_and_ff_spec, update_in_spec};
use crate::app::verbs::{handed_off_spec, held_elsewhere_spec, sweep_and_hand_off_spec};
use crate::app::wt::{
    all_names, any_declares, candidates, ls_lines, names_of, not_main, prefetched_spec, print_each,
    status_spec, statuses_spec,
};
use crate::ask::{args2, args3, args4};
use crate::error::{Error, IoKind, Meant};
use crate::git::equivalence::{any_exact, content_present_spec, verbatim_patch_id_spec};
use crate::git::refs::{lemma_swept, merged_anchor_spec, stale_branches_spec, swept};
use crate::git::worktrees::{initialized_among, Tree};
use crate::git::{self, FastForwardResult, StaleBranch};
use crate::grammar::{Verb, Words};
use crate::path;
use crate::rows::{keep_map, lemma_keep_map_from, lemma_unique};
use crate::talk::{Answer, Asked, Mark, Presence, Progress};
use crate::text;

use super::placing::named_default;
use super::steps::{printed, told};
use super::{
    git_args, left_of, lemma_left_after_one, lemma_left_of_itself, lemma_left_of_left, runs_words,
    went_well, went_wrong,
};

verus! {

// ---------------------------------------------------------------------------
// The anchor, and what is stale by it
// ---------------------------------------------------------------------------

/// Staleness is judged against the local copy of the remote's default branch,
/// and against its remote counterpart only where there is no local copy. Where
/// there is neither, or no default branch, there is nothing to judge against.
pub proof fn the_anchor_is_the_local_default(
    remote: Seq<char>,
    said: Answer,
    local: Answer,
    counterpart: Answer,
    default: Seq<char>,
)
    requires
        named_default(said, remote) == Some(default),
        local is Ran && local->Ran_0 is Ok,
        counterpart is Ran && counterpart->Ran_0 is Ok,
    ensures
        ({
            let none: Seq<Answer> = Seq::empty();
            let one = none.push(said);
            let here = "refs/heads/"@ + default;
            let there = "refs/remotes/"@ + remote + "/"@ + default;
            &&& runs_words(
                merged_anchor_spec(none, remote),
                None,
                args2("symbolic-ref"@, "refs/remotes/"@ + remote + "/HEAD"@),
            )
            &&& runs_words(merged_anchor_spec(one, remote), None, args2("rev-parse"@, here))
            &&& went_well(local) ==> merged_anchor_spec(one.push(local), remote)
                == Progress::Finished(Some((here, default)), none)
            &&& went_wrong(local) ==> runs_words(
                merged_anchor_spec(one.push(local), remote),
                None,
                args2("rev-parse"@, there),
            )
            &&& went_wrong(local) && went_well(counterpart) ==> merged_anchor_spec(
                one.push(local).push(counterpart),
                remote,
            ) == Progress::Finished(Some((there, default)), none)
            &&& went_wrong(local) && went_wrong(counterpart) ==> merged_anchor_spec(
                one.push(local).push(counterpart),
                remote,
            ) == Progress::Finished(None::<(Seq<char>, Seq<char>)>, none)
        }),
{
    let none: Seq<Answer> = Seq::empty();
    let one = none.push(said);
    assert(one.drop_first() =~= none);
    assert(one.push(local).drop_first().drop_first() =~= none);
    assert(one.push(local).push(counterpart).drop_first().drop_first().drop_first() =~= none);
}

/// The sweep never offers the branch that is checked out, one that the
/// configuration keeps, or the remote's default branch.
pub proof fn what_is_kept_is_never_swept(rest: Seq<Answer>, remote: Seq<char>, name: Seq<char>)
    requires
        rest.len() > 2,
        went_well(rest[0]) && text::trim(printed(rest[0])) == name && name.len() > 0 || went_well(
            rest[1],
        ) && text::lines(printed(rest[1])).contains(name) || named_default(rest[2], remote) == Some(
            name,
        ),
    ensures
        stale_branches_spec(rest, remote) matches Progress::Finished(Ok(stale), _) ==> forall|i: int|
            0 <= i < stale.len() ==> (#[trigger] stale[i]).name != name,
{
    let current = if went_well(rest[0]) && text::trim(printed(rest[0])).len() > 0 {
        Some(text::trim(printed(rest[0])))
    } else {
        None
    };
    let configured: Words = if went_well(rest[1]) {
        text::lines(printed(rest[1]))
    } else {
        Seq::empty()
    };
    let keep = match named_default(rest[2], remote) {
        Some(default) => configured.push(default),
        None => configured,
    };
    if named_default(rest[2], remote) == Some(name) {
        assert(keep.last() == name);
    }
    if configured.contains(name) {
        let i = choose|i: int| 0 <= i < configured.len() && configured[i] == name;
        assert(keep[i] == name);
    }
    assert forall|found: Seq<StaleBranch<Seq<char>>>, i: int|
        0 <= i < swept(found, current, keep).len() implies (#[trigger] swept(
        found,
        current,
        keep,
    )[i]).name != name by {
        lemma_swept(found, current, keep, swept(found, current, keep)[i]);
        assert(swept(found, current, keep).contains(swept(found, current, keep)[i]));
    }
}

// ---------------------------------------------------------------------------
// Equivalence
// ---------------------------------------------------------------------------

/// A patch is found on the anchor only by a commit whose own patch id, read
/// last, is the very one that was wanted.
pub proof fn an_exact_patch_was_read(
    rest: Seq<Answer>,
    dir: Option<Seq<char>>,
    commits: Words,
    wanted: Seq<char>,
)
    ensures
        any_exact(rest, dir, commits, wanted) matches Progress::Finished(found, left) ==> {
            &&& left_of(left, rest)
            &&& found ==> rest.len() - left.len() >= 2 && ({
                let last = rest[rest.len() - left.len() - 1];
                went_well(last) && text::split_white(printed(last)).len() > 0 && text::split_white(
                    printed(last),
                )[0] == wanted
            })
        },
    decreases commits.len(),
{
    lemma_left_of_itself(rest);
    if commits.len() > 0 {
        let words = crate::git::equivalence::commit_diff(commits[0]);
        match verbatim_patch_id_spec(rest, dir, words) {
            Progress::Finished(id, left) => {
                lemma_left_after_one(rest);
                if left.len() + 2 == rest.len() {
                    lemma_left_after_one(rest.drop_first());
                    lemma_left_of_left(left, rest.drop_first(), rest);
                    assert(rest.drop_first()[0] == rest[1]);
                }
                assert(left_of(left, rest));
                if id != Some(wanted) {
                    an_exact_patch_was_read(left, dir, commits.drop_first(), wanted);
                    match any_exact(left, dir, commits.drop_first(), wanted) {
                        Progress::Finished(found, after) => {
                            lemma_left_of_left(after, left, rest);
                            if found {
                                let k = left.len() - after.len() - 1;
                                assert(left[k] == rest[rest.len() - left.len() + k]);
                            }
                        },
                        _ => {},
                    }
                }
            },
            Progress::Waiting(_) => {},
        }
    }
}

/// A branch is proven by its contents only if git listed what it touched,
/// something and readable, and then found no difference in it.
pub proof fn contents_prove_only_what_was_compared(
    rest: Seq<Answer>,
    dir: Option<Seq<char>>,
    anchor: Seq<char>,
    tip: Seq<char>,
    base: Seq<char>,
)
    ensures
        content_present_spec(rest, dir, anchor, tip, base) matches Progress::Finished(true, _) ==> {
            &&& rest.len() > 1 && went_well(rest[0]) && went_well(rest[1])
            &&& !printed(rest[0]).contains('\u{fffd}')
            &&& printed(rest[0]).len() > 0
        },
        rest.len() == 1 ==> (content_present_spec(rest, dir, anchor, tip, base)
            matches Progress::Waiting(request) ==> git_args(request).contains(tip) && git_args(
            request,
        ).contains(anchor) && git_args(request)[0] == "--literal-pathspecs"@),
{
    if rest.len() > 0 && went_well(rest[0]) {
        let listing = printed(rest[0]);
        if listing.len() == 0 {
            text::lemma_split_first(listing, '\0', listing);
            lemma_nothing_listed(listing);
        }
        let touched = crate::git::equivalence::touched_paths(listing);
        let words = crate::git::equivalence::comparison_args(tip, anchor, touched);
        assert(words[0] == "--literal-pathspecs"@);
        assert(words[6] == tip);
        assert(words[7] == anchor);
    }
}

proof fn lemma_nothing_listed(listing: Seq<char>)
    requires
        listing.len() == 0,
    ensures
        crate::git::equivalence::touched_paths(listing).len() == 0,
{
    let pieces = text::split(listing, '\0');
    reveal_with_fuel(crate::rows::keep_map, 3);
    assert(pieces.len() == 1 && pieces[0].len() == 0) by {
        text::lemma_least(0, 0, text::holds(listing, '\0'));
    }
    assert(pieces.drop_last() =~= Seq::empty());
}

// ---------------------------------------------------------------------------
// Fetching once
// ---------------------------------------------------------------------------

/// A fetch from elsewhere is spared only if the remote has the same URL and git
/// the same configuration in both places, as git says when it is asked in each.
pub proof fn a_spared_fetch_would_have_done_the_same(
    rest: Seq<Answer>,
    dir: Seq<char>,
    remote: Seq<char>,
)
    ensures
        runs_words(alike_spec(Seq::empty(), dir, remote), None, args3("remote"@, "get-url"@, remote)),
        rest.len() == 2 ==> runs_words(
            alike_spec(rest, dir, remote),
            Some(dir),
            args3("remote"@, "get-url"@, remote),
        ),
        rest.len() == 3 ==> runs_words(
            alike_spec(rest, dir, remote),
            Some(dir),
            args3("config"@, "--null"@, "--list"@),
        ),
        alike_spec(rest, dir, remote) matches Progress::Finished(Coverage::Spared, _) ==> {
            &&& rest.len() > 4 && went_well(rest[0]) && went_well(rest[2])
            &&& text::trim(printed(rest[0])) == text::trim(printed(rest[2]))
            &&& went_well(rest[1]) && went_well(rest[3]) ==> git::entries_in(printed(rest[1]))
                == git::entries_in(printed(rest[3]))
        },
{
}

/// A branch that is named is fetched for ahead only where no worktree was found
/// to declare submodules, nor the repository to keep any, and then from the
/// remote given.
pub proof fn nothing_is_fetched_ahead_of_submodules(
    rest: Seq<Answer>,
    target: Seq<char>,
    trees: Seq<Tree>,
    remote: Seq<char>,
)
    ensures
        prefetched_spec(rest, Some(target), trees, remote) matches Progress::Waiting(
            Asked::Background { args, .. },
        ) ==> args == args4("fetch"@, "--quiet"@, "--prune"@, remote) && rest.len()
            > trees.len() && (forall|
            i: int,
        |
            0 <= i < trees.len() ==> #[trigger] rest[i] != Answer::Flag(true)) && (rest.len()
            > trees.len() + 1 ==> rest[trees.len() as int + 1] != Answer::Flag(true)),
{
    lemma_none_declares(rest, trees);
    match any_declares(rest, trees) {
        Progress::Finished(false, left) => {
            if left.len() > 1 {
                assert(left.drop_first()[0] == rest[trees.len() as int + 1]);
            }
        },
        _ => {},
    }
}

proof fn lemma_none_declares(rest: Seq<Answer>, trees: Seq<Tree>)
    ensures
        any_declares(rest, trees) matches Progress::Waiting(request) ==> request is Exists,
        any_declares(rest, trees) matches Progress::Finished(found, left) ==> left_of(left, rest)
            && (!found ==> rest.len() - left.len() == trees.len() && forall|i: int|
            0 <= i < trees.len() ==> #[trigger] rest[i] != Answer::Flag(true)),
    decreases trees.len(),
{
    lemma_left_of_itself(rest);
    if trees.len() > 0 && rest.len() > 0 {
        let after = rest.drop_first();
        lemma_left_after_one(rest);
        lemma_none_declares(after, trees.drop_first());
        match any_declares(after, trees.drop_first()) {
            Progress::Finished(found, left) => {
                lemma_left_of_left(left, after, rest);
                if !found && rest[0] != Answer::Flag(true) {
                    assert forall|i: int| 0 <= i < trees.len() implies #[trigger] rest[i]
                        != Answer::Flag(true) by {
                        if i > 0 {
                            assert(rest[i] == after[i - 1]);
                        }
                    }
                }
            },
            _ => {},
        }
    }
}

// ---------------------------------------------------------------------------
// Submodules
// ---------------------------------------------------------------------------

proof fn lemma_all_absent(rest: Seq<Answer>, below: Seq<char>, entries: Seq<Seq<u8>>)
    ensures
        initialized_among(rest, below, entries) matches Progress::Finished(Some(false), left)
            ==> left_of(left, rest) && forall|i: int|
            0 <= i < rest.len() - left.len() ==> #[trigger] rest[i] == Answer::Probed(
                Presence::Absent,
            ),
    decreases entries.len(),
{
    lemma_left_of_itself(rest);
    if entries.len() > 0 {
        let others = entries.drop_first();
        lemma_all_absent(rest, below, others);
        if rest.len() > 0 {
            let after = rest.drop_first();
            lemma_left_after_one(rest);
            lemma_all_absent(after, below, others);
            match initialized_among(after, below, others) {
                Progress::Finished(Some(false), left) => {
                    lemma_left_of_left(left, after, rest);
                    if rest[0] == Answer::Probed(Presence::Absent) {
                        assert forall|i: int|
                            0 <= i < rest.len() - left.len() implies #[trigger] rest[i]
                            == Answer::Probed(Presence::Absent) by {
                            if i > 0 {
                                assert(rest[i] == after[i - 1]);
                            }
                        }
                    }
                },
                _ => {},
            }
        }
    }
}

/// A worktree may be moved past git only if git looked into it and listed its
/// index, and every submodule there was found not to be initialized.
pub proof fn only_a_worktree_without_submodules_is_moved(
    rest: Seq<Answer>,
    tree: Seq<char>,
    force: bool,
)
    ensures
        movable_spec(rest, tree, force) matches Progress::Finished(true, left) ==> {
            &&& rest.len() - left.len() >= 2
            &&& went_well(rest[0]) && (printed(rest[0]).len() == 0 || force)
            &&& (rest[1] matches Answer::RanBytes(Ok(output)) && output.code == Some(0i32))
            &&& forall|i: int|
                2 <= i < rest.len() - left.len() ==> #[trigger] rest[i] == Answer::Probed(
                    Presence::Absent,
                )
        },
{
    if rest.len() > 1 {
        let after = rest.drop_first().drop_first();
        match rest[1] {
            Answer::RanBytes(Ok(output)) => {
                let entries = text::split(output.stdout, 0u8);
                lemma_all_absent(after, tree, entries);
                match initialized_among(after, tree, entries) {
                    Progress::Finished(Some(false), left) => {
                        assert forall|i: int| 2 <= i < rest.len() - left.len() implies #[trigger] rest[i]
                            == Answer::Probed(Presence::Absent) by {
                            assert(rest[i] == after[i - 2]);
                        }
                    },
                    _ => {},
                }
            },
            _ => {},
        }
    }
}

// ---------------------------------------------------------------------------
// Names, signs and lines
// ---------------------------------------------------------------------------

/// A worktree answers to its branch and to the name of its directory, and to
/// nothing else.
pub proof fn a_worktree_answers_to_branch_and_directory(
    branch: Option<Seq<char>>,
    at: Seq<char>,
    name: Seq<char>,
)
    ensures
        names_of(branch, at).contains(name) <==> branch == Some(name) || path::file_name(at)
            == Some(name),
{
    let names = names_of(branch, at);
    if branch == Some(name) {
        assert(names[0] == name);
    }
    if path::file_name(at) == Some(name) {
        assert(names.last() == name);
    }
    if names.contains(name) {
        let i = choose|i: int| 0 <= i < names.len() && names[i] == name;
    }
}

/// A worktree's signs say that it is dirty, ahead and behind, each exactly
/// where it is, and by how much.
pub proof fn signs_say_what_holds(dirty: bool, ahead: u32, behind: u32, n: u32)
    ensures
        status_signs_spec(dirty, ahead, behind).contains(Sign::Dirty) <==> dirty,
        status_signs_spec(dirty, ahead, behind).contains(Sign::Ahead(n)) <==> ahead == n && n > 0,
        status_signs_spec(dirty, ahead, behind).contains(Sign::Behind(n)) <==> behind == n && n > 0,
{
    let signs = status_signs_spec(dirty, ahead, behind);
    let k: int = if dirty {
        1
    } else {
        0
    };
    if dirty {
        assert(signs[0] == Sign::Dirty);
    }
    if ahead > 0 {
        assert(signs[k] == Sign::Ahead(ahead));
    }
    if behind > 0 {
        assert(signs.last() == Sign::Behind(behind));
    }
}

/// The worktrees' statuses are read one after the other, each in its own
/// worktree, and stand in the worktrees' order.
pub proof fn statuses_stand_in_their_order(
    rest: Seq<Answer>,
    trees: Seq<Tree>,
    tracks: Seq<(Seq<char>, (u32, u32))>,
    found: Words,
)
    ensures
        statuses_spec(rest, trees, tracks, found) matches Progress::Finished(all, _) ==> all.len()
            == found.len() + trees.len() && all.take(found.len() as int) == found,
        trees.len() > 0 && !trees[0].prunable && rest.len() == 0 ==> runs_words(
            statuses_spec(rest, trees, tracks, found),
            Some(trees[0].path),
            args2("status"@, "--porcelain"@),
        ),
    decreases trees.len(),
{
    if trees.len() == 0 {
        assert(found.take(found.len() as int) =~= found);
    } else {
        match status_spec(rest, trees[0], tracks) {
            Progress::Finished(status, left) => {
                let more = found.push(status);
                statuses_stand_in_their_order(left, trees.drop_first(), tracks, more);
                match statuses_spec(left, trees.drop_first(), tracks, more) {
                    Progress::Finished(all, _) => {
                        assert(all.take(more.len() as int) == more);
                        assert(all.take(found.len() as int) =~= more.take(found.len() as int));
                        assert(more.take(found.len() as int) =~= found);
                    },
                    _ => {},
                }
            },
            Progress::Waiting(_) => {},
        }
    }
}

/// Every worktree is listed on a line of its own, in git's order.
pub proof fn every_worktree_is_listed(
    rest: Seq<Answer>,
    trees: Seq<Tree>,
    statuses: Words,
)
    requires
        statuses.len() == trees.len(),
        rest.len() < trees.len(),
    ensures
        print_each(rest, ls_lines(trees, statuses)) matches Progress::Waiting(Asked::Print(line))
            && text::ends_with(line, trees[rest.len() as int].path + "\n"@),
{
    let lines = ls_lines(trees, statuses);
    lemma_prints_in_order(rest, lines);
    let line = lines[rest.len() as int];
    let at = trees[rest.len() as int].path;
    assert(line.skip(line.len() - at.len()) =~= at);
    let whole = line + "\n"@;
    assert(whole.skip(whole.len() - (at + "\n"@).len()) =~= at + "\n"@);
}

proof fn lemma_prints_in_order(rest: Seq<Answer>, lines: Words)
    requires
        rest.len() < lines.len(),
    ensures
        print_each(rest, lines) == Progress::<()>::Waiting(
            Asked::Print(lines[rest.len() as int] + "\n"@),
        ),
    decreases lines.len(),
{
    if rest.len() > 0 {
        lemma_prints_in_order(rest.drop_first(), lines.drop_first());
        assert(lines.drop_first()[rest.len() - 1] == lines[rest.len() as int]);
    }
}

// ---------------------------------------------------------------------------
// What does not stop
// ---------------------------------------------------------------------------

/// An update that failed is told of, and the shell is handed the worktree all
/// the same.
pub proof fn a_failed_update_does_not_stop(
    rest: Seq<Answer>,
    target: Seq<char>,
    at: Seq<char>,
    remote: Seq<char>,
    own: Seq<char>,
    known: Seq<Answer>,
    why: Error<Seq<char>>,
    told_so: Answer,
    shown: Answer,
    said: Answer,
    after: Seq<Answer>,
)
    requires
        git::current_remote_spec(rest, Some(target)) == Progress::Finished(own, known),
        update_in_spec(known, at, target, own, None) == Progress::<Meant<()>>::Finished(
            Err(why),
            Seq::empty().push(told_so).push(shown).push(said) + after,
        ),
    ensures
        held_elsewhere_spec(rest, Verb::Go, target, at, remote) == sweep_and_hand_off_spec(
            after,
            target,
            remote,
            Some(at),
        ),
{
    let left = Seq::empty().push(told_so).push(shown).push(said) + after;
    assert(left.drop_first().drop_first().drop_first() =~= after);
}

/// A cleanup prompt that failed is told of, and the hand-off follows; only an
/// interrupt is the end of it.
pub proof fn only_an_interrupt_stops_a_handoff(
    rest: Seq<Answer>,
    destination: Seq<char>,
    remote: Seq<char>,
    at: Option<Seq<char>>,
    why: Error<Seq<char>>,
    left: Seq<Answer>,
)
    requires
        prompt_delete_stale_branches_spec(rest, None, Some(destination), remote) == Progress::<
            Meant<()>,
        >::Finished(Err(why), left),
    ensures
        (why matches Error::Io(e) && e.kind == IoKind::Interrupted) ==> sweep_and_hand_off_spec(
            rest,
            destination,
            remote,
            at,
        ) == Progress::<Meant<()>>::Finished(Err(why), left),
        !(why matches Error::Io(e) && e.kind == IoKind::Interrupted) && left.len() == 0
            ==> sweep_and_hand_off_spec(rest, destination, remote, at) == told::<Meant<()>>(
            Mark::Warning,
            "stale-branch check failed: "@ + why.message(),
        ),
        !(why matches Error::Io(e) && e.kind == IoKind::Interrupted) && left.len() > 0
            ==> sweep_and_hand_off_spec(rest, destination, remote, at) == handed_off_spec(
            left.drop_first(),
            at,
        ),
{
}

/// A branch is fetched and then fast-forwarded, in the directory given, and the
/// fast-forward does not wait for the fetch to have succeeded.
pub proof fn a_failed_fetch_does_not_stop_the_merge(
    dir: Option<Seq<char>>,
    branch: Seq<char>,
    remote: Seq<char>,
    spun: Answer,
    fetched: Answer,
    after: Seq<Answer>,
)
    ensures
        runs_words(
            fetch_and_ff_spec(Seq::empty().push(spun), dir, branch, remote, None),
            dir,
            args4("fetch"@, "--quiet"@, "--prune"@, remote),
        ),
        git::fast_forward_merge_spec(after, dir, branch, remote) matches Progress::Waiting(request)
            ==> fetch_and_ff_spec(
            Seq::empty().push(spun).push(fetched) + after,
            dir,
            branch,
            remote,
            None,
        ) == Progress::<Meant<FastForwardResult>>::Waiting(request),
{
    let one = Seq::empty().push(spun);
    assert(one.drop_first() =~= Seq::<Answer>::empty());
    let all = one.push(fetched) + after;
    assert(all.drop_first().drop_first() =~= after);
}

proof fn lemma_all_names(trees: Seq<Tree>, name: Seq<char>)
    ensures
        all_names(trees).contains(name) <==> exists|i: int|
            0 <= i < trees.len() && names_of((#[trigger] trees[i]).branch, trees[i].path).contains(
                name,
            ),
    decreases trees.len(),
{
    if trees.len() > 0 {
        let before = trees.drop_last();
        let last = trees.last();
        let own = names_of(last.branch, last.path);
        lemma_all_names(before, name);
        let all = all_names(trees);
        if all.contains(name) {
            let k = choose|k: int| 0 <= k < all.len() && all[k] == name;
            if k < all_names(before).len() {
                assert(all_names(before)[k] == name);
                let i = choose|i: int|
                    0 <= i < before.len() && names_of(
                        (#[trigger] before[i]).branch,
                        before[i].path,
                    ).contains(name);
                assert(trees[i] == before[i]);
            } else {
                assert(own[k - all_names(before).len()] == name);
                assert(trees[trees.len() - 1] == last);
            }
        }
        if exists|i: int|
            0 <= i < trees.len() && names_of((#[trigger] trees[i]).branch, trees[i].path).contains(
                name,
            ) {
            let i = choose|i: int|
                0 <= i < trees.len() && names_of(
                    (#[trigger] trees[i]).branch,
                    trees[i].path,
                ).contains(name);
            if i < before.len() {
                assert(before[i] == trees[i]);
                let k = choose|k: int|
                    0 <= k < all_names(before).len() && all_names(before)[k] == name;
                assert(all[k] == name);
            } else {
                let k = choose|k: int| 0 <= k < own.len() && own[k] == name;
                assert(all[all_names(before).len() + k] == name);
            }
        }
    }
}

/// What `wt rm` completes is what it accepts: every name of every worktree but
/// the main one, and nothing else.
pub proof fn what_is_completed_is_accepted(trees: Seq<Tree>, name: Seq<char>)
    ensures
        candidates(trees).contains(name) <==> exists|i: int|
            0 <= i < trees.len() && !(#[trigger] trees[i]).is_main && (trees[i].branch == Some(name)
                || path::file_name(trees[i].path) == Some(name)),
{
    let removable = keep_map(trees, not_main());
    lemma_unique(all_names(removable));
    lemma_all_names(removable, name);
    if candidates(trees).contains(name) {
        let k = choose|k: int|
            0 <= k < removable.len() && names_of(
                (#[trigger] removable[k]).branch,
                removable[k].path,
            ).contains(name);
        assert(removable.contains(removable[k]));
        lemma_keep_map_from(trees, not_main(), removable[k]);
        let i = choose|i: int|
            0 <= i < trees.len() && not_main()(#[trigger] trees[i]) == Some(removable[k]);
        assert(trees[i] == removable[k]);
        a_worktree_answers_to_branch_and_directory(trees[i].branch, trees[i].path, name);
    }
    if exists|i: int|
        0 <= i < trees.len() && !(#[trigger] trees[i]).is_main && (trees[i].branch == Some(name)
            || path::file_name(trees[i].path) == Some(name)) {
        let i = choose|i: int|
            0 <= i < trees.len() && !(#[trigger] trees[i]).is_main && (trees[i].branch == Some(name)
                || path::file_name(trees[i].path) == Some(name));
        a_worktree_answers_to_branch_and_directory(trees[i].branch, trees[i].path, name);
        lemma_keep_map_from(trees, not_main(), trees[i]);
        assert(not_main()(trees[i]) == Some(trees[i]));
        let k = choose|k: int| 0 <= k < removable.len() && removable[k] == trees[i];
        assert(names_of(removable[k].branch, removable[k].path).contains(name));
    }
}

} // verus!
