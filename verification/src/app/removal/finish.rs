//! Removing what was chosen.
//!
//! Git's own guards stand in the way of whatever was not warned of: only an
//! explicit force, a warning that the user has seen, or a proof that nothing
//! is lost lets a removal past them, and each of them only past what it named.
use vstd::prelude::*;
use vstd::string::*;

use crate::app::hook::{fire, fire_spec, HookEvent};
use crate::app::reclamation::{
    restore, restore_spec, stage, stage_spec, start, start_spec, Staged,
};
use crate::app::reports::{display_path, display_path_spec};
use crate::ask::{ask_done, done_asked, lent, tell, tell_asked};
use crate::error::{AppResult, Meant};
use crate::git::deletion::{
    delete_branch_at_spec, delete_branch_if_merged_spec, force_delete_branch_spec,
};
use crate::git::worktrees::{
    worktree_dirtiness_spec, worktree_has_initialized_submodules_spec, worktree_remove_spec,
};
use crate::git::{self, resolve_spec, BranchDeleteOutcome, Holder, Proof, WorktreeRemoveOutcome};
use crate::model::{borrowed, models, Modelled};
use crate::rows;
use crate::talk::{heard, Answer, Asked, Mark, Progress, Request, Talk};
use crate::text;

use super::assess::Meaning;
use super::Offer;

verus! {

// ---------------------------------------------------------------------------
// Worktrees
// ---------------------------------------------------------------------------

/// Whether a worktree may be moved aside, to be deleted in the background. The
/// move would get past git's guards, so what they guard is read first: a
/// worktree that is not known to be clean, or may hold a submodule, is left to
/// git.
pub open spec fn movable_spec(rest: Seq<Answer>, path: Seq<char>, force: bool) -> Progress<bool> {
    match worktree_dirtiness_spec(rest, path) {
        Progress::Waiting(q) => Progress::Waiting(q),
        Progress::Finished(dirty, rest) => if dirty == Some(false) || (dirty == Some(true) && force) {
            match worktree_has_initialized_submodules_spec(rest, path) {
                Progress::Waiting(q) => Progress::Waiting(q),
                Progress::Finished(submodules, rest) => Progress::Finished(
                    submodules == Some(false),
                    rest,
                ),
            }
        } else {
            Progress::Finished(false, rest)
        },
    }
}

fn is_movable(talk: &mut Talk, path: &str, force: bool) -> (r: Option<bool>)
    ensures
        heard(r, *final(talk)) == movable_spec(old(talk).rest(), path@, force),
{
    let may: bool = match git::worktree_dirtiness(talk, path)? {
        Some(dirty) => !dirty || force,
        None => false,
    };
    if !may {
        return Some(false);
    }
    match git::worktree_has_initialized_submodules(talk, path)? {
        Some(submodules) => Some(!submodules),
        None => Some(false),
    }
}

/// A failure that is told of and changes nothing.
pub open spec fn told_of_spec(rest: Seq<Answer>, result: Meant<()>) -> Progress<()> {
    match result {
        Ok(_) => Progress::Finished((), rest),
        Err(e) => tell_asked(rest, Mark::Warning, e.message()),
    }
}

fn tell_of(talk: &mut Talk, result: AppResult<()>) -> (r: Option<()>)
    ensures
        heard(r, *final(talk)) == told_of_spec(old(talk).rest(), result.model()),
{
    match result {
        Ok(()) => Some(()),
        Err(e) => tell(talk, Mark::Warning, e.to_string()),
    }
}

/// What becomes of a worktree that was moved aside: once git has removed its
/// registration it is deleted in the background, and otherwise it is put back.
pub open spec fn settle_spec(
    rest: Seq<Answer>,
    staged: Staged<Seq<char>>,
    removed: Meant<WorktreeRemoveOutcome<Seq<char>>>,
) -> Progress<Meant<WorktreeRemoveOutcome<Seq<char>>>> {
    let settled = if removed == Meant::<WorktreeRemoveOutcome<Seq<char>>>::Ok(
        WorktreeRemoveOutcome::Removed,
    ) {
        start_spec(rest, staged)
    } else {
        restore_spec(rest, staged)
    };
    match settled {
        Progress::Waiting(q) => Progress::Waiting(q),
        Progress::Finished(result, rest) => match done_asked(rest, Asked::Unlock) {
            Progress::Waiting(q) => Progress::Waiting(q),
            Progress::Finished(_, rest) => match told_of_spec(rest, result) {
                Progress::Waiting(q) => Progress::Waiting(q),
                Progress::Finished(_, rest) => Progress::Finished(removed, rest),
            },
        },
    }
}

fn settle(
    talk: &mut Talk,
    staged: Staged,
    removed: AppResult<WorktreeRemoveOutcome>,
) -> (r: Option<AppResult<WorktreeRemoveOutcome>>)
    ensures
        heard(r, *final(talk)) == settle_spec(old(talk).rest(), staged.model(), removed.model()),
{
    let gone: bool = match &removed {
        Ok(WorktreeRemoveOutcome::Removed) => true,
        _ => false,
    };
    let settled: AppResult<()> = if gone {
        start(talk, &staged)?
    } else {
        restore(talk, &staged)?
    };
    ask_done(talk, Request::Unlock)?;
    tell_of(talk, settled)?;
    Some(removed)
}

/// Removes a worktree: moved aside first where that gets past nothing, and by
/// git alone otherwise. One that cannot be moved is left to git too.
pub open spec fn remove_worktree_spec(
    rest: Seq<Answer>,
    path: Seq<char>,
    missing: bool,
    force: bool,
) -> Progress<Meant<WorktreeRemoveOutcome<Seq<char>>>> {
    if missing {
        worktree_remove_spec(rest, path, force)
    } else {
        match movable_spec(rest, path, force) {
            Progress::Waiting(q) => Progress::Waiting(q),
            Progress::Finished(false, rest) => worktree_remove_spec(rest, path, force),
            Progress::Finished(true, rest) => match stage_spec(rest, path) {
                Progress::Waiting(q) => Progress::Waiting(q),
                Progress::Finished(Err(_), rest) => worktree_remove_spec(rest, path, force),
                Progress::Finished(Ok(staged), rest) => match worktree_remove_spec(
                    rest,
                    path,
                    force,
                ) {
                    Progress::Waiting(q) => Progress::Waiting(q),
                    Progress::Finished(removed, rest) => settle_spec(rest, staged, removed),
                },
            },
        }
    }
}

pub fn remove_worktree(talk: &mut Talk, path: &str, missing: bool, force: bool) -> (r: Option<
    AppResult<WorktreeRemoveOutcome>,
>)
    ensures
        heard(r, *final(talk)) == remove_worktree_spec(old(talk).rest(), path@, missing, force),
{
    if missing {
        return git::worktree_remove(talk, path, force);
    }
    if !is_movable(talk, path, force)? {
        return git::worktree_remove(talk, path, force);
    }
    match stage(talk, path)? {
        Err(_) => git::worktree_remove(talk, path, force),
        Ok(staged) => {
            let removed: AppResult<WorktreeRemoveOutcome> = git::worktree_remove(
                talk,
                path,
                force,
            )?;
            settle(talk, staged, removed)
        },
    }
}

// ---------------------------------------------------------------------------
// Branches
// ---------------------------------------------------------------------------

/// Deletes a branch that was proven to hold nothing of its own, if the proof
/// still stands: the anchor is where it was, and so is the branch. Otherwise
/// git decides.
pub open spec fn delete_proven_spec(
    rest: Seq<Answer>,
    dir: Option<Seq<char>>,
    branch: Seq<char>,
    proven: Proof<Seq<char>>,
) -> Progress<Meant<BranchDeleteOutcome<Seq<char>>>> {
    match resolve_spec(rest, dir, proven.anchor_ref) {
        Progress::Waiting(q) => Progress::Waiting(q),
        Progress::Finished(tip, rest) => if tip != Some(proven.anchor_tip) {
            delete_branch_if_merged_spec(rest, dir, branch)
        } else {
            match delete_branch_at_spec(rest, dir, branch, proven.tip) {
                Progress::Waiting(q) => Progress::Waiting(q),
                Progress::Finished(Err(e), rest) => Progress::Finished(Err(e), rest),
                Progress::Finished(Ok(Some(outcome)), rest) => Progress::Finished(Ok(outcome), rest),
                Progress::Finished(Ok(None), rest) => delete_branch_if_merged_spec(
                    rest,
                    dir,
                    branch,
                ),
            }
        },
    }
}

/// Deletes a local branch: whatever it holds where that is licensed, where it
/// was proven to hold nothing at the commit it was proven at, and otherwise
/// only if git considers it merged.
pub open spec fn delete_local_spec(
    rest: Seq<Answer>,
    dir: Option<Seq<char>>,
    branch: Seq<char>,
    force: bool,
    proven: Option<Proof<Seq<char>>>,
) -> Progress<Meant<BranchDeleteOutcome<Seq<char>>>> {
    if force {
        force_delete_branch_spec(rest, dir, branch)
    } else {
        match proven {
            Some(proven) => delete_proven_spec(rest, dir, branch, proven),
            None => delete_branch_if_merged_spec(rest, dir, branch),
        }
    }
}

pub fn delete_local(
    talk: &mut Talk,
    dir: Option<&str>,
    branch: &str,
    force: bool,
    proven: &Option<Proof>,
) -> (r: Option<AppResult<BranchDeleteOutcome>>)
    ensures
        heard(r, *final(talk)) == delete_local_spec(
            old(talk).rest(),
            borrowed(dir),
            branch@,
            force,
            proven.model(),
        ),
{
    if force {
        return git::force_delete_branch(talk, dir, branch);
    }
    if let Some(proven) = proven {
        let standing: bool = match git::resolve(talk, dir, &proven.anchor_ref)? {
            Some(tip) => text::same(&tip, &proven.anchor_tip),
            None => false,
        };
        if standing {
            match git::delete_branch_at(talk, dir, branch, &proven.tip)? {
                Err(e) => return Some(Err(e)),
                Ok(Some(outcome)) => return Some(Ok(outcome)),
                Ok(None) => {},
            }
        }
    }
    git::delete_branch_if_merged(talk, dir, branch)
}

/// Whether a branch went, and nothing is left to see to.
pub open spec fn went<S>(outcome: BranchDeleteOutcome<S>) -> bool {
    outcome is Deleted || outcome is DeletedConfigUnverified || outcome is DeletedLeavingConfig
}

/// What a worktree has to do with a branch that could not be put back.
pub open spec fn holder_words(holder: Holder) -> Seq<char> {
    match holder {
        Holder::Seen => "; a worktree holds it"@,
        Holder::Unknown => "; whether a worktree holds it is unknown"@,
    }
}

fn words_for(holder: Holder) -> (r: &'static str)
    ensures
        r@ == holder_words(holder),
{
    match holder {
        Holder::Seen => "; a worktree holds it",
        Holder::Unknown => "; whether a worktree holds it is unknown",
    }
}

/// What is wrong with how a branch went, or why it did not.
pub open spec fn deletion_trouble(
    branch: Seq<char>,
    outcome: BranchDeleteOutcome<Seq<char>>,
) -> Option<Seq<char>> {
    match outcome {
        BranchDeleteOutcome::Deleted => None,
        BranchDeleteOutcome::DeletedConfigUnverified(why) => Some(
            "could not tell whether the configuration of "@ + branch + " went with it: "@ + why,
        ),
        BranchDeleteOutcome::DeletedLeavingConfig(keys) => Some(
            "configuration of "@ + branch + " is left: "@ + keys,
        ),
        BranchDeleteOutcome::DeletedNotRestored { tip, detail, holder } => Some(
            "deleted "@ + branch + " at "@ + tip + " and could not put it back: "@ + detail
                + holder_words(holder),
        ),
        BranchDeleteOutcome::DeletedStateUnknown { tip, detail, holder } => Some(
            "deleted "@ + branch + " at "@ + tip + ", and whether it is back is unknown: "@ + detail
                + holder_words(holder),
        ),
        BranchDeleteOutcome::DeletedThenRecreated { tip, now } => Some(
            "deleted "@ + branch + " at "@ + tip + "; it stands again at "@ + now,
        ),
        BranchDeleteOutcome::NotMerged => Some(
            "could not delete "@ + branch + ": it has unmerged commits"@,
        ),
        BranchDeleteOutcome::Failed(why) => Some("could not delete "@ + branch + ": "@ + why),
    }
}

fn trouble_with(branch: &str, outcome: &BranchDeleteOutcome) -> (r: Option<String>)
    ensures
        r.model() == deletion_trouble(branch@, outcome.model()),
{
    match outcome {
        BranchDeleteOutcome::Deleted => None,
        BranchDeleteOutcome::DeletedConfigUnverified(why) => {
            let mut r: String = text::joined3(
                "could not tell whether the configuration of ",
                branch,
                " went with it: ",
            );
            r.append(why);
            Some(r)
        },
        BranchDeleteOutcome::DeletedLeavingConfig(keys) => {
            let mut r: String = text::joined3("configuration of ", branch, " is left: ");
            r.append(keys);
            Some(r)
        },
        BranchDeleteOutcome::DeletedNotRestored { tip, detail, holder } => {
            let mut r: String = text::joined3("deleted ", branch, " at ");
            r.append(tip);
            r.append(" and could not put it back: ");
            r.append(detail);
            r.append(words_for(*holder));
            Some(r)
        },
        BranchDeleteOutcome::DeletedStateUnknown { tip, detail, holder } => {
            let mut r: String = text::joined3("deleted ", branch, " at ");
            r.append(tip);
            r.append(", and whether it is back is unknown: ");
            r.append(detail);
            r.append(words_for(*holder));
            Some(r)
        },
        BranchDeleteOutcome::DeletedThenRecreated { tip, now } => {
            let mut r: String = text::joined3("deleted ", branch, " at ");
            r.append(tip);
            r.append("; it stands again at ");
            r.append(now);
            Some(r)
        },
        BranchDeleteOutcome::NotMerged => Some(
            text::joined3("could not delete ", branch, ": it has unmerged commits"),
        ),
        BranchDeleteOutcome::Failed(why) => {
            let mut r: String = text::joined3("could not delete ", branch, ": ");
            r.append(why);
            Some(r)
        },
    }
}

/// Whether a branch went, once the user has been told.
pub open spec fn report_deletion_spec(
    rest: Seq<Answer>,
    branch: Seq<char>,
    outcome: BranchDeleteOutcome<Seq<char>>,
) -> Progress<bool> {
    let said = if went(outcome) {
        tell_asked(rest, Mark::Check, "deleted "@ + branch)
    } else {
        Progress::Finished((), rest)
    };
    match said {
        Progress::Waiting(q) => Progress::Waiting(q),
        Progress::Finished(_, rest) => match deletion_trouble(branch, outcome) {
            None => Progress::Finished(went(outcome), rest),
            Some(line) => match tell_asked(rest, Mark::Warning, line) {
                Progress::Waiting(q) => Progress::Waiting(q),
                Progress::Finished(_, rest) => Progress::Finished(went(outcome), rest),
            },
        },
    }
}

fn report_deletion(talk: &mut Talk, branch: &str, outcome: &BranchDeleteOutcome) -> (r: Option<bool>)
    ensures
        heard(r, *final(talk)) == report_deletion_spec(
            old(talk).rest(),
            branch@,
            outcome.model(),
        ),
{
    let gone: bool = match outcome {
        BranchDeleteOutcome::Deleted => true,
        BranchDeleteOutcome::DeletedConfigUnverified(_) => true,
        BranchDeleteOutcome::DeletedLeavingConfig(_) => true,
        _ => false,
    };
    if gone {
        tell(talk, Mark::Check, text::joined("deleted ", branch))?;
    }
    if let Some(line) = trouble_with(branch, outcome) {
        tell(talk, Mark::Warning, line)?;
    }
    Some(gone)
}

/// Whether force is licensed on the branch of an offer: it was asked for, or
/// the row or the question said what would be lost.
pub open spec fn branch_licensed(offer: Meaning, forced: bool) -> bool {
    forced || offer.unmerged is Some
}

/// Deletes the branch of an offer, if it has one, and tells what came of it.
pub open spec fn remove_branch_spec(
    rest: Seq<Answer>,
    offer: Meaning,
    forced: bool,
    dir: Option<Seq<char>>,
) -> Progress<Meant<bool>> {
    match offer.branch {
        None => Progress::Finished(Ok(true), rest),
        Some(branch) => match delete_local_spec(
            rest,
            dir,
            branch,
            branch_licensed(offer, forced),
            offer.proof,
        ) {
            Progress::Waiting(q) => Progress::Waiting(q),
            Progress::Finished(Err(e), rest) => Progress::Finished(Err(e), rest),
            Progress::Finished(Ok(outcome), rest) => match report_deletion_spec(
                rest,
                branch,
                outcome,
            ) {
                Progress::Waiting(q) => Progress::Waiting(q),
                Progress::Finished(gone, rest) => Progress::Finished(Ok(gone), rest),
            },
        },
    }
}

pub fn remove_branch(talk: &mut Talk, offer: &Offer, forced: bool, dir: Option<&str>) -> (r: Option<
    AppResult<bool>,
>)
    ensures
        heard(r, *final(talk)) == remove_branch_spec(
            old(talk).rest(),
            offer.model(),
            forced,
            borrowed(dir),
        ),
{
    let branch: &str = match &offer.branch {
        Some(branch) => branch.as_str(),
        None => return Some(Ok(true)),
    };
    let force: bool = forced || offer.unmerged.is_some();
    match delete_local(talk, dir, branch, force, &offer.proof)? {
        Err(e) => Some(Err(e)),
        Ok(outcome) => {
            let gone: bool = report_deletion(talk, branch, &outcome)?;
            Some(Ok(gone))
        },
    }
}

// ---------------------------------------------------------------------------
// Offers
// ---------------------------------------------------------------------------

/// What is said, and what the hook is told, of a worktree that went.
pub open spec fn announce_removed_spec(
    rest: Seq<Answer>,
    path: Seq<char>,
    shown: Seq<char>,
    branch: Option<Seq<char>>,
    main: Seq<char>,
) -> Progress<()> {
    match tell_asked(rest, Mark::Check, "removed worktree at "@ + shown) {
        Progress::Waiting(q) => Progress::Waiting(q),
        Progress::Finished(_, rest) => fire_spec(rest, HookEvent::Removed, path, branch, main),
    }
}

/// The directory the removal runs from, in words for the hook.
pub open spec fn main_path(dir: Option<Seq<char>>) -> Seq<char> {
    match dir {
        Some(path) => path,
        None => Seq::empty(),
    }
}

/// Whether force is licensed on the worktree of an offer.
pub open spec fn worktree_licensed(offer: Meaning, forced: bool) -> bool {
    forced || offer.dirty
}

/// Removes an offer: its worktree first, and only once that is gone the branch
/// it held.
pub open spec fn remove_offer_spec(
    rest: Seq<Answer>,
    offer: Meaning,
    forced: bool,
    dir: Option<Seq<char>>,
) -> Progress<Meant<bool>> {
    match offer.worktree {
        None => remove_branch_spec(rest, offer, forced, dir),
        Some(path) => match remove_worktree_spec(
            rest,
            path,
            offer.missing,
            worktree_licensed(offer, forced),
        ) {
            Progress::Waiting(q) => Progress::Waiting(q),
            Progress::Finished(Err(e), rest) => Progress::Finished(Err(e), rest),
            Progress::Finished(Ok(outcome), rest) => match display_path_spec(rest, path) {
                Progress::Waiting(q) => Progress::Waiting(q),
                Progress::Finished(shown, rest) => match outcome {
                    WorktreeRemoveOutcome::Failed(why) => match tell_asked(
                        rest,
                        Mark::Warning,
                        "failed to remove "@ + shown + ": "@ + why,
                    ) {
                        Progress::Waiting(q) => Progress::Waiting(q),
                        Progress::Finished(_, rest) => Progress::Finished(Ok(false), rest),
                    },
                    WorktreeRemoveOutcome::Removed => match announce_removed_spec(
                        rest,
                        path,
                        shown,
                        offer.branch,
                        main_path(dir),
                    ) {
                        Progress::Waiting(q) => Progress::Waiting(q),
                        Progress::Finished(_, rest) => remove_branch_spec(rest, offer, forced, dir),
                    },
                },
            },
        },
    }
}

fn announce_removed(
    talk: &mut Talk,
    path: &str,
    shown: &str,
    branch: Option<&str>,
    dir: Option<&str>,
) -> (r: Option<()>)
    ensures
        heard(r, *final(talk)) == announce_removed_spec(
            old(talk).rest(),
            path@,
            shown@,
            borrowed(branch),
            main_path(borrowed(dir)),
        ),
{
    tell(talk, Mark::Check, text::joined("removed worktree at ", shown))?;
    let none: String = String::new();
    assert(none@ =~= Seq::empty());
    let main: &str = match dir {
        Some(dir) => dir,
        None => none.as_str(),
    };
    fire(talk, HookEvent::Removed, path, branch, main)
}

pub fn remove_offer(talk: &mut Talk, offer: &Offer, forced: bool, dir: Option<&str>) -> (r: Option<
    AppResult<bool>,
>)
    ensures
        heard(r, *final(talk)) == remove_offer_spec(
            old(talk).rest(),
            offer.model(),
            forced,
            borrowed(dir),
        ),
{
    if let Some(path) = &offer.worktree {
        let force: bool = forced || offer.dirty;
        let outcome: WorktreeRemoveOutcome = match remove_worktree(
            talk,
            path,
            offer.missing,
            force,
        )? {
            Ok(outcome) => outcome,
            Err(e) => return Some(Err(e)),
        };
        let shown: String = display_path(talk, path)?;
        match outcome {
            WorktreeRemoveOutcome::Failed(why) => {
                let mut line: String = text::joined3("failed to remove ", &shown, ": ");
                line.append(&why);
                tell(talk, Mark::Warning, line)?;
                return Some(Ok(false));
            },
            WorktreeRemoveOutcome::Removed => {
                announce_removed(talk, path, &shown, lent(&offer.branch), dir)?;
            },
        }
    }
    remove_branch(talk, offer, forced, dir)
}

/// Offers removed one after the other; one that fails stops none of the
/// others. Whether all went comes back, with whether all had gone before.
pub open spec fn finish_each(
    rest: Seq<Answer>,
    offers: Seq<Meaning>,
    forced: bool,
    dir: Option<Seq<char>>,
    all: bool,
) -> Progress<Meant<bool>>
    decreases offers.len(),
{
    if offers.len() == 0 {
        Progress::Finished(Ok(all), rest)
    } else {
        match remove_offer_spec(rest, offers[0], forced, dir) {
            Progress::Waiting(q) => Progress::Waiting(q),
            Progress::Finished(Err(e), rest) => Progress::Finished(Err(e), rest),
            Progress::Finished(Ok(gone), rest) => finish_each(
                rest,
                offers.drop_first(),
                forced,
                dir,
                all && gone,
            ),
        }
    }
}

/// Removes what was chosen, in the order it was offered in.
pub open spec fn finish_spec(
    rest: Seq<Answer>,
    offers: Seq<Meaning>,
    forced: bool,
    dir: Option<Seq<char>>,
) -> Progress<Meant<bool>> {
    finish_each(rest, offers, forced, dir, true)
}

pub fn finish(talk: &mut Talk, offers: &[Offer], forced: bool, dir: Option<&str>) -> (r: Option<
    AppResult<bool>,
>)
    ensures
        heard(r, *final(talk)) == finish_spec(
            old(talk).rest(),
            models(offers@),
            forced,
            borrowed(dir),
        ),
{
    let ghost every = models(offers@);
    let mut all: bool = true;
    let mut i: usize = 0;
    proof {
        rows::lemma_take_all(every);
    }
    while i < offers.len()
        invariant
            i <= offers@.len(),
            every == models(offers@),
            finish_spec(old(talk).rest(), every, forced, borrowed(dir)) == finish_each(
                talk.rest(),
                every.skip(i as int),
                forced,
                borrowed(dir),
                all,
            ),
        decreases offers@.len() - i,
    {
        proof {
            rows::lemma_take_one_more(every, i as int);
        }
        match remove_offer(talk, &offers[i], forced, dir)? {
            Ok(gone) => {
                all = all && gone;
            },
            Err(e) => return Some(Err(e)),
        }
        i += 1;
    }
    Some(Ok(all))
}

} // verus!
