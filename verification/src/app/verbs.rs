//! Going to a branch: where it lives, or here.
use vstd::prelude::*;
use vstd::string::*;

use crate::ask::{lent, tell, tell_asked};
use crate::error::{AppResult, Error, Meant};
use crate::git::worktrees::{holding, Tree};
use crate::git::{self, FastForwardResult, Worktree};
use crate::grammar::Verb;
use crate::model::{borrowed, Modelled};
use crate::rows::first_of;
use crate::talk::{heard, Answer, Mark, Progress, Talk};
use crate::text;

use super::catalogue::{live_worktrees, live_worktrees_spec, select_branch, select_branch_spec};
use super::removal::{prompt_delete_stale_branches, prompt_delete_stale_branches_spec};
use super::reports::{
    display_path, display_path_spec, handoff_cd, handoff_cd_spec, report_stash_pop,
    report_stash_pop_spec, report_update, report_update_spec,
};
use super::update::{
    fetch_and_ff, fetch_and_ff_spec, reconcile_diverged, reconcile_diverged_spec, refresh_current,
    refresh_current_spec, update_in, update_in_spec,
};

verus! {

// ---------------------------------------------------------------------------
// Switching in place
// ---------------------------------------------------------------------------

/// Brings the branch that is now checked out up to its remote.
pub open spec fn update_here_spec(rest: Seq<Answer>, target: Seq<char>, remote: Seq<char>) -> Progress<
    Meant<()>,
> {
    match fetch_and_ff_spec(rest, None, target, remote, None) {
        Progress::Waiting(q) => Progress::Waiting(q),
        Progress::Finished(Err(e), rest) => Progress::Finished(Err(e), rest),
        Progress::Finished(Ok(FastForwardResult::Diverged), rest) => reconcile_diverged_spec(
            rest,
            target,
            remote,
        ),
        Progress::Finished(Ok(FastForwardResult::Merged(report)), rest) => match report_update_spec(
            rest,
            report,
        ) {
            Progress::Waiting(q) => Progress::Waiting(q),
            Progress::Finished(_, rest) => Progress::Finished(Ok(()), rest),
        },
    }
}

/// Checks the target out where it is not yet, brings it up to date, and offers
/// the stale branches for deletion.
pub open spec fn switch_and_update_spec(
    rest: Seq<Answer>,
    target: Seq<char>,
    old_branch: Option<Seq<char>>,
    remote: Seq<char>,
) -> Progress<Meant<()>> {
    let there = old_branch == Some(target);
    let switched = if there {
        Progress::Finished(Ok(()), rest)
    } else {
        git::checkout_spec(rest, target)
    };
    match switched {
        Progress::Waiting(q) => Progress::Waiting(q),
        Progress::Finished(Err(e), rest) => Progress::Finished(Err(e), rest),
        Progress::Finished(Ok(_), rest) => match update_here_spec(rest, target, remote) {
            Progress::Waiting(q) => Progress::Waiting(q),
            Progress::Finished(Err(e), rest) => Progress::Finished(Err(e), rest),
            Progress::Finished(Ok(_), rest) => prompt_delete_stale_branches_spec(
                rest,
                if there {
                    None
                } else {
                    old_branch
                },
                None,
                remote,
            ),
        },
    }
}

fn update_here(talk: &mut Talk, target: &str, remote: &str) -> (r: Option<AppResult<()>>)
    ensures
        heard(r, *final(talk)) == update_here_spec(old(talk).rest(), target@, remote@),
{
    match fetch_and_ff(talk, None, target, remote, None)? {
        Err(e) => Some(Err(e)),
        Ok(FastForwardResult::Diverged) => reconcile_diverged(talk, target, remote),
        Ok(FastForwardResult::Merged(report)) => {
            report_update(talk, report)?;
            Some(Ok(()))
        },
    }
}

pub fn switch_and_update(
    talk: &mut Talk,
    target: &str,
    old_branch: Option<&str>,
    remote: &str,
) -> (r: Option<AppResult<()>>)
    ensures
        heard(r, *final(talk)) == switch_and_update_spec(
            old(talk).rest(),
            target@,
            borrowed(old_branch),
            remote@,
        ),
{
    let there: bool = match old_branch {
        Some(branch) => text::same(branch, target),
        None => false,
    };
    if !there {
        match git::checkout(talk, target)? {
            Ok(()) => {},
            Err(e) => return Some(Err(e)),
        }
    }
    match update_here(talk, target, remote)? {
        Ok(()) => {},
        Err(e) => return Some(Err(e)),
    }
    prompt_delete_stale_branches(
        talk,
        if there {
            None
        } else {
            old_branch
        },
        None,
        remote,
    )
}

/// After a switch for which changes were stashed: a failed one goes back to
/// where it came from first, and the changes are restored either way.
pub open spec fn restored_spec(
    rest: Seq<Answer>,
    result: Meant<()>,
    old_branch: Option<Seq<char>>,
) -> Progress<Meant<()>> {
    match (result, old_branch) {
        (Err(_), Some(old)) => match tell_asked(
            rest,
            Mark::Plain,
            "Switching back to "@ + old + " and restoring stashed changes."@,
        ) {
            Progress::Waiting(q) => Progress::Waiting(q),
            Progress::Finished(_, rest) => match git::checkout_spec(rest, old) {
                Progress::Waiting(q) => Progress::Waiting(q),
                Progress::Finished(_, rest) => popped_spec(rest, result),
            },
        },
        _ => popped_spec(rest, result),
    }
}

pub open spec fn popped_spec(rest: Seq<Answer>, result: Meant<()>) -> Progress<Meant<()>> {
    match report_stash_pop_spec(rest) {
        Progress::Waiting(q) => Progress::Waiting(q),
        Progress::Finished(_, rest) => Progress::Finished(result, rest),
    }
}

/// Switches here, with uncommitted changes carried along in the stash.
pub open spec fn in_place_spec(
    rest: Seq<Answer>,
    target: Seq<char>,
    old_branch: Option<Seq<char>>,
    remote: Seq<char>,
) -> Progress<Meant<()>> {
    match git::has_tracked_changes_spec(rest) {
        Progress::Waiting(q) => Progress::Waiting(q),
        Progress::Finished(Err(e), rest) => Progress::Finished(Err(e), rest),
        Progress::Finished(Ok(false), rest) => switch_and_update_spec(
            rest,
            target,
            old_branch,
            remote,
        ),
        Progress::Finished(Ok(true), rest) => match git::stash_push_spec(rest) {
            Progress::Waiting(q) => Progress::Waiting(q),
            Progress::Finished(Err(e), rest) => Progress::Finished(Err(e), rest),
            Progress::Finished(Ok(_), rest) => match switch_and_update_spec(
                rest,
                target,
                old_branch,
                remote,
            ) {
                Progress::Waiting(q) => Progress::Waiting(q),
                Progress::Finished(result, rest) => restored_spec(rest, result, old_branch),
            },
        },
    }
}

fn in_place(talk: &mut Talk, target: &str, old_branch: Option<&str>, remote: &str) -> (r: Option<
    AppResult<()>,
>)
    ensures
        heard(r, *final(talk)) == in_place_spec(
            old(talk).rest(),
            target@,
            borrowed(old_branch),
            remote@,
        ),
{
    let stashed: bool = match git::has_tracked_changes(talk)? {
        Ok(changed) => changed,
        Err(e) => return Some(Err(e)),
    };
    if stashed {
        match git::stash_push(talk)? {
            Ok(()) => {},
            Err(e) => return Some(Err(e)),
        }
    }
    let result: AppResult<()> = switch_and_update(talk, target, old_branch, remote)?;
    if stashed {
        if let Some(old) = old_branch {
            if result.is_err() {
                let line: String = text::joined3(
                    "Switching back to ",
                    old,
                    " and restoring stashed changes.",
                );
                tell(talk, Mark::Plain, line)?;
                let _back: AppResult<()> = git::checkout(talk, old)?;
            }
        }
        report_stash_pop(talk)?;
    }
    Some(result)
}

// ---------------------------------------------------------------------------
// Handing off to a worktree
// ---------------------------------------------------------------------------

/// An update that failed is told of and does not stop.
pub open spec fn updated_or_told_spec(
    rest: Seq<Answer>,
    branch: Seq<char>,
    updated: Meant<()>,
) -> Progress<()> {
    match updated {
        Ok(_) => Progress::Finished((), rest),
        Err(e) => tell_asked(
            rest,
            Mark::Warning,
            "update of "@ + branch + " failed: "@ + e.message(),
        ),
    }
}

pub fn updated_or_told(talk: &mut Talk, branch: &str, updated: AppResult<()>) -> (r: Option<()>)
    ensures
        heard(r, *final(talk)) == updated_or_told_spec(
            old(talk).rest(),
            branch@,
            updated.model(),
        ),
{
    match updated {
        Ok(()) => Some(()),
        Err(e) => {
            let mut line: String = text::joined3("update of ", branch, " failed: ");
            line.append(&e.to_string());
            tell(talk, Mark::Warning, line)
        },
    }
}

/// The cleanup prompt before a hand-off, and then the hand-off itself. Only an
/// interrupt of the prompt stops it; any other failure is told of. Without a
/// path there is nothing to hand off.
pub open spec fn sweep_and_hand_off_spec(
    rest: Seq<Answer>,
    destination: Seq<char>,
    remote: Seq<char>,
    path: Option<Seq<char>>,
) -> Progress<Meant<()>> {
    match prompt_delete_stale_branches_spec(rest, None, Some(destination), remote) {
        Progress::Waiting(q) => Progress::Waiting(q),
        Progress::Finished(Ok(_), rest) => handed_off_spec(rest, path),
        Progress::Finished(Err(e), rest) => if e.interrupted() {
            Progress::Finished(Err(e), rest)
        } else {
            match tell_asked(
                rest,
                Mark::Warning,
                "stale-branch check failed: "@ + e.message(),
            ) {
                Progress::Waiting(q) => Progress::Waiting(q),
                Progress::Finished(_, rest) => handed_off_spec(rest, path),
            }
        },
    }
}

pub open spec fn handed_off_spec(rest: Seq<Answer>, path: Option<Seq<char>>) -> Progress<Meant<()>> {
    match path {
        None => Progress::Finished(Ok(()), rest),
        Some(path) => match handoff_cd_spec(rest, path) {
            Progress::Waiting(q) => Progress::Waiting(q),
            Progress::Finished(_, rest) => Progress::Finished(Ok(()), rest),
        },
    }
}

pub fn sweep_and_hand_off(
    talk: &mut Talk,
    destination: &str,
    remote: &str,
    path: Option<&str>,
) -> (r: Option<AppResult<()>>)
    ensures
        heard(r, *final(talk)) == sweep_and_hand_off_spec(
            old(talk).rest(),
            destination@,
            remote@,
            borrowed(path),
        ),
{
    match prompt_delete_stale_branches(talk, None, Some(destination), remote)? {
        Ok(()) => {},
        Err(e) => {
            if e.is_interrupt() {
                return Some(Err(e));
            }
            tell(
                talk,
                Mark::Warning,
                text::joined("stale-branch check failed: ", &e.to_string()),
            )?;
        },
    }
    if let Some(path) = path {
        handoff_cd(talk, path)?;
    }
    Some(Ok(()))
}

/// A branch that another worktree holds: `br` promised a checkout here and
/// refuses, naming the path and the verb that reaches it. Going there brings
/// the worktree up to date and hands its path to the shell.
pub open spec fn held_elsewhere_spec(
    rest: Seq<Answer>,
    verb: Verb,
    target: Seq<char>,
    path: Seq<char>,
    remote: Seq<char>,
) -> Progress<Meant<()>> {
    if verb == Verb::Here {
        match display_path_spec(rest, path) {
            Progress::Waiting(q) => Progress::Waiting(q),
            Progress::Finished(shown, rest) => Progress::Finished(
                Err(Error::HeldByWorktree { branch: target, path: shown }),
                rest,
            ),
        }
    } else {
        match git::current_remote_spec(rest, Some(target)) {
            Progress::Waiting(q) => Progress::Waiting(q),
            Progress::Finished(target_remote, rest) => match update_in_spec(
                rest,
                path,
                target,
                target_remote,
                None,
            ) {
                Progress::Waiting(q) => Progress::Waiting(q),
                Progress::Finished(updated, rest) => match updated_or_told_spec(
                    rest,
                    target,
                    updated,
                ) {
                    Progress::Waiting(q) => Progress::Waiting(q),
                    Progress::Finished(_, rest) => match display_path_spec(rest, path) {
                        Progress::Waiting(q) => Progress::Waiting(q),
                        Progress::Finished(shown, rest) => match tell_asked(
                            rest,
                            Mark::Arrow,
                            target + " is checked out at "@ + shown,
                        ) {
                            Progress::Waiting(q) => Progress::Waiting(q),
                            Progress::Finished(_, rest) => sweep_and_hand_off_spec(
                                rest,
                                target,
                                remote,
                                Some(path),
                            ),
                        },
                    },
                },
            },
        }
    }
}

fn held_elsewhere(talk: &mut Talk, verb: Verb, target: &str, path: &str, remote: &str) -> (r:
    Option<AppResult<()>>)
    ensures
        heard(r, *final(talk)) == held_elsewhere_spec(
            old(talk).rest(),
            verb,
            target@,
            path@,
            remote@,
        ),
{
    if verb == Verb::Here {
        let shown: String = display_path(talk, path)?;
        return Some(Err(Error::HeldByWorktree { branch: target.to_owned(), path: shown }));
    }
    // The target may track another remote than the current branch does.
    let target_remote: String = git::current_remote(talk, Some(target))?;
    let updated: AppResult<()> = update_in(talk, path, target, &target_remote, None)?;
    updated_or_told(talk, target, updated)?;
    let shown: String = display_path(talk, path)?;
    tell(talk, Mark::Arrow, text::joined3(target, " is checked out at ", &shown))?;
    sweep_and_hand_off(talk, target, remote, Some(path))
}

// ---------------------------------------------------------------------------
// The verbs
// ---------------------------------------------------------------------------

/// The worktree that stands in the way of switching here, if one does.
pub open spec fn in_the_way(
    trees: Seq<Tree>,
    old_branch: Option<Seq<char>>,
    target: Seq<char>,
) -> Option<Tree> {
    if old_branch == Some(target) {
        None
    } else {
        first_of(trees, holding(target))
    }
}

/// Goes to a named branch. The worktrees are read afresh, since a list may
/// have waited for a key meanwhile.
pub open spec fn go_to_spec(
    rest: Seq<Answer>,
    verb: Verb,
    target: Seq<char>,
    old_branch: Option<Seq<char>>,
    remote: Seq<char>,
) -> Progress<Meant<()>> {
    match live_worktrees_spec(rest) {
        Progress::Waiting(q) => Progress::Waiting(q),
        Progress::Finished(Err(e), rest) => Progress::Finished(Err(e), rest),
        Progress::Finished(Ok(trees), rest) => match in_the_way(trees, old_branch, target) {
            Some(holder) => held_elsewhere_spec(rest, verb, target, holder.path, remote),
            None => in_place_spec(rest, target, old_branch, remote),
        },
    }
}

fn go_to(talk: &mut Talk, verb: Verb, target: &str, old_branch: Option<&str>, remote: &str) -> (r:
    Option<AppResult<()>>)
    ensures
        heard(r, *final(talk)) == go_to_spec(
            old(talk).rest(),
            verb,
            target@,
            borrowed(old_branch),
            remote@,
        ),
{
    let worktrees: Vec<Worktree> = match live_worktrees(talk)? {
        Ok(trees) => trees,
        Err(e) => return Some(Err(e)),
    };
    let there: bool = match old_branch {
        Some(branch) => text::same(branch, target),
        None => false,
    };
    if !there {
        match git::worktree_for_branch(&worktrees, target) {
            Some(holder) => return held_elsewhere(talk, verb, target, &holder.path, remote),
            None => {},
        }
    }
    in_place(talk, target, old_branch, remote)
}

/// The branch to go to: the one named, or one that the user picks.
pub open spec fn choose_target_spec(
    rest: Seq<Answer>,
    verb: Verb,
    target: Option<Seq<char>>,
    old_branch: Option<Seq<char>>,
    remote: Seq<char>,
) -> Progress<Meant<Option<Seq<char>>>> {
    match target {
        Some(name) => Progress::Finished(Ok(Some(name)), rest),
        None => match live_worktrees_spec(rest) {
            Progress::Waiting(q) => Progress::Waiting(q),
            Progress::Finished(Err(e), rest) => Progress::Finished(Err(e), rest),
            Progress::Finished(Ok(trees), rest) => select_branch_spec(
                rest,
                old_branch,
                remote,
                trees,
                verb,
            ),
        },
    }
}

fn choose_target(
    talk: &mut Talk,
    verb: Verb,
    target: Option<&str>,
    old_branch: Option<&str>,
    remote: &str,
) -> (r: Option<AppResult<Option<String>>>)
    ensures
        heard(r, *final(talk)) == choose_target_spec(
            old(talk).rest(),
            verb,
            borrowed(target),
            borrowed(old_branch),
            remote@,
        ),
{
    if let Some(name) = target {
        return Some(Ok(Some(name.to_owned())));
    }
    let listed: Vec<Worktree> = match live_worktrees(talk)? {
        Ok(trees) => trees,
        Err(e) => return Some(Err(e)),
    };
    select_branch(talk, old_branch, remote, &listed, verb)
}

/// `perch` and `perch br`. A `.` refreshes the branch that is checked out;
/// anything else is a branch to go to, by name or from the list.
pub open spec fn run_verb_spec(rest: Seq<Answer>, verb: Verb, target: Option<Seq<char>>) -> Progress<
    Meant<()>,
> {
    match git::current_branch_spec(rest) {
        Progress::Waiting(q) => Progress::Waiting(q),
        Progress::Finished(Err(e), rest) => Progress::Finished(Err(e), rest),
        Progress::Finished(Ok(old_branch), rest) => match git::current_remote_spec(
            rest,
            old_branch,
        ) {
            Progress::Waiting(q) => Progress::Waiting(q),
            Progress::Finished(remote, rest) => if target == Some("."@) {
                match old_branch {
                    None => Progress::Finished(Err(Error::Detached), rest),
                    Some(current) => refresh_current_spec(rest, remote, current),
                }
            } else {
                match choose_target_spec(rest, verb, target, old_branch, remote) {
                    Progress::Waiting(q) => Progress::Waiting(q),
                    Progress::Finished(Err(e), rest) => Progress::Finished(Err(e), rest),
                    Progress::Finished(Ok(None), rest) => Progress::Finished(Ok(()), rest),
                    Progress::Finished(Ok(Some(name)), rest) => go_to_spec(
                        rest,
                        verb,
                        name,
                        old_branch,
                        remote,
                    ),
                }
            },
        },
    }
}

pub fn run_verb(talk: &mut Talk, verb: Verb, target: Option<&str>) -> (r: Option<AppResult<()>>)
    ensures
        heard(r, *final(talk)) == run_verb_spec(old(talk).rest(), verb, borrowed(target)),
{
    let old_branch: Option<String> = match git::current_branch(talk)? {
        Ok(branch) => branch,
        Err(e) => return Some(Err(e)),
    };
    let remote: String = git::current_remote(talk, lent(&old_branch))?;
    let refresh: bool = match target {
        Some(word) => text::same(word, "."),
        None => false,
    };
    if refresh {
        return match &old_branch {
            None => Some(Err(Error::Detached)),
            Some(current) => refresh_current(talk, &remote, current),
        };
    }
    let name: String = match choose_target(talk, verb, target, lent(&old_branch), &remote)? {
        Ok(Some(name)) => name,
        Ok(None) => return Some(Ok(())),
        Err(e) => return Some(Err(e)),
    };
    go_to(talk, verb, &name, lent(&old_branch), &remote)
}

/// `perch [<branch>]`: take me to the branch, wherever it lives.
pub fn run(talk: &mut Talk, target: Option<&str>) -> (r: Option<AppResult<()>>)
    ensures
        heard(r, *final(talk)) == run_verb_spec(old(talk).rest(), Verb::Go, borrowed(target)),
{
    run_verb(talk, Verb::Go, target)
}

/// `perch br [<branch>]`: check the branch out here, in this worktree.
pub fn run_br(talk: &mut Talk, target: Option<&str>) -> (r: Option<AppResult<()>>)
    ensures
        heard(r, *final(talk)) == run_verb_spec(old(talk).rest(), Verb::Here, borrowed(target)),
{
    run_verb(talk, Verb::Here, target)
}

// ---------------------------------------------------------------------------
// What every switch keeps
// ---------------------------------------------------------------------------

/// Changes that were stashed for a switch are restored before it ends, and it
/// ends in what came of the switch itself.
pub proof fn stashed_changes_are_restored(
    rest: Seq<Answer>,
    result: Meant<()>,
    old_branch: Option<Seq<char>>,
)
    ensures
        restored_spec(rest, result, old_branch) matches Progress::Finished(ended, left) ==> ended
            == result && exists|back: Seq<Answer>| #[trigger] report_stash_pop_spec(back)
            == Progress::Finished((), left),
{
}

/// `br` refuses a branch that another worktree holds, and says where: git
/// refuses two worktrees on one branch, and is not even asked.
pub proof fn a_held_branch_is_not_checked_out_here(
    rest: Seq<Answer>,
    target: Seq<char>,
    old_branch: Option<Seq<char>>,
    remote: Seq<char>,
    trees: Seq<Tree>,
    listed: Seq<Answer>,
)
    requires
        live_worktrees_spec(rest) == Progress::<Meant<Seq<Tree>>>::Finished(Ok(trees), listed),
        in_the_way(trees, old_branch, target) is Some,
    ensures
        go_to_spec(rest, Verb::Here, target, old_branch, remote) == (match display_path_spec(
            listed,
            in_the_way(trees, old_branch, target)->0.path,
        ) {
            Progress::Waiting(q) => Progress::<Meant<()>>::Waiting(q),
            Progress::Finished(shown, left) => Progress::Finished(
                Err(Error::HeldByWorktree { branch: target, path: shown }),
                left,
            ),
        }),
{
}

} // verus!
