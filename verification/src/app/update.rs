//! Bringing a branch up to its remote.
use vstd::prelude::*;
use vstd::string::*;

use crate::ask::{ask_done, done_asked, tell, tell_asked};
use crate::error::{AppResult, Error, Meant};
use crate::git::{self, FastForwardResult, FetchOutcome, MergeReport, RebaseOutcome};
use crate::model::borrowed;
use crate::talk::{heard, Answer, Asked, Mark, Progress, Request, Talk};
use crate::text;

use super::prefetch::{
    fetch_unless_covered, fetch_unless_covered_spec, fetched_model, fetching, left_to_report,
    unreported, FetchedRemote,
};
use super::prompts::{
    confirm, confirm_keys, confirm_spec, prompt_keep_discard, prompt_keep_discard_spec, refresh_keys,
    Confirmation, RefreshChoice,
};
use super::reports::{
    aborted_rebase_hint, aborted_rebase_hint_spec, plural, plural_spec, reconcile_hint,
    reconcile_hint_spec, report_fetch_failure, report_fetch_failure_spec, report_stash_pop,
    report_stash_pop_spec, report_update, report_update_spec,
};

verus! {

// ---------------------------------------------------------------------------
// Fetch and fast-forward
// ---------------------------------------------------------------------------

pub open spec fn fetch_and_ff_spec(
    rest: Seq<Answer>,
    dir: Option<Seq<char>>,
    branch: Seq<char>,
    remote: Seq<char>,
    fetched: Option<FetchedRemote<Seq<char>>>,
) -> Progress<Meant<FastForwardResult>> {
    match done_asked(rest, Asked::Spin("Updating "@ + branch + "…"@)) {
        Progress::Waiting(q) => Progress::Waiting(q),
        Progress::Finished(_, rest) => match fetch_unless_covered_spec(rest, dir, remote, fetched) {
            Progress::Waiting(q) => Progress::Waiting(q),
            Progress::Finished(outcome, rest) => match git::fast_forward_merge_spec(
                rest,
                dir,
                branch,
                remote,
            ) {
                Progress::Waiting(q) => Progress::Waiting(q),
                Progress::Finished(merged, rest) => match done_asked(rest, Asked::Still) {
                    Progress::Waiting(q) => Progress::Waiting(q),
                    Progress::Finished(_, rest) => match report_fetch_failure_spec(
                        rest,
                        unreported(outcome, fetched),
                    ) {
                        Progress::Waiting(q) => Progress::Waiting(q),
                        Progress::Finished(_, rest) => Progress::Finished(merged, rest),
                    },
                },
            },
        },
    }
}

/// Fetches `remote` and fast-forwards `branch` onto it, in the worktree at
/// `dir` if one is given. A failed fetch is reported and does not stop the
/// merge; what to make of a branch that diverged is the caller's.
pub fn fetch_and_ff(
    talk: &mut Talk,
    dir: Option<&str>,
    branch: &str,
    remote: &str,
    fetched: Option<&FetchedRemote>,
) -> (r: Option<AppResult<FastForwardResult>>)
    ensures
        heard(r, *final(talk)) == fetch_and_ff_spec(
            old(talk).rest(),
            borrowed(dir),
            branch@,
            remote@,
            fetched_model(fetched),
        ),
{
    ask_done(talk, Request::Spin(text::joined3("Updating ", branch, "…")))?;
    let outcome: Option<FetchOutcome> = fetch_unless_covered(talk, dir, remote, fetched)?;
    let merged: AppResult<FastForwardResult> = git::fast_forward_merge(talk, dir, branch, remote)?;
    ask_done(talk, Request::Still)?;
    report_fetch_failure(talk, &left_to_report(outcome, fetched))?;
    Some(merged)
}

/// Brings the branch of a worktree up to its remote. One that diverged is only
/// reported, since the user is not sitting there, and one without a remote
/// counterpart is unremarkable.
pub open spec fn update_in_spec(
    rest: Seq<Answer>,
    path: Seq<char>,
    branch: Seq<char>,
    remote: Seq<char>,
    fetched: Option<FetchedRemote<Seq<char>>>,
) -> Progress<Meant<()>> {
    match fetch_and_ff_spec(rest, Some(path), branch, remote, fetched) {
        Progress::Waiting(q) => Progress::Waiting(q),
        Progress::Finished(Err(e), rest) => Progress::Finished(Err(e), rest),
        Progress::Finished(Ok(FastForwardResult::Diverged), rest) => match tell_asked(
            rest,
            Mark::Warning,
            branch + " has diverged from "@ + remote + "/"@ + branch + "; not updating."@,
        ) {
            Progress::Waiting(q) => Progress::Waiting(q),
            Progress::Finished(_, rest) => Progress::Finished(Ok(()), rest),
        },
        Progress::Finished(Ok(FastForwardResult::Merged(MergeReport::NoRemote)), rest) =>
            Progress::Finished(Ok(()), rest),
        Progress::Finished(Ok(FastForwardResult::Merged(report)), rest) => match report_update_spec(
            rest,
            report,
        ) {
            Progress::Waiting(q) => Progress::Waiting(q),
            Progress::Finished(_, rest) => Progress::Finished(Ok(()), rest),
        },
    }
}

pub fn update_in(
    talk: &mut Talk,
    path: &str,
    branch: &str,
    remote: &str,
    fetched: Option<&FetchedRemote>,
) -> (r: Option<AppResult<()>>)
    ensures
        heard(r, *final(talk)) == update_in_spec(
            old(talk).rest(),
            path@,
            branch@,
            remote@,
            fetched_model(fetched),
        ),
{
    match fetch_and_ff(talk, Some(path), branch, remote, fetched)? {
        Err(e) => return Some(Err(e)),
        Ok(FastForwardResult::Diverged) => {
            let mut line: String = text::joined3(branch, " has diverged from ", remote);
            line.append("/");
            line.append(branch);
            line.append("; not updating.");
            tell(talk, Mark::Warning, line)?;
        },
        Ok(FastForwardResult::Merged(report)) => match report {
            MergeReport::NoRemote => {},
            _ => {
                report_update(talk, report)?;
            },
        },
    }
    Some(Ok(()))
}

// ---------------------------------------------------------------------------
// Rebasing
// ---------------------------------------------------------------------------

/// Rebases the current branch. One that was aborted is reported with what is
/// left to do by hand.
pub open spec fn rebase_onto_spec(rest: Seq<Answer>, remote_ref: Seq<char>) -> Progress<Meant<()>> {
    match git::rebase_spec(rest, remote_ref) {
        Progress::Waiting(q) => Progress::Waiting(q),
        Progress::Finished(Err(e), rest) => Progress::Finished(Err(e), rest),
        Progress::Finished(Ok(RebaseOutcome::Clean), rest) => Progress::Finished(Ok(()), rest),
        Progress::Finished(Ok(RebaseOutcome::Aborted), rest) => match tell_asked(
            rest,
            Mark::Plain,
            aborted_rebase_hint_spec(remote_ref),
        ) {
            Progress::Waiting(q) => Progress::Waiting(q),
            Progress::Finished(_, rest) => Progress::Finished(Err(Error::Diverged), rest),
        },
    }
}

pub fn rebase_onto(talk: &mut Talk, remote_ref: &str) -> (r: Option<AppResult<()>>)
    ensures
        heard(r, *final(talk)) == rebase_onto_spec(old(talk).rest(), remote_ref@),
{
    match git::rebase(talk, remote_ref)? {
        Err(e) => Some(Err(e)),
        Ok(RebaseOutcome::Clean) => Some(Ok(())),
        Ok(RebaseOutcome::Aborted) => {
            tell(talk, Mark::Plain, aborted_rebase_hint(remote_ref))?;
            Some(Err(Error::Diverged))
        },
    }
}

/// Offers to rebase a branch that diverged. Only an accepted question rebases.
pub open spec fn reconcile_diverged_spec(
    rest: Seq<Answer>,
    branch: Seq<char>,
    remote: Seq<char>,
) -> Progress<Meant<()>> {
    let remote_ref = remote + "/"@ + branch;
    match tell_asked(
        rest,
        Mark::Plain,
        "Local branch has diverged from "@ + remote_ref + "."@,
    ) {
        Progress::Waiting(q) => Progress::Waiting(q),
        Progress::Finished(_, rest) => match confirm_spec(
            rest,
            "Rebase onto "@ + remote_ref + "?"@,
            false,
        ) {
            Progress::Waiting(q) => Progress::Waiting(q),
            Progress::Finished(Err(e), rest) => Progress::Finished(Err(e), rest),
            Progress::Finished(Ok(Confirmation::Accepted), rest) => rebase_onto_spec(
                rest,
                remote_ref,
            ),
            Progress::Finished(Ok(_), rest) => match tell_asked(
                rest,
                Mark::Plain,
                reconcile_hint_spec(remote_ref),
            ) {
                Progress::Waiting(q) => Progress::Waiting(q),
                Progress::Finished(_, rest) => Progress::Finished(Err(Error::Diverged), rest),
            },
        },
    }
}

pub fn reconcile_diverged(talk: &mut Talk, branch: &str, remote: &str) -> (r: Option<AppResult<()>>)
    ensures
        heard(r, *final(talk)) == reconcile_diverged_spec(old(talk).rest(), branch@, remote@),
{
    let remote_ref: String = text::joined3(remote, "/", branch);
    tell(
        talk,
        Mark::Plain,
        text::joined3("Local branch has diverged from ", &remote_ref, "."),
    )?;
    let question: String = text::joined3("Rebase onto ", &remote_ref, "?");
    match confirm(talk, &question, false)? {
        Err(e) => Some(Err(e)),
        Ok(Confirmation::Accepted) => rebase_onto(talk, &remote_ref),
        Ok(_) => {
            tell(talk, Mark::Plain, reconcile_hint(&remote_ref))?;
            Some(Err(Error::Diverged))
        },
    }
}

/// Keeps uncommitted work while remote commits are integrated: it is stashed,
/// and restored whatever came of the rebase.
pub open spec fn keep_local_work_spec(rest: Seq<Answer>, remote_ref: Seq<char>) -> Progress<
    Meant<()>,
> {
    match git::stash_push_spec(rest) {
        Progress::Waiting(q) => Progress::Waiting(q),
        Progress::Finished(Err(e), rest) => Progress::Finished(Err(e), rest),
        Progress::Finished(Ok(_), rest) => match rebase_onto_spec(rest, remote_ref) {
            Progress::Waiting(q) => Progress::Waiting(q),
            Progress::Finished(result, rest) => match report_stash_pop_spec(rest) {
                Progress::Waiting(q) => Progress::Waiting(q),
                Progress::Finished(_, rest) => Progress::Finished(result, rest),
            },
        },
    }
}

pub fn keep_local_work(talk: &mut Talk, remote_ref: &str) -> (r: Option<AppResult<()>>)
    ensures
        heard(r, *final(talk)) == keep_local_work_spec(old(talk).rest(), remote_ref@),
{
    match git::stash_push(talk)? {
        Ok(()) => {},
        Err(e) => return Some(Err(e)),
    }
    let result: AppResult<()> = rebase_onto(talk, remote_ref)?;
    report_stash_pop(talk)?;
    Some(result)
}

// ---------------------------------------------------------------------------
// Refreshing the current branch
// ---------------------------------------------------------------------------

/// Whether the remote has the branch, once it has been fetched.
pub open spec fn refreshed_spec(rest: Seq<Answer>, remote: Seq<char>, current: Seq<char>) -> Progress<
    bool,
> {
    match done_asked(rest, Asked::Spin(fetching(remote))) {
        Progress::Waiting(q) => Progress::Waiting(q),
        Progress::Finished(_, rest) => match git::fetch_spec(rest, None, remote) {
            Progress::Waiting(q) => Progress::Waiting(q),
            Progress::Finished(outcome, rest) => match git::remote_branch_exists_spec(
                rest,
                remote,
                current,
            ) {
                Progress::Waiting(q) => Progress::Waiting(q),
                Progress::Finished(has_remote, rest) => match done_asked(rest, Asked::Still) {
                    Progress::Waiting(q) => Progress::Waiting(q),
                    Progress::Finished(_, rest) => match report_fetch_failure_spec(rest, outcome) {
                        Progress::Waiting(q) => Progress::Waiting(q),
                        Progress::Finished(_, rest) => Progress::Finished(has_remote, rest),
                    },
                },
            },
        },
    }
}

/// A line, and then the end.
pub open spec fn told_and_done(told: Progress<()>) -> Progress<Meant<()>> {
    match told {
        Progress::Waiting(q) => Progress::Waiting(q),
        Progress::Finished(_, rest) => Progress::Finished(Ok(()), rest),
    }
}

/// With uncommitted changes, the user decides.
pub open spec fn refresh_dirty_spec(
    rest: Seq<Answer>,
    remote: Seq<char>,
    current: Seq<char>,
    ahead: u32,
    behind: u32,
) -> Progress<Meant<()>> {
    let remote_ref = remote + "/"@ + current;
    match prompt_keep_discard_spec(rest, current, remote_ref, ahead, behind) {
        Progress::Waiting(q) => Progress::Waiting(q),
        Progress::Finished(Err(e), rest) => Progress::Finished(Err(e), rest),
        Progress::Finished(Ok(Some(RefreshChoice::Keep)), rest) => keep_local_work_spec(
            rest,
            remote_ref,
        ),
        Progress::Finished(Ok(Some(RefreshChoice::Discard)), rest) => match git::reset_hard_spec(
            rest,
            remote,
            current,
        ) {
            Progress::Waiting(q) => Progress::Waiting(q),
            Progress::Finished(Err(e), rest) => Progress::Finished(Err(e), rest),
            Progress::Finished(Ok(_), rest) => told_and_done(
                tell_asked(
                    rest,
                    Mark::Plain,
                    "Reset "@ + current + " to "@ + remote_ref + "."@,
                ),
            ),
        },
        Progress::Finished(Ok(None), rest) => told_and_done(
            tell_asked(rest, Mark::Plain, "Left "@ + current + " unchanged."@),
        ),
    }
}

/// With nothing uncommitted, the remote's commits are integrated: by a
/// fast-forward, or by a rebase where there are local commits.
pub open spec fn refresh_clean_spec(
    rest: Seq<Answer>,
    remote: Seq<char>,
    current: Seq<char>,
    ahead: u32,
) -> Progress<Meant<()>> {
    let remote_ref = remote + "/"@ + current;
    if ahead > 0 {
        rebase_onto_spec(rest, remote_ref)
    } else {
        match git::fast_forward_merge_spec(rest, None, current, remote) {
            Progress::Waiting(q) => Progress::Waiting(q),
            Progress::Finished(Err(e), rest) => Progress::Finished(Err(e), rest),
            Progress::Finished(Ok(FastForwardResult::Merged(report)), rest) => told_and_done(
                report_update_spec(rest, report),
            ),
            Progress::Finished(Ok(FastForwardResult::Diverged), rest) => told_and_done(
                tell_asked(
                    rest,
                    Mark::Warning,
                    "couldn't fast-forward "@ + current + " to "@ + remote_ref
                        + "; an untracked file is likely blocking it"@,
                ),
            ),
        }
    }
}

/// Refreshes the branch that is checked out. With nothing to pull it only
/// says so, and leaves the working tree alone.
pub open spec fn refresh_current_spec(
    rest: Seq<Answer>,
    remote: Seq<char>,
    current: Seq<char>,
) -> Progress<Meant<()>> {
    let remote_ref = remote + "/"@ + current;
    match refreshed_spec(rest, remote, current) {
        Progress::Waiting(q) => Progress::Waiting(q),
        Progress::Finished(false, rest) => told_and_done(
            report_update_spec(rest, MergeReport::NoRemote),
        ),
        Progress::Finished(true, rest) => match git::ahead_behind_remote_spec(
            rest,
            remote,
            current,
        ) {
            Progress::Waiting(q) => Progress::Waiting(q),
            Progress::Finished(Err(e), rest) => Progress::Finished(Err(e), rest),
            Progress::Finished(Ok((ahead, behind)), rest) => if behind == 0 && ahead == 0 {
                told_and_done(report_update_spec(rest, MergeReport::UpToDate))
            } else if behind == 0 {
                told_and_done(
                    tell_asked(
                        rest,
                        Mark::Plain,
                        current + " is "@ + text::decimal(ahead as nat) + " "@ + plural_spec(
                            ahead,
                            "commit"@,
                        ) + " ahead of "@ + remote_ref + "; nothing to pull."@,
                    ),
                )
            } else {
                match git::has_tracked_changes_spec(rest) {
                    Progress::Waiting(q) => Progress::Waiting(q),
                    Progress::Finished(Err(e), rest) => Progress::Finished(Err(e), rest),
                    Progress::Finished(Ok(true), rest) => refresh_dirty_spec(
                        rest,
                        remote,
                        current,
                        ahead,
                        behind,
                    ),
                    Progress::Finished(Ok(false), rest) => refresh_clean_spec(
                        rest,
                        remote,
                        current,
                        ahead,
                    ),
                }
            },
        },
    }
}

fn refreshed(talk: &mut Talk, remote: &str, current: &str) -> (r: Option<bool>)
    ensures
        heard(r, *final(talk)) == refreshed_spec(old(talk).rest(), remote@, current@),
{
    ask_done(talk, Request::Spin(text::joined3("Fetching ", remote, "…")))?;
    let outcome: FetchOutcome = git::fetch(talk, None, remote)?;
    let has_remote: bool = git::remote_branch_exists(talk, remote, current)?;
    ask_done(talk, Request::Still)?;
    report_fetch_failure(talk, &outcome)?;
    Some(has_remote)
}

fn refresh_dirty(talk: &mut Talk, remote: &str, current: &str, ahead: u32, behind: u32) -> (r:
    Option<AppResult<()>>)
    ensures
        heard(r, *final(talk)) == refresh_dirty_spec(
            old(talk).rest(),
            remote@,
            current@,
            ahead,
            behind,
        ),
{
    let remote_ref: String = text::joined3(remote, "/", current);
    match prompt_keep_discard(talk, current, &remote_ref, ahead, behind)? {
        Err(e) => return Some(Err(e)),
        Ok(Some(RefreshChoice::Keep)) => return keep_local_work(talk, &remote_ref),
        Ok(Some(RefreshChoice::Discard)) => {
            match git::reset_hard(talk, remote, current)? {
                Ok(()) => {},
                Err(e) => return Some(Err(e)),
            }
            let mut line: String = text::joined3("Reset ", current, " to ");
            line.append(&remote_ref);
            line.append(".");
            tell(talk, Mark::Plain, line)?;
        },
        Ok(None) => {
            tell(talk, Mark::Plain, text::joined3("Left ", current, " unchanged."))?;
        },
    }
    Some(Ok(()))
}

fn refresh_clean(talk: &mut Talk, remote: &str, current: &str, ahead: u32) -> (r: Option<
    AppResult<()>,
>)
    ensures
        heard(r, *final(talk)) == refresh_clean_spec(old(talk).rest(), remote@, current@, ahead),
{
    let remote_ref: String = text::joined3(remote, "/", current);
    if ahead > 0 {
        return rebase_onto(talk, &remote_ref);
    }
    match git::fast_forward_merge(talk, None, current, remote)? {
        Err(e) => return Some(Err(e)),
        Ok(FastForwardResult::Merged(report)) => {
            report_update(talk, report)?;
        },
        // History always fast-forwards here, so a refusal means that an
        // untracked file is in the way.
        Ok(FastForwardResult::Diverged) => {
            let mut line: String = text::joined3("couldn't fast-forward ", current, " to ");
            line.append(&remote_ref);
            line.append("; an untracked file is likely blocking it");
            tell(talk, Mark::Warning, line)?;
        },
    }
    Some(Ok(()))
}

pub fn refresh_current(talk: &mut Talk, remote: &str, current: &str) -> (r: Option<AppResult<()>>)
    ensures
        heard(r, *final(talk)) == refresh_current_spec(old(talk).rest(), remote@, current@),
{
    if !refreshed(talk, remote, current)? {
        report_update(talk, MergeReport::NoRemote)?;
        return Some(Ok(()));
    }
    let counts: (u32, u32) = match git::ahead_behind_remote(talk, remote, current)? {
        Ok(counts) => counts,
        Err(e) => return Some(Err(e)),
    };
    let ahead: u32 = counts.0;
    let behind: u32 = counts.1;
    if behind == 0 {
        if ahead == 0 {
            report_update(talk, MergeReport::UpToDate)?;
        } else {
            let mut line: String = text::joined3(current, " is ", &text::decimal_of(ahead as u128));
            line.append(" ");
            line.append(&plural(ahead, "commit"));
            line.append(" ahead of ");
            line.append(&text::joined3(remote, "/", current));
            line.append("; nothing to pull.");
            tell(talk, Mark::Plain, line)?;
        }
        return Some(Ok(()));
    }
    match git::has_tracked_changes(talk)? {
        Err(e) => Some(Err(e)),
        Ok(dirty) => {
            if dirty {
                refresh_dirty(talk, remote, current, ahead, behind)
            } else {
                refresh_clean(talk, remote, current, ahead)
            }
        },
    }
}

// ---------------------------------------------------------------------------
// What is left alone
// ---------------------------------------------------------------------------

/// Whether the next request has git do something.
pub open spec fn runs_git<T>(progress: Progress<T>) -> bool {
    progress matches Progress::Waiting(request) && (request is Git || request is GitBytes)
}

proof fn lemma_refresh_keys_run_no_git(rest: Seq<Answer>)
    ensures
        !runs_git(refresh_keys(rest)),
    decreases rest.len(),
{
    if rest.len() > 0 {
        lemma_refresh_keys_run_no_git(rest.drop_first());
    }
}

proof fn lemma_confirm_keys_run_no_git(rest: Seq<Answer>, default_yes: bool)
    ensures
        !runs_git(confirm_keys(rest, default_yes)),
    decreases rest.len(),
{
    if rest.len() > 0 {
        lemma_confirm_keys_run_no_git(rest.drop_first(), default_yes);
    }
}

/// Once the remote is known to have nothing new, a refresh has git do nothing
/// more, and ends well.
pub proof fn nothing_to_pull_changes_nothing(
    rest: Seq<Answer>,
    remote: Seq<char>,
    current: Seq<char>,
    fetched: Seq<Answer>,
    counted: Seq<Answer>,
    ahead: u32,
)
    requires
        refreshed_spec(rest, remote, current) == Progress::Finished(true, fetched),
        git::ahead_behind_remote_spec(fetched, remote, current) == Progress::<
            Meant<(u32, u32)>,
        >::Finished(Ok((ahead, 0)), counted),
    ensures
        !runs_git(refresh_current_spec(rest, remote, current)),
        refresh_current_spec(rest, remote, current) matches Progress::Finished(result, _)
            ==> result is Ok,
{
}

/// Uncommitted work is neither stashed nor discarded until the user has said
/// which: before that, and where nobody can be asked, git is not run.
pub proof fn uncommitted_work_waits_for_a_choice(
    rest: Seq<Answer>,
    remote: Seq<char>,
    current: Seq<char>,
    ahead: u32,
    behind: u32,
)
    requires
        !(prompt_keep_discard_spec(rest, current, remote + "/"@ + current, ahead, behind)
            matches Progress::Finished(Ok(Some(_)), _)),
    ensures
        !runs_git(refresh_dirty_spec(rest, remote, current, ahead, behind)),
{
    assert forall|left: Seq<Answer>| !runs_git(#[trigger] refresh_keys(left)) by {
        lemma_refresh_keys_run_no_git(left);
    }
}

/// A branch that diverged is rebased only once the user has accepted it.
pub proof fn a_diverged_branch_waits_for_consent(
    rest: Seq<Answer>,
    branch: Seq<char>,
    remote: Seq<char>,
)
    requires
        rest.len() > 0,
        !(confirm_spec(rest.drop_first(), "Rebase onto "@ + (remote + "/"@ + branch) + "?"@, false)
            matches Progress::Finished(Ok(Confirmation::Accepted), _)),
    ensures
        !runs_git(reconcile_diverged_spec(rest, branch, remote)),
        reconcile_diverged_spec(rest, branch, remote) matches Progress::Finished(result, _)
            ==> result is Err,
{
    assert forall|left: Seq<Answer>, default_yes: bool| !runs_git(
        #[trigger] confirm_keys(left, default_yes),
    ) by {
        lemma_confirm_keys_run_no_git(left, default_yes);
    }
}

/// Work that was stashed for a rebase is restored before the refresh ends,
/// whatever came of the rebase, and the rebase's own result is what it ends in.
pub proof fn kept_work_is_restored(rest: Seq<Answer>, remote_ref: Seq<char>)
    ensures
        keep_local_work_spec(rest, remote_ref) matches Progress::Finished(result, left) ==> {
            ||| git::stash_push_spec(rest) matches Progress::Finished(Err(_), _)
            ||| exists|stashed: Seq<Answer>, rebased: Seq<Answer>|
                {
                    &&& #[trigger] rebase_onto_spec(stashed, remote_ref) == Progress::Finished(
                        result,
                        rebased,
                    )
                    &&& #[trigger] report_stash_pop_spec(rebased) == Progress::Finished((), left)
                }
        },
{
}

} // verus!
