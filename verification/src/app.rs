//! What each command does.
use vstd::prelude::*;
use vstd::string::*;

use crate::ask::{ask_done, ask_text, done_asked, lent, text_asked};
use crate::error::{AppResult, Meant};
use crate::git;
use crate::grammar::{
    help_text, rendered, said, Completion, CompletionSource, Invocation, Navigation, Verb, Words,
};
use crate::model::{borrowed, models, Modelled};
use crate::talk::{heard, Answer, Asked, Progress, Request, Talk};
use crate::text;

pub mod br;
pub mod catalogue;
pub mod conduct;
pub mod hook;
pub mod picker;
pub mod prefetch;
pub mod prompts;
pub mod quoting;
pub mod reclamation;
pub mod removal;
pub mod reports;
pub mod signs;
pub mod silence;
pub mod update;
pub mod verbs;
pub mod wt;

pub use quoting::{go_there_argument, shell_quote};
pub use reports::{aborted_rebase_hint, reconcile_hint};
pub use verbs::{run, run_br};

verus! {

/// Runs the reclamation that this process may have been started for. None is
/// that it was started for a user.
pub fn run_internal_reclamation(talk: &mut Talk) -> (r: Option<Option<AppResult<()>>>)
    ensures
        heard(r, *final(talk)) == reclamation::run_worker_spec(old(talk).rest()),
{
    reclamation::run_worker(talk)
}

// ---------------------------------------------------------------------------
// Completion
// ---------------------------------------------------------------------------

/// Every branch that a verb can reach, the local ones first.
pub open spec fn reachable_spec(rest: Seq<Answer>) -> Progress<Meant<Words>> {
    match git::current_branch_spec(rest) {
        Progress::Waiting(q) => Progress::Waiting(q),
        Progress::Finished(Err(e), rest) => Progress::Finished(Err(e), rest),
        Progress::Finished(Ok(current), rest) => match git::current_remote_spec(rest, current) {
            Progress::Waiting(q) => Progress::Waiting(q),
            Progress::Finished(remote, rest) => match catalogue::reachable_branches_spec(
                rest,
                remote,
            ) {
                Progress::Waiting(q) => Progress::Waiting(q),
                Progress::Finished(Err(e), rest) => Progress::Finished(Err(e), rest),
                Progress::Finished(Ok((local, remote_only)), rest) => Progress::Finished(
                    Ok(local + remote_only),
                    rest,
                ),
            },
        },
    }
}

fn reachable(talk: &mut Talk) -> (r: Option<AppResult<Vec<String>>>)
    ensures
        heard(r, *final(talk)) == reachable_spec(old(talk).rest()),
{
    let current: Option<String> = match git::current_branch(talk)? {
        Ok(current) => current,
        Err(e) => return Some(Err(e)),
    };
    let remote: String = git::current_remote(talk, lent(&current))?;
    match catalogue::reachable_branches(talk, &remote)? {
        Err(e) => Some(Err(e)),
        Ok((local, remote_only)) => {
            let mut all: Vec<String> = local;
            let mut more: Vec<String> = remote_only;
            let ghost a = models(all@);
            let ghost b = models(more@);
            all.append(&mut more);
            assert(models(all@) =~= a + b);
            Some(Ok(all))
        },
    }
}

/// What a completion draws from.
pub open spec fn candidates_spec(rest: Seq<Answer>, source: CompletionSource) -> Progress<
    Meant<Words>,
> {
    match source {
        CompletionSource::LocalBranches => git::local_branches_spec(rest),
        CompletionSource::ReachableBranches => reachable_spec(rest),
        CompletionSource::Worktrees => wt::removal_candidates_spec(rest),
    }
}

/// Prints the candidates of a completion.
pub open spec fn complete_spec(rest: Seq<Answer>, query: Completion) -> Progress<Meant<()>> {
    match candidates_spec(rest, query.source) {
        Progress::Waiting(q) => Progress::Waiting(q),
        Progress::Finished(Err(e), rest) => Progress::Finished(Err(e), rest),
        Progress::Finished(Ok(names), rest) => printed_and_done(
            done_asked(rest, Asked::Print(rendered(query.position, names))),
        ),
    }
}

pub open spec fn printed_and_done(printed: Progress<()>) -> Progress<Meant<()>> {
    match printed {
        Progress::Waiting(q) => Progress::Waiting(q),
        Progress::Finished(_, rest) => Progress::Finished(Ok(()), rest),
    }
}

/// The same texts, borrowed.
fn borrow_all(words: &Vec<String>) -> (r: Vec<&str>)
    ensures
        said(r@) == models(words@),
{
    let mut r: Vec<&str> = Vec::new();
    let mut i: usize = 0;
    while i < words.len()
        invariant
            i <= words@.len(),
            r@.len() == i,
            forall|j: int| 0 <= j < i ==> (#[trigger] r@[j])@ == words@[j]@,
        decreases words@.len() - i,
    {
        r.push(words[i].as_str());
        i += 1;
    }
    assert(said(r@) =~= models(words@));
    r
}

/// Prints the candidates of a completion.
pub fn complete(talk: &mut Talk, query: &Completion) -> (r: Option<AppResult<()>>)
    ensures
        heard(r, *final(talk)) == complete_spec(old(talk).rest(), *query),
{
    let found: AppResult<Vec<String>> = match query.source() {
        CompletionSource::LocalBranches => git::local_branches(talk)?,
        CompletionSource::ReachableBranches => reachable(talk)?,
        CompletionSource::Worktrees => wt::removal_candidates(talk)?,
    };
    let names: Vec<String> = match found {
        Ok(names) => names,
        Err(e) => return Some(Err(e)),
    };
    let words: Vec<&str> = borrow_all(&names);
    ask_done(talk, Request::Print(query.render(&words)))?;
    Some(Ok(()))
}

// ---------------------------------------------------------------------------
// Invocations
// ---------------------------------------------------------------------------

/// Whether a command concerns worktrees, and so first tries again what an
/// earlier removal left.
pub open spec fn concerns_worktrees(invocation: Invocation<Seq<char>>) -> bool {
    match invocation {
        Invocation::Navigate(Navigation::Worktree { .. }) => true,
        Invocation::ListWorktrees => true,
        Invocation::RemoveWorktrees(_) => true,
        _ => false,
    }
}

pub open spec fn version_spec(rest: Seq<Answer>) -> Progress<Meant<()>> {
    match text_asked(rest, Asked::Version) {
        Progress::Waiting(q) => Progress::Waiting(q),
        Progress::Finished(version, rest) => printed_and_done(
            done_asked(
                rest,
                Asked::Print("perch "@ + wt::branch_or_none(version) + "\n"@),
            ),
        ),
    }
}

fn print_version(talk: &mut Talk) -> (r: Option<AppResult<()>>)
    ensures
        heard(r, *final(talk)) == version_spec(old(talk).rest()),
{
    let version: String = match ask_text(talk, Request::Version)? {
        Some(version) => version,
        None => {
            let none: String = String::new();
            assert(none@ =~= Seq::empty());
            none
        },
    };
    ask_done(talk, Request::Print(text::joined3("perch ", &version, "\n")))?;
    Some(Ok(()))
}

/// What a command does.
pub open spec fn dispatch_spec(rest: Seq<Answer>, invocation: Invocation<Seq<char>>) -> Progress<
    Meant<()>,
> {
    match invocation {
        Invocation::Navigate(Navigation::Go(target)) => verbs::run_verb_spec(
            rest,
            Verb::Go,
            target,
        ),
        Invocation::Navigate(Navigation::Here(target)) => verbs::run_verb_spec(
            rest,
            Verb::Here,
            target,
        ),
        Invocation::Navigate(Navigation::Worktree { worktree_name, target, shell_handoff }) =>
            wt::run_spec(rest, worktree_name, target, shell_handoff),
        Invocation::RemoveBranches(removal) => br::run_rm_spec(rest, removal),
        Invocation::ListWorktrees => wt::run_ls_spec(rest),
        Invocation::RemoveWorktrees(removal) => wt::run_rm_spec(rest, removal),
        Invocation::Help(page) => printed_and_done(
            done_asked(rest, Asked::Print(help_text(page))),
        ),
        Invocation::Version => version_spec(rest),
        Invocation::Complete(query) => complete_spec(rest, query),
    }
}

/// A whole command. One that concerns worktrees first starts workers for what
/// is left to reclaim.
pub open spec fn run_invocation_spec(
    rest: Seq<Answer>,
    invocation: Invocation<Seq<char>>,
) -> Progress<Meant<()>> {
    if concerns_worktrees(invocation) {
        match reclamation::retry_spec(rest) {
            Progress::Waiting(q) => Progress::Waiting(q),
            Progress::Finished(_, rest) => dispatch_spec(rest, invocation),
        }
    } else {
        dispatch_spec(rest, invocation)
    }
}

fn dispatch(talk: &mut Talk, invocation: Invocation) -> (r: Option<AppResult<()>>)
    ensures
        heard(r, *final(talk)) == dispatch_spec(old(talk).rest(), invocation.model()),
{
    match invocation {
        Invocation::Navigate(Navigation::Go(target)) => run(talk, lent(&target)),
        Invocation::Navigate(Navigation::Here(target)) => run_br(talk, lent(&target)),
        Invocation::Navigate(Navigation::Worktree { worktree_name, target, shell_handoff }) =>
            wt::run(talk, lent(&worktree_name), lent(&target), shell_handoff),
        Invocation::RemoveBranches(removal) => br::run_rm(talk, &removal),
        Invocation::ListWorktrees => wt::run_ls(talk),
        Invocation::RemoveWorktrees(removal) => wt::run_rm(talk, &removal),
        Invocation::Help(page) => {
            ask_done(talk, Request::Print(page.text().to_owned()))?;
            Some(Ok(()))
        },
        Invocation::Version => print_version(talk),
        Invocation::Complete(query) => complete(talk, &query),
    }
}

pub fn run_invocation(talk: &mut Talk, invocation: Invocation) -> (r: Option<AppResult<()>>)
    ensures
        heard(r, *final(talk)) == run_invocation_spec(old(talk).rest(), invocation.model()),
{
    let worktrees: bool = match &invocation {
        Invocation::Navigate(Navigation::Worktree { .. }) => true,
        Invocation::ListWorktrees => true,
        Invocation::RemoveWorktrees(_) => true,
        _ => false,
    };
    if worktrees {
        reclamation::retry(talk)?;
    }
    dispatch(talk, invocation)
}

} // verus!
