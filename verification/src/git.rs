//! What git is asked, and what is made of its answers.
use vstd::prelude::*;
use vstd::string::*;

use crate::ask::{
    args1, args2, args3, args4, args5, args6, ask_flag, ask_git, ask_run, flag_asked, git, git_asked,
    lent, owned, run_asked, words1, words2, words3, words4, words5, words6, Ran,
};
use crate::error::{AppResult, Error, IoError, Meant};
use crate::grammar::Words;
use crate::model::{borrowed, models, Modelled};
use crate::rows::{self, keep_map};
use crate::talk::{heard, Answer, Asked, Output, Progress, Request, Talk};
use crate::text;

pub mod deletion;
pub mod equivalence;
pub mod refs;
pub mod upstream;
pub mod worktrees;

pub use deletion::{
    config_branch, delete_branch_at, delete_branch_if_merged, force_delete_branch,
    BranchDeleteOutcome, Holder, RefState,
};
pub use equivalence::{equivalent_branches, Proof};
pub use refs::{
    ahead_behind_map, branch_refs, parse_track, stale_branches, stale_from, unmerged_branches,
    unmerged_from, Anchor, BranchRef, Unmerged,
};

pub use upstream::{
    delete_remote_branch, inspect_upstream, same_named_upstream, RemoteBranch,
    RemoteBranchDeleteOutcome, UpstreamInspection, UpstreamRef,
};
pub use worktrees::{
    declares_submodules, holds_submodule_repositories, worktree_add, worktree_branches,
    worktree_dirtiness, worktree_dirty, worktree_for_branch, worktree_has_initialized_submodules,
    worktree_list, worktree_list_in, worktree_remove, WorktreeRemoveOutcome,
};

verus! {

/// Which ref fact put a branch on the cleanup prompt.
#[derive(Clone, Copy, Debug, PartialEq, Eq, Structural)]
pub enum Ground {
    /// The upstream it tracked was deleted from the remote.
    Gone,
    /// It tracks the anchor's counterpart and is ahead of it.
    TracksAnchorAhead,
    /// It tracks nothing and its tip is reachable from, but not equal to, the
    /// anchor's tip.
    UntrackedTipInAnchor,
}

impl Modelled for Ground {
    type Model = Ground;

    open spec fn model(&self) -> Ground {
        *self
    }
}

impl Ground {
    pub open spec fn words_spec(self) -> Seq<char> {
        match self {
            Ground::Gone => "gone"@,
            Ground::TracksAnchorAhead => "tracks anchor, ahead"@,
            Ground::UntrackedTipInAnchor => "untracked, tip in anchor"@,
        }
    }

    /// The ground in words. It says why a branch is offered, not what deleting
    /// it would destroy, so it has no sign of its own.
    pub fn words(self) -> (r: &'static str)
        ensures
            r@ == self.words_spec(),
    {
        match self {
            Ground::Gone => "gone",
            Ground::TracksAnchorAhead => "tracks anchor, ahead",
            Ground::UntrackedTipInAnchor => "untracked, tip in anchor",
        }
    }
}

/// A stale branch and the ground it is stale on.
#[derive(Debug, PartialEq, Eq)]
pub struct StaleBranch<S = String> {
    pub ground: Ground,
    pub name: S,
}

impl Modelled for StaleBranch {
    type Model = StaleBranch<Seq<char>>;

    open spec fn model(&self) -> StaleBranch<Seq<char>> {
        StaleBranch { ground: self.ground, name: self.name@ }
    }
}

/// A worktree. Detached ones have no branch.
#[derive(Debug, PartialEq, Eq)]
pub struct Worktree<S = String> {
    pub path: S,
    pub branch: Option<S>,
    pub is_main: bool,
    /// Registered, but its directory is gone. Such an entry still blocks
    /// checkout of its branch, but cannot be entered.
    pub prunable: bool,
}

impl Modelled for Worktree {
    type Model = Worktree<Seq<char>>;

    open spec fn model(&self) -> Worktree<Seq<char>> {
        Worktree {
            path: self.path@,
            branch: self.branch.model(),
            is_main: self.is_main,
            prunable: self.prunable,
        }
    }
}

impl Clone for StaleBranch {
    fn clone(&self) -> (r: Self)
        ensures
            r.model() == self.model(),
    {
        StaleBranch { ground: self.ground, name: self.name.clone() }
    }
}

impl Clone for Worktree {
    fn clone(&self) -> (r: Self)
        ensures
            r.model() == self.model(),
    {
        Worktree {
            path: self.path.clone(),
            branch: owned(lent(&self.branch)),
            is_main: self.is_main,
            prunable: self.prunable,
        }
    }
}

#[derive(Clone, Copy, Debug, PartialEq, Eq, Structural)]
pub enum MergeReport {
    UpToDate,
    Pulled(u32),
    NoRemote,
}

#[derive(Clone, Copy, Debug, PartialEq, Eq, Structural)]
pub enum FastForwardResult {
    Merged(MergeReport),
    Diverged,
}

#[derive(Clone, Copy, Debug, PartialEq, Eq, Structural)]
pub enum StashPopOutcome {
    Clean,
    Conflict,
}

#[derive(Clone, Copy, Debug, PartialEq, Eq, Structural)]
pub enum RebaseOutcome {
    Clean,
    Aborted,
}

#[derive(Clone, Debug, PartialEq, Eq)]
pub enum FetchOutcome<S = String> {
    Fetched,
    Failed(S),
}

impl Modelled for MergeReport {
    type Model = MergeReport;

    open spec fn model(&self) -> MergeReport {
        *self
    }
}

impl Modelled for FastForwardResult {
    type Model = FastForwardResult;

    open spec fn model(&self) -> FastForwardResult {
        *self
    }
}

impl Modelled for StashPopOutcome {
    type Model = StashPopOutcome;

    open spec fn model(&self) -> StashPopOutcome {
        *self
    }
}

impl Modelled for RebaseOutcome {
    type Model = RebaseOutcome;

    open spec fn model(&self) -> RebaseOutcome {
        *self
    }
}

impl Modelled for FetchOutcome {
    type Model = FetchOutcome<Seq<char>>;

    open spec fn model(&self) -> FetchOutcome<Seq<char>> {
        match self {
            FetchOutcome::Fetched => FetchOutcome::Fetched,
            FetchOutcome::Failed(detail) => FetchOutcome::Failed(detail@),
        }
    }
}

// ---------------------------------------------------------------------------
// Running git
// ---------------------------------------------------------------------------

/// The words that git is run with: a directory of its own goes first, so that
/// the current directory need not change.
pub open spec fn command_line(dir: Option<Seq<char>>, args: Words) -> Words {
    match dir {
        Some(dir) => args2("-C"@, dir) + args,
        None => args,
    }
}

/// The words that git is run with.
pub fn git_cmd(dir: Option<&str>, args: Vec<String>) -> (r: Vec<String>)
    ensures
        r.model() == command_line(borrowed(dir), args.model()),
{
    match dir {
        None => args,
        Some(dir) => {
            let mut args: Vec<String> = args;
            let ghost given = models(args@);
            let mut r: Vec<String> = words2("-C", dir);
            let ghost front = models(r@);
            r.append(&mut args);
            assert(models(r@) =~= front + given);
            r
        },
    }
}

/// What git printed, or the failure that its exit amounts to.
pub open spec fn printed(command: Seq<char>, ran: Ran) -> Meant<Seq<char>> {
    match ran {
        Err(e) => Err(Error::Io(e)),
        Ok(output) => if output.succeeded() {
            Ok(output.stdout)
        } else {
            Err(Error::Git { command, message: text::trim(output.stderr) })
        },
    }
}

/// Git, asked in `dir`, for what it prints.
pub open spec fn run_in_spec(
    rest: Seq<Answer>,
    dir: Option<Seq<char>>,
    args: Words,
) -> Progress<Meant<Seq<char>>> {
    let command = if args.len() > 0 {
        args[0]
    } else {
        "<unknown>"@
    };
    match git_asked(rest, dir, args) {
        Progress::Waiting(q) => Progress::Waiting(q),
        Progress::Finished(ran, rest) => Progress::Finished(printed(command, ran), rest),
    }
}

/// What git printed, or the failure that its exit amounts to.
pub fn read_output(command: &str, ran: Result<Output, IoError>) -> (r: AppResult<String>)
    ensures
        r.model() == printed(command@, ran.model()),
{
    match ran {
        Err(e) => Err(Error::Io(e)),
        Ok(output) => {
            if output.success() {
                Ok(output.stdout)
            } else {
                Err(
                    Error::Git {
                        command: command.to_owned(),
                        message: text::trimmed(&output.stderr),
                    },
                )
            }
        },
    }
}

pub fn run_in(talk: &mut Talk, dir: Option<&str>, args: Vec<String>) -> (r: Option<
    AppResult<String>,
>)
    ensures
        heard(r, *final(talk)) == run_in_spec(old(talk).rest(), borrowed(dir), args.model()),
{
    let command: String = if args.len() > 0 {
        args[0].clone()
    } else {
        "<unknown>".to_owned()
    };
    let ran: Result<Output, IoError> = ask_git(talk, dir, args)?;
    Some(read_output(&command, ran))
}

pub fn run(talk: &mut Talk, args: Vec<String>) -> (r: Option<AppResult<String>>)
    ensures
        heard(r, *final(talk)) == run_in_spec(old(talk).rest(), None, args.model()),
{
    run_in(talk, None, args)
}

/// The object that a ref names, by git's own reading of it.
pub open spec fn rev_parse_spec(
    rest: Seq<Answer>,
    dir: Option<Seq<char>>,
    refname: Seq<char>,
) -> Progress<Meant<Seq<char>>> {
    match run_in_spec(rest, dir, args2("rev-parse"@, refname)) {
        Progress::Waiting(q) => Progress::Waiting(q),
        Progress::Finished(Err(e), rest) => Progress::Finished(Err(e), rest),
        Progress::Finished(Ok(output), rest) => Progress::Finished(Ok(text::trim(output)), rest),
    }
}

pub fn rev_parse(talk: &mut Talk, dir: Option<&str>, refname: &str) -> (r: Option<
    AppResult<String>,
>)
    ensures
        heard(r, *final(talk)) == rev_parse_spec(old(talk).rest(), borrowed(dir), refname@),
{
    match run_in(talk, dir, words2("rev-parse", refname))? {
        Ok(output) => Some(Ok(text::trimmed(&output))),
        Err(e) => Some(Err(e)),
    }
}

/// What a ref points at, or `None` where it does not resolve or could not be
/// read.
pub open spec fn resolve_spec(
    rest: Seq<Answer>,
    dir: Option<Seq<char>>,
    refname: Seq<char>,
) -> Progress<Option<Seq<char>>> {
    match rev_parse_spec(rest, dir, refname) {
        Progress::Waiting(q) => Progress::Waiting(q),
        Progress::Finished(r, rest) => Progress::Finished(
            match r {
                Ok(tip) => Some(tip),
                Err(_) => None,
            },
            rest,
        ),
    }
}

pub fn resolve(talk: &mut Talk, dir: Option<&str>, refname: &str) -> (r: Option<Option<String>>)
    ensures
        heard(r, *final(talk)) == resolve_spec(old(talk).rest(), borrowed(dir), refname@),
{
    match rev_parse(talk, dir, refname)? {
        Ok(tip) => Some(Some(tip)),
        Err(_) => Some(None),
    }
}

// ---------------------------------------------------------------------------
// The current branch and its remote
// ---------------------------------------------------------------------------

pub open spec fn or_none(name: Seq<char>) -> Option<Seq<char>> {
    if name.len() == 0 {
        None
    } else {
        Some(name)
    }
}

/// The branch that is checked out; none where HEAD is detached.
pub open spec fn current_branch_spec(rest: Seq<Answer>) -> Progress<Meant<Option<Seq<char>>>> {
    match run_in_spec(rest, None, args2("branch"@, "--show-current"@)) {
        Progress::Waiting(q) => Progress::Waiting(q),
        Progress::Finished(Err(e), rest) => Progress::Finished(Err(e), rest),
        Progress::Finished(Ok(output), rest) => Progress::Finished(
            Ok(or_none(text::trim(output))),
            rest,
        ),
    }
}

pub fn current_branch(talk: &mut Talk) -> (r: Option<AppResult<Option<String>>>)
    ensures
        heard(r, *final(talk)) == current_branch_spec(old(talk).rest()),
{
    match run(talk, words2("branch", "--show-current"))? {
        Err(e) => Some(Err(e)),
        Ok(output) => {
            let name: String = text::trimmed(&output);
            if name.as_str().is_empty() {
                Some(Ok(None))
            } else {
                Some(Ok(Some(name)))
            }
        },
    }
}

/// The remote that a branch's configuration names: its first line, unless
/// that is empty or `.`, which stands for this very repository.
pub open spec fn configured_remote(output: Seq<char>) -> Option<Seq<char>> {
    let ls = text::lines(output);
    if ls.len() > 0 && text::trim(ls[0]).len() > 0 && text::trim(ls[0]) != "."@ {
        Some(text::trim(ls[0]))
    } else {
        None
    }
}

pub fn read_configured_remote(output: &str) -> (r: Option<String>)
    ensures
        r.model() == configured_remote(output@),
{
    let ls: Vec<String> = text::lines_of(output);
    if ls.len() > 0 {
        let name: String = text::trimmed(&ls[0]);
        if !name.as_str().is_empty() && !text::same(&name, ".") {
            return Some(name);
        }
    }
    None
}

/// The lines of `output` that are not empty.
pub open spec fn inked(output: Seq<char>) -> Words {
    keep_map(text::lines(output), |l: Seq<char>| or_none(l))
}

/// The one remote there is, where there is exactly one.
pub open spec fn sole_remote(output: Seq<char>) -> Seq<char> {
    let names = inked(output);
    if names.len() == 1 {
        names[0]
    } else {
        "origin"@
    }
}

pub fn read_sole_remote(output: &str) -> (r: String)
    ensures
        r@ == sole_remote(output@),
{
    let ls: Vec<String> = text::lines_of(output);
    let ghost all = text::lines(output@);
    let ghost f = |l: Seq<char>| or_none(l);
    let mut names: Vec<String> = Vec::new();
    let mut i: usize = 0;
    proof {
        rows::lemma_take_all(all);
    }
    while i < ls.len()
        invariant
            i <= ls@.len(),
            all == models(ls@),
            f == (|l: Seq<char>| or_none(l)),
            models(names@) == keep_map(all.take(i as int), f),
        decreases ls@.len() - i,
    {
        broadcast use crate::model::lemma_models_push;

        proof {
            rows::lemma_take_one_more(all, i as int);
        }
        if !ls[i].as_str().is_empty() {
            names.push(ls[i].clone());
        }
        i += 1;
    }
    assert(models(names@) == inked(output@));
    if names.len() == 1 {
        assert(names@[0].model() == models(names@)[0]);
        names[0].clone()
    } else {
        "origin".to_owned()
    }
}

pub open spec fn listed_remote_spec(rest: Seq<Answer>) -> Progress<Seq<char>> {
    match run_in_spec(rest, None, args1("remote"@)) {
        Progress::Waiting(q) => Progress::Waiting(q),
        Progress::Finished(Err(_), rest) => Progress::Finished("origin"@, rest),
        Progress::Finished(Ok(output), rest) => Progress::Finished(sole_remote(output), rest),
    }
}

/// The remote to fetch from, to merge from and to find the default branch on:
/// the one that the branch is configured with, else the only one there is,
/// else `origin`.
pub open spec fn current_remote_spec(
    rest: Seq<Answer>,
    current: Option<Seq<char>>,
) -> Progress<Seq<char>> {
    match current {
        None => listed_remote_spec(rest),
        Some(branch) => match run_in_spec(
            rest,
            None,
            args3("config"@, "--get"@, "branch."@ + branch + ".remote"@),
        ) {
            Progress::Waiting(q) => Progress::Waiting(q),
            Progress::Finished(Err(_), rest) => listed_remote_spec(rest),
            Progress::Finished(Ok(output), rest) => match configured_remote(output) {
                Some(name) => Progress::Finished(name, rest),
                None => listed_remote_spec(rest),
            },
        },
    }
}

pub fn current_remote(talk: &mut Talk, current: Option<&str>) -> (r: Option<String>)
    ensures
        heard(r, *final(talk)) == current_remote_spec(old(talk).rest(), borrowed(current)),
{
    if let Some(branch) = current {
        let key: String = text::joined3("branch.", branch, ".remote");
        match run(talk, words3("config", "--get", &key))? {
            Err(_) => {},
            Ok(output) => match read_configured_remote(&output) {
                Some(name) => return Some(name),
                None => {},
            },
        }
    }
    match run(talk, words1("remote"))? {
        Err(_) => Some("origin".to_owned()),
        Ok(output) => Some(read_sole_remote(&output)),
    }
}

// ---------------------------------------------------------------------------
// Branches
// ---------------------------------------------------------------------------

/// Every local branch.
pub open spec fn local_branches_spec(rest: Seq<Answer>) -> Progress<Meant<Words>> {
    match run_in_spec(rest, None, args2("branch"@, "--format=%(refname:short)"@)) {
        Progress::Waiting(q) => Progress::Waiting(q),
        Progress::Finished(Err(e), rest) => Progress::Finished(Err(e), rest),
        Progress::Finished(Ok(output), rest) => Progress::Finished(Ok(text::lines(output)), rest),
    }
}

pub fn local_branches(talk: &mut Talk) -> (r: Option<AppResult<Vec<String>>>)
    ensures
        heard(r, *final(talk)) == local_branches_spec(old(talk).rest()),
{
    match run(talk, words2("branch", "--format=%(refname:short)"))? {
        Err(e) => Some(Err(e)),
        Ok(output) => Some(Ok(text::lines_of(&output))),
    }
}

/// The branch that a remote-tracking ref stands for, unless it is the
/// remote's HEAD or a branch of that name is local.
pub open spec fn remote_only(local: Words, remote: Seq<char>) -> spec_fn(Seq<char>) -> Option<
    Seq<char>,
> {
    |refname: Seq<char>|
        if text::ends_with(refname, "/HEAD"@) {
            None
        } else {
            match text::strip_prefix(refname, remote + "/"@) {
                Some(name) => if local.contains(name) {
                    None
                } else {
                    Some(name)
                },
                None => None,
            }
        }
}

/// The branches that exist on `remote` and not locally.
pub open spec fn remote_only_branches_spec(
    rest: Seq<Answer>,
    local: Words,
    remote: Seq<char>,
) -> Progress<Meant<Words>> {
    match run_in_spec(
        rest,
        None,
        args3("for-each-ref"@, "--format=%(refname:short)"@, "refs/remotes/"@ + remote + "/"@),
    ) {
        Progress::Waiting(q) => Progress::Waiting(q),
        Progress::Finished(Err(e), rest) => Progress::Finished(Err(e), rest),
        Progress::Finished(Ok(output), rest) => Progress::Finished(
            Ok(keep_map(text::lines(output), remote_only(local, remote))),
            rest,
        ),
    }
}

/// Whether `name` is one of `names`.
pub fn is_among(names: &[String], name: &str) -> (r: bool)
    ensures
        r == models(names@).contains(name@),
{
    let mut i: usize = 0;
    while i < names.len()
        invariant
            i <= names@.len(),
            forall|j: int| 0 <= j < i ==> (#[trigger] names@[j])@ != name@,
        decreases names@.len() - i,
    {
        if text::same(&names[i], name) {
            assert(models(names@)[i as int] == name@);
            return true;
        }
        i += 1;
    }
    assert forall|j: int| 0 <= j < models(names@).len() implies models(names@)[j] != name@ by {
        assert(names@[j]@ != name@);
    }
    false
}

/// The rule half of [`remote_only_branches`].
pub fn remote_only_from(output: &str, local: &[String], remote: &str) -> (r: Vec<String>)
    ensures
        models(r@) == keep_map(text::lines(output@), remote_only(models(local@), remote@)),
{
    let strip: String = text::joined(remote, "/");
    let refs: Vec<String> = text::lines_of(output);
    let ghost all = text::lines(output@);
    let ghost f = remote_only(models(local@), remote@);
    let mut branches: Vec<String> = Vec::new();
    let mut i: usize = 0;
    proof {
        rows::lemma_take_all(all);
    }
    while i < refs.len()
        invariant
            i <= refs@.len(),
            all == models(refs@),
            strip@ == remote@ + "/"@,
            f == remote_only(models(local@), remote@),
            models(branches@) == keep_map(all.take(i as int), f),
        decreases refs@.len() - i,
    {
        broadcast use crate::model::lemma_models_push;

        proof {
            rows::lemma_take_one_more(all, i as int);
        }
        if !text::finishes(&refs[i], "/HEAD") {
            match text::stripped(&refs[i], &strip) {
                Some(name) => {
                    if !is_among(local, &name) {
                        branches.push(name);
                    }
                },
                None => {},
            }
        }
        i += 1;
    }
    branches
}

pub fn remote_only_branches(talk: &mut Talk, local: &[String], remote: &str) -> (r: Option<
    AppResult<Vec<String>>,
>)
    ensures
        heard(r, *final(talk)) == remote_only_branches_spec(
            old(talk).rest(),
            models(local@),
            remote@,
        ),
{
    let prefix: String = text::joined3("refs/remotes/", remote, "/");
    match run(talk, words3("for-each-ref", "--format=%(refname:short)", &prefix))? {
        Err(e) => Some(Err(e)),
        Ok(output) => Some(Ok(remote_only_from(&output, local, remote))),
    }
}

// ---------------------------------------------------------------------------
// The working tree
// ---------------------------------------------------------------------------

pub open spec fn has_tracked_changes_spec(rest: Seq<Answer>) -> Progress<Meant<bool>> {
    match run_in_spec(rest, None, args3("status"@, "--porcelain"@, "--untracked-files=no"@)) {
        Progress::Waiting(q) => Progress::Waiting(q),
        Progress::Finished(Err(e), rest) => Progress::Finished(Err(e), rest),
        Progress::Finished(Ok(output), rest) => Progress::Finished(Ok(output.len() > 0), rest),
    }
}

/// Whether tracked files hold uncommitted changes.
pub fn has_tracked_changes(talk: &mut Talk) -> (r: Option<AppResult<bool>>)
    ensures
        heard(r, *final(talk)) == has_tracked_changes_spec(old(talk).rest()),
{
    match run(talk, words3("status", "--porcelain", "--untracked-files=no"))? {
        Err(e) => Some(Err(e)),
        Ok(output) => Some(Ok(!output.as_str().is_empty())),
    }
}

/// A git command whose output does not matter, only that it succeeds.
pub open spec fn run_silently(rest: Seq<Answer>, args: Words) -> Progress<Meant<()>> {
    match run_in_spec(rest, None, args) {
        Progress::Waiting(q) => Progress::Waiting(q),
        Progress::Finished(Err(e), rest) => Progress::Finished(Err(e), rest),
        Progress::Finished(Ok(_), rest) => Progress::Finished(Ok(()), rest),
    }
}

fn run_for_effect(talk: &mut Talk, args: Vec<String>) -> (r: Option<AppResult<()>>)
    ensures
        heard(r, *final(talk)) == run_silently(old(talk).rest(), args.model()),
{
    match run(talk, args)? {
        Err(e) => Some(Err(e)),
        Ok(_) => Some(Ok(())),
    }
}

pub open spec fn stash_push_spec(rest: Seq<Answer>) -> Progress<Meant<()>> {
    run_silently(rest, args5("stash"@, "push"@, "--quiet"@, "-m"@, "perch: auto-stash"@))
}

pub fn stash_push(talk: &mut Talk) -> (r: Option<AppResult<()>>)
    ensures
        heard(r, *final(talk)) == stash_push_spec(old(talk).rest()),
{
    run_for_effect(talk, words5("stash", "push", "--quiet", "-m", "perch: auto-stash"))
}

/// What came of popping the stash: a conflict is told by the word git prints,
/// and any other failure by whatever git said of it.
pub open spec fn stash_popped(output: Output<Seq<char>>) -> Meant<StashPopOutcome> {
    if output.succeeded() {
        Ok(StashPopOutcome::Clean)
    } else if text::contains(output.stdout, "CONFLICT"@) || text::contains(
        output.stderr,
        "CONFLICT"@,
    ) {
        Ok(StashPopOutcome::Conflict)
    } else {
        Err(
            Error::Git {
                command: "stash pop"@,
                message: if text::trim(output.stdout).len() == 0 {
                    text::trim(output.stderr)
                } else {
                    text::trim(output.stdout)
                },
            },
        )
    }
}

pub open spec fn stash_pop_spec(rest: Seq<Answer>) -> Progress<Meant<StashPopOutcome>> {
    match git_asked(rest, None, args2("stash"@, "pop"@)) {
        Progress::Waiting(q) => Progress::Waiting(q),
        Progress::Finished(Err(e), rest) => Progress::Finished(Err(Error::Io(e)), rest),
        Progress::Finished(Ok(output), rest) => Progress::Finished(stash_popped(output), rest),
    }
}

pub fn stash_pop(talk: &mut Talk) -> (r: Option<AppResult<StashPopOutcome>>)
    ensures
        heard(r, *final(talk)) == stash_pop_spec(old(talk).rest()),
{
    let output: Output = match ask_git(talk, None, words2("stash", "pop"))? {
        Ok(output) => output,
        Err(e) => return Some(Err(Error::Io(e))),
    };
    if output.success() {
        return Some(Ok(StashPopOutcome::Clean));
    }
    if text::holds_part(&output.stdout, "CONFLICT") || text::holds_part(
        &output.stderr,
        "CONFLICT",
    ) {
        return Some(Ok(StashPopOutcome::Conflict));
    }
    let stdout: String = text::trimmed(&output.stdout);
    let message: String = if stdout.as_str().is_empty() {
        text::trimmed(&output.stderr)
    } else {
        stdout
    };
    Some(Err(Error::Git { command: "stash pop".to_owned(), message }))
}

/// Git refused because a branch or path is held by a worktree whose directory
/// may be gone: pruning clears such a registration.
pub open spec fn held_by_stale_worktree(stderr: Seq<char>) -> bool {
    text::contains(stderr, "already registered"@) || text::contains(stderr, "used by worktree"@)
}

pub fn is_stale_worktree_error(stderr: &str) -> (r: bool)
    ensures
        r == held_by_stale_worktree(stderr@),
{
    text::holds_part(stderr, "already registered") || text::holds_part(stderr, "used by worktree")
}

pub open spec fn worktree_prune_spec(rest: Seq<Answer>) -> Progress<Meant<()>> {
    run_silently(rest, args2("worktree"@, "prune"@))
}

/// Clears worktree registrations whose directories are gone.
pub fn worktree_prune(talk: &mut Talk) -> (r: Option<AppResult<()>>)
    ensures
        heard(r, *final(talk)) == worktree_prune_spec(old(talk).rest()),
{
    run_for_effect(talk, words2("worktree", "prune"))
}

/// Why a refused checkout is tried once more.
pub enum CheckoutRetry {
    /// A worktree whose directory is gone may hold the branch.
    Prune,
    /// A submodule may lack objects.
    FetchSubmodules,
    Refused,
}

pub open spec fn checkout_retry(stderr: Seq<char>) -> CheckoutRetry {
    if held_by_stale_worktree(stderr) {
        CheckoutRetry::Prune
    } else if text::contains(stderr, "Submodule"@) && text::contains(
        stderr,
        "could not be updated"@,
    ) {
        CheckoutRetry::FetchSubmodules
    } else {
        CheckoutRetry::Refused
    }
}

/// Checks a branch out, clearing what is known to stand in the way at most
/// once.
pub open spec fn checkout_spec(rest: Seq<Answer>, branch: Seq<char>) -> Progress<Meant<()>> {
    let args = args3("checkout"@, branch, "--quiet"@);
    match git_asked(rest, None, args) {
        Progress::Waiting(q) => Progress::Waiting(q),
        Progress::Finished(Err(e), rest) => Progress::Finished(Err(Error::Io(e)), rest),
        Progress::Finished(Ok(output), rest) => if output.succeeded() {
            Progress::Finished(Ok(()), rest)
        } else {
            match checkout_retry(output.stderr) {
                CheckoutRetry::Refused => Progress::Finished(
                    Err(Error::Git { command: "checkout"@, message: text::trim(output.stderr) }),
                    rest,
                ),
                CheckoutRetry::Prune => match worktree_prune_spec(rest) {
                    Progress::Waiting(q) => Progress::Waiting(q),
                    Progress::Finished(_, rest) => run_silently(rest, args),
                },
                CheckoutRetry::FetchSubmodules => match git_asked(
                    rest,
                    None,
                    args5("submodule"@, "foreach"@, "--recursive"@, "git"@, "fetch"@),
                ) {
                    Progress::Waiting(q) => Progress::Waiting(q),
                    Progress::Finished(_, rest) => run_silently(rest, args),
                },
            }
        },
    }
}

pub fn checkout(talk: &mut Talk, branch: &str) -> (r: Option<AppResult<()>>)
    ensures
        heard(r, *final(talk)) == checkout_spec(old(talk).rest(), branch@),
{
    let output: Output = match ask_git(talk, None, words3("checkout", branch, "--quiet"))? {
        Ok(output) => output,
        Err(e) => return Some(Err(Error::Io(e))),
    };
    if output.success() {
        return Some(Ok(()));
    }
    // A live worktree survives the pruning, and then the error still surfaces.
    if is_stale_worktree_error(&output.stderr) {
        let _pruned: AppResult<()> = worktree_prune(talk)?;
        return run_for_effect(talk, words3("checkout", branch, "--quiet"));
    }
    if !text::holds_part(&output.stderr, "Submodule") || !text::holds_part(
        &output.stderr,
        "could not be updated",
    ) {
        return Some(
            Err(
                Error::Git {
                    command: "checkout".to_owned(),
                    message: text::trimmed(&output.stderr),
                },
            ),
        );
    }
    let _fetched: Result<Output, IoError> = ask_git(
        talk,
        None,
        words5("submodule", "foreach", "--recursive", "git", "fetch"),
    )?;
    run_for_effect(talk, words3("checkout", branch, "--quiet"))
}

/// Discards local commits and tracked changes in favour of the remote branch.
pub open spec fn reset_hard_spec(
    rest: Seq<Answer>,
    remote: Seq<char>,
    branch: Seq<char>,
) -> Progress<Meant<()>> {
    run_silently(rest, args3("reset"@, "--hard"@, remote + "/"@ + branch))
}

pub fn reset_hard(talk: &mut Talk, remote: &str, branch: &str) -> (r: Option<AppResult<()>>)
    ensures
        heard(r, *final(talk)) == reset_hard_spec(old(talk).rest(), remote@, branch@),
{
    let remote_ref: String = text::joined3(remote, "/", branch);
    run_for_effect(talk, words3("reset", "--hard", &remote_ref))
}

// ---------------------------------------------------------------------------
// Fetching, merging, rebasing
// ---------------------------------------------------------------------------

pub open spec fn fetch_args_spec(remote: Seq<char>) -> Words {
    args4("fetch"@, "--quiet"@, "--prune"@, remote)
}

pub fn fetch_args(remote: &str) -> (r: Vec<String>)
    ensures
        r.model() == fetch_args_spec(remote@),
{
    words4("fetch", "--quiet", "--prune", remote)
}

/// What a fetch came to.
pub open spec fn fetch_outcome(ran: Ran) -> FetchOutcome<Seq<char>> {
    match ran {
        Err(e) => FetchOutcome::Failed(e.message),
        Ok(output) => if output.succeeded() {
            FetchOutcome::Fetched
        } else {
            FetchOutcome::Failed(text::trim(output.stderr))
        },
    }
}

impl FetchOutcome {
    /// What a fetch that ran came to.
    pub fn from_output(output: &Output) -> (r: Self)
        ensures
            r.model() == fetch_outcome(Ok(output.model())),
    {
        if output.success() {
            FetchOutcome::Fetched
        } else {
            FetchOutcome::Failed(text::trimmed(&output.stderr))
        }
    }
}

pub open spec fn fetch_spec(
    rest: Seq<Answer>,
    dir: Option<Seq<char>>,
    remote: Seq<char>,
) -> Progress<FetchOutcome<Seq<char>>> {
    match git_asked(rest, dir, fetch_args_spec(remote)) {
        Progress::Waiting(q) => Progress::Waiting(q),
        Progress::Finished(ran, rest) => Progress::Finished(fetch_outcome(ran), rest),
    }
}

pub fn fetch(talk: &mut Talk, dir: Option<&str>, remote: &str) -> (r: Option<FetchOutcome>)
    ensures
        heard(r, *final(talk)) == fetch_spec(old(talk).rest(), borrowed(dir), remote@),
{
    match ask_git(talk, dir, fetch_args(remote))? {
        Err(e) => Some(FetchOutcome::Failed(e.message)),
        Ok(output) => Some(FetchOutcome::from_output(&output)),
    }
}

/// The words of a fetch that goes into every submodule where it runs, also
/// where nothing that it brings is new.
pub open spec fn deep_fetch_args_spec(remote: Seq<char>) -> Words {
    args5("fetch"@, "--quiet"@, "--prune"@, remote, "--recurse-submodules=yes"@)
}

/// A fetch into every submodule.
pub open spec fn fetch_deep_spec(
    rest: Seq<Answer>,
    dir: Option<Seq<char>>,
    remote: Seq<char>,
) -> Progress<FetchOutcome<Seq<char>>> {
    match git_asked(rest, dir, deep_fetch_args_spec(remote)) {
        Progress::Waiting(q) => Progress::Waiting(q),
        Progress::Finished(ran, rest) => Progress::Finished(fetch_outcome(ran), rest),
    }
}

pub fn fetch_deep(talk: &mut Talk, dir: Option<&str>, remote: &str) -> (r: Option<FetchOutcome>)
    ensures
        heard(r, *final(talk)) == fetch_deep_spec(old(talk).rest(), borrowed(dir), remote@),
{
    let args: Vec<String> = words5("fetch", "--quiet", "--prune", remote, "--recurse-submodules=yes");
    match ask_git(talk, dir, args)? {
        Err(e) => Some(FetchOutcome::Failed(e.message)),
        Ok(output) => Some(FetchOutcome::from_output(&output)),
    }
}

/// The variables under which a fetch asks nobody: git fails at once rather
/// than prompt, and neither git nor ssh finds an askpass program to run.
pub open spec fn unattended() -> Seq<(Seq<char>, Seq<char>)> {
    Seq::empty().push(("GIT_ASKPASS"@, ""@)).push(("GIT_TERMINAL_PROMPT"@, "0"@)).push(
        ("SSH_ASKPASS"@, ""@),
    ).push(("SSH_ASKPASS_REQUIRE"@, "never"@))
}

/// Starts a fetch without waiting for it, for a caller with something to do
/// meanwhile. A fetch that needs a person fails; one that needs none, by an
/// agent or a keychain, works. Whether it started is what comes back.
pub fn fetch_in_background(talk: &mut Talk, remote: &str) -> (r: Option<bool>)
    ensures
        heard(r, *final(talk)) == flag_asked(
            old(talk).rest(),
            Asked::Background { args: fetch_args_spec(remote@), env: unattended() },
        ),
{
    broadcast use crate::model::lemma_models_push;

    let mut env: Vec<(String, String)> = Vec::new();
    assert(models(env@) =~= Seq::empty());
    env.push(("GIT_ASKPASS".to_owned(), "".to_owned()));
    env.push(("GIT_TERMINAL_PROMPT".to_owned(), "0".to_owned()));
    env.push(("SSH_ASKPASS".to_owned(), "".to_owned()));
    env.push(("SSH_ASKPASS_REQUIRE".to_owned(), "never".to_owned()));
    ask_flag(talk, Request::Background { args: fetch_args(remote), env })
}

/// The URL that `remote` fetches from, as `dir` resolves it.
pub open spec fn remote_url_spec(
    rest: Seq<Answer>,
    dir: Option<Seq<char>>,
    remote: Seq<char>,
) -> Progress<Option<Seq<char>>> {
    match run_in_spec(rest, dir, args3("remote"@, "get-url"@, remote)) {
        Progress::Waiting(q) => Progress::Waiting(q),
        Progress::Finished(Err(_), rest) => Progress::Finished(None, rest),
        Progress::Finished(Ok(url), rest) => Progress::Finished(Some(text::trim(url)), rest),
    }
}

pub fn remote_url(talk: &mut Talk, dir: Option<&str>, remote: &str) -> (r: Option<Option<String>>)
    ensures
        heard(r, *final(talk)) == remote_url_spec(old(talk).rest(), borrowed(dir), remote@),
{
    match run_in(talk, dir, words3("remote", "get-url", remote))? {
        Err(_) => Some(None),
        Ok(url) => Some(Some(text::trimmed(&url))),
    }
}

/// The entries of a listing. Git ends each of them with a NUL, so that a value
/// with a line feed in it stays whole; what stands behind the last NUL is no
/// entry.
pub open spec fn entries_in(output: Seq<char>) -> Words {
    let pieces = text::split(output, '\0');
    if pieces.last().len() == 0 {
        pieces.drop_last()
    } else {
        pieces
    }
}

/// The entries of a listing, in its order.
pub fn entries_of(output: &str) -> (r: Vec<String>)
    ensures
        models(r@) == entries_in(output@),
{
    let mut pieces: Vec<String> = text::split_at_each(output, '\0');
    let ghost all = models(pieces@);
    proof {
        text::lemma_split_nonempty(output@, '\0');
        assert(all.last() == pieces@.last()@);
    }
    if pieces[pieces.len() - 1].as_str().is_empty() {
        let _end: Option<String> = pieces.pop();
        assert(models(pieces@) =~= all.drop_last());
    }
    pieces
}

/// Every configuration entry in force in `dir`, in the order that git reads
/// them, which carries their precedence.
pub open spec fn config_entries_spec(rest: Seq<Answer>, dir: Option<Seq<char>>) -> Progress<Words> {
    match run_in_spec(rest, dir, args3("config"@, "--null"@, "--list"@)) {
        Progress::Waiting(q) => Progress::Waiting(q),
        Progress::Finished(Err(_), rest) => Progress::Finished(Seq::empty(), rest),
        Progress::Finished(Ok(output), rest) => Progress::Finished(entries_in(output), rest),
    }
}

pub fn config_entries(talk: &mut Talk, dir: Option<&str>) -> (r: Option<Vec<String>>)
    ensures
        heard(r, *final(talk)) == config_entries_spec(old(talk).rest(), borrowed(dir)),
{
    match run_in(talk, dir, words3("config", "--null", "--list"))? {
        Err(_) => {
            let none: Vec<String> = Vec::new();
            assert(models(none@) =~= Seq::empty());
            Some(none)
        },
        Ok(output) => Some(entries_of(&output)),
    }
}

/// Whatever entries git lists, each ended by a NUL, come back one for one and
/// in their order, and nothing else does.
pub proof fn entries_read_back(entries: Words)
    requires
        forall|i: int| 0 <= i < entries.len() ==> !(#[trigger] entries[i]).contains('\0'),
    ensures
        entries_in(nul_ended(entries)) == entries,
    decreases entries.len(),
{
    let output = nul_ended(entries);
    if entries.len() == 0 {
        let none: Seq<char> = Seq::empty();
        text::lemma_split_first(none, '\0', none);
        assert(entries_in(output) =~= entries);
    } else {
        let first = entries[0];
        let others = entries.drop_first();
        assert forall|i: int| 0 <= i < others.len() implies !(#[trigger] others[i]).contains(
            '\0',
        ) by {
            assert(others[i] == entries[i + 1]);
        }
        entries_read_back(others);
        text::lemma_split_first(first, '\0', nul_ended(others));
        text::lemma_split_nonempty(nul_ended(others), '\0');
        lemma_ends_in_nothing(others);
        let pieces = text::split(output, '\0');
        let after = text::split(nul_ended(others), '\0');
        assert(pieces == seq![first] + after);
        assert(pieces.last() == after.last());
        assert(entries_in(output) =~= entries) by {
            assert(after.drop_last() == others);
            assert(pieces.drop_last() =~= seq![first] + after.drop_last());
            assert(seq![first] + others =~= entries);
        }
    }
}

proof fn lemma_ends_in_nothing(entries: Words)
    requires
        forall|i: int| 0 <= i < entries.len() ==> !(#[trigger] entries[i]).contains('\0'),
    ensures
        text::split(nul_ended(entries), '\0').last().len() == 0,
    decreases entries.len(),
{
    if entries.len() == 0 {
        let none: Seq<char> = Seq::empty();
        text::lemma_split_first(none, '\0', none);
    } else {
        let others = entries.drop_first();
        assert forall|i: int| 0 <= i < others.len() implies !(#[trigger] others[i]).contains(
            '\0',
        ) by {
            assert(others[i] == entries[i + 1]);
        }
        lemma_ends_in_nothing(others);
        text::lemma_split_first(entries[0], '\0', nul_ended(others));
        text::lemma_split_nonempty(nul_ended(others), '\0');
    }
}

/// Entries as git lists them: each ended by a NUL.
pub open spec fn nul_ended(entries: Words) -> Seq<char>
    decreases entries.len(),
{
    if entries.len() == 0 {
        Seq::empty()
    } else {
        entries[0].push('\0') + nul_ended(entries.drop_first())
    }
}

/// Rebases the current branch, with git's own output shown. A rebase that
/// fails is aborted, which leaves the branch where it was.
pub open spec fn rebase_spec(rest: Seq<Answer>, onto: Seq<char>) -> Progress<Meant<RebaseOutcome>> {
    match run_asked(
        rest,
        Asked::Git {
            dir: None,
            args: args4("-c"@, "advice.skippedCherryPicks=false"@, "rebase"@, onto),
            input: None,
            shown: true,
        },
    ) {
        Progress::Waiting(q) => Progress::Waiting(q),
        Progress::Finished(Err(e), rest) => Progress::Finished(Err(Error::Io(e)), rest),
        Progress::Finished(Ok(output), rest) => if output.succeeded() {
            Progress::Finished(Ok(RebaseOutcome::Clean), rest)
        } else {
            match git_asked(rest, None, args2("rebase"@, "--abort"@)) {
                Progress::Waiting(q) => Progress::Waiting(q),
                Progress::Finished(_, rest) => Progress::Finished(Ok(RebaseOutcome::Aborted), rest),
            }
        },
    }
}

pub fn rebase(talk: &mut Talk, onto: &str) -> (r: Option<AppResult<RebaseOutcome>>)
    ensures
        heard(r, *final(talk)) == rebase_spec(old(talk).rest(), onto@),
{
    let request: Request = Request::Git {
        dir: None,
        args: words4("-c", "advice.skippedCherryPicks=false", "rebase", onto),
        input: None,
        shown: true,
    };
    let output: Output = match ask_run(talk, request)? {
        Ok(output) => output,
        Err(e) => return Some(Err(Error::Io(e))),
    };
    if output.success() {
        return Some(Ok(RebaseOutcome::Clean));
    }
    let _aborted: Result<Output, IoError> = ask_git(talk, None, words2("rebase", "--abort"))?;
    Some(Ok(RebaseOutcome::Aborted))
}

/// How many commits git counted.
pub open spec fn counted(output: Seq<char>) -> Meant<FastForwardResult> {
    match text::parse_u32(text::trim(output)) {
        Ok(n) => Ok(FastForwardResult::Merged(MergeReport::Pulled(n))),
        Err(e) => Err(Error::ParseInt(e)),
    }
}

/// The commits from `before` to `after`, once the merge went through.
pub open spec fn pulled_spec(
    rest: Seq<Answer>,
    dir: Option<Seq<char>>,
    before: Seq<char>,
) -> Progress<Meant<FastForwardResult>> {
    match rev_parse_spec(rest, dir, "HEAD"@) {
        Progress::Waiting(q) => Progress::Waiting(q),
        Progress::Finished(Err(e), rest) => Progress::Finished(Err(e), rest),
        Progress::Finished(Ok(after), rest) => if before == after {
            Progress::Finished(Ok(FastForwardResult::Merged(MergeReport::UpToDate)), rest)
        } else {
            match run_in_spec(
                rest,
                dir,
                args3("rev-list"@, "--count"@, before + ".."@ + after),
            ) {
                Progress::Waiting(q) => Progress::Waiting(q),
                Progress::Finished(Err(e), rest) => Progress::Finished(Err(e), rest),
                Progress::Finished(Ok(output), rest) => Progress::Finished(counted(output), rest),
            }
        },
    }
}

/// Fast-forwards `branch` to its counterpart on `remote`: nothing to do
/// without a counterpart, and nothing done where the histories diverged.
pub open spec fn fast_forward_merge_spec(
    rest: Seq<Answer>,
    dir: Option<Seq<char>>,
    branch: Seq<char>,
    remote: Seq<char>,
) -> Progress<Meant<FastForwardResult>> {
    let remote_ref = remote + "/"@ + branch;
    match git_asked(rest, dir, args3("rev-parse"@, "--verify"@, remote_ref)) {
        Progress::Waiting(q) => Progress::Waiting(q),
        Progress::Finished(Err(e), rest) => Progress::Finished(Err(Error::Io(e)), rest),
        Progress::Finished(Ok(found), rest) => if !found.succeeded() {
            Progress::Finished(Ok(FastForwardResult::Merged(MergeReport::NoRemote)), rest)
        } else {
            match rev_parse_spec(rest, dir, "HEAD"@) {
                Progress::Waiting(q) => Progress::Waiting(q),
                Progress::Finished(Err(e), rest) => Progress::Finished(Err(e), rest),
                Progress::Finished(Ok(before), rest) => match git_asked(
                    rest,
                    dir,
                    args6(
                        "-c"@,
                        "advice.diverging=false"@,
                        "merge"@,
                        "--ff-only"@,
                        remote_ref,
                        "--quiet"@,
                    ),
                ) {
                    Progress::Waiting(q) => Progress::Waiting(q),
                    Progress::Finished(Err(e), rest) => Progress::Finished(Err(Error::Io(e)), rest),
                    Progress::Finished(Ok(merged), rest) => if !merged.succeeded() {
                        Progress::Finished(Ok(FastForwardResult::Diverged), rest)
                    } else {
                        pulled_spec(rest, dir, before)
                    },
                },
            }
        },
    }
}

pub fn fast_forward_merge(talk: &mut Talk, dir: Option<&str>, branch: &str, remote: &str) -> (r:
    Option<AppResult<FastForwardResult>>)
    ensures
        heard(r, *final(talk)) == fast_forward_merge_spec(
            old(talk).rest(),
            borrowed(dir),
            branch@,
            remote@,
        ),
{
    let remote_ref: String = text::joined3(remote, "/", branch);
    let found: Output = match ask_git(talk, dir, words3("rev-parse", "--verify", &remote_ref))? {
        Ok(output) => output,
        Err(e) => return Some(Err(Error::Io(e))),
    };
    if !found.success() {
        return Some(Ok(FastForwardResult::Merged(MergeReport::NoRemote)));
    }
    let before: String = match rev_parse(talk, dir, "HEAD")? {
        Ok(tip) => tip,
        Err(e) => return Some(Err(e)),
    };
    let merged: Output = match ask_git(
        talk,
        dir,
        words6("-c", "advice.diverging=false", "merge", "--ff-only", &remote_ref, "--quiet"),
    )? {
        Ok(output) => output,
        Err(e) => return Some(Err(Error::Io(e))),
    };
    if !merged.success() {
        return Some(Ok(FastForwardResult::Diverged));
    }
    let after: String = match rev_parse(talk, dir, "HEAD")? {
        Ok(tip) => tip,
        Err(e) => return Some(Err(e)),
    };
    if text::same(&before, &after) {
        return Some(Ok(FastForwardResult::Merged(MergeReport::UpToDate)));
    }
    let range: String = text::joined3(&before, "..", &after);
    let output: String = match run_in(talk, dir, words3("rev-list", "--count", &range))? {
        Ok(output) => output,
        Err(e) => return Some(Err(e)),
    };
    match text::number_of(&text::trimmed(&output)) {
        Ok(n) => Some(Ok(FastForwardResult::Merged(MergeReport::Pulled(n)))),
        Err(e) => Some(Err(Error::ParseInt(e))),
    }
}

pub open spec fn remote_branch_exists_spec(
    rest: Seq<Answer>,
    remote: Seq<char>,
    branch: Seq<char>,
) -> Progress<bool> {
    match git_asked(rest, None, args3("rev-parse"@, "--verify"@, remote + "/"@ + branch)) {
        Progress::Waiting(q) => Progress::Waiting(q),
        Progress::Finished(ran, rest) => Progress::Finished(
            ran matches Ok(output) && output.succeeded(),
            rest,
        ),
    }
}

/// True if `<remote>/<branch>` exists as a remote-tracking ref.
pub fn remote_branch_exists(talk: &mut Talk, remote: &str, branch: &str) -> (r: Option<bool>)
    ensures
        heard(r, *final(talk)) == remote_branch_exists_spec(old(talk).rest(), remote@, branch@),
{
    let remote_ref: String = text::joined3(remote, "/", branch);
    match ask_git(talk, None, words3("rev-parse", "--verify", &remote_ref))? {
        Ok(output) => Some(output.success()),
        Err(_) => Some(false),
    }
}

/// The count at `i` of a row of words, where a missing one is zero.
pub open spec fn count_at(words: Words, i: int) -> Result<u32, text::ParseIntError> {
    text::parse_u32(
        if i < words.len() {
            words[i]
        } else {
            "0"@
        },
    )
}

/// What git counted on either side: on the left the commits that only the
/// remote has, on the right those that only HEAD has.
pub open spec fn left_right(output: Seq<char>) -> Meant<(u32, u32)> {
    let counts = text::split_white(output);
    match count_at(counts, 0) {
        Err(e) => Err(Error::ParseInt(e)),
        Ok(behind) => match count_at(counts, 1) {
            Err(e) => Err(Error::ParseInt(e)),
            Ok(ahead) => Ok((ahead, behind)),
        },
    }
}

fn read_count(words: &[String], i: usize) -> (r: Result<u32, text::ParseIntError>)
    ensures
        r == count_at(models(words@), i as int),
{
    if i < words.len() {
        text::number_of(&words[i])
    } else {
        text::number_of("0")
    }
}

pub fn read_left_right(output: &str) -> (r: AppResult<(u32, u32)>)
    ensures
        r.model() == left_right(output@),
{
    let counts: Vec<String> = text::words_of(output);
    match read_count(&counts, 0) {
        Err(e) => Err(Error::ParseInt(e)),
        Ok(behind) => match read_count(&counts, 1) {
            Err(e) => Err(Error::ParseInt(e)),
            Ok(ahead) => Ok((ahead, behind)),
        },
    }
}

/// How many commits HEAD has that the remote branch has not, and the other
/// way round.
pub open spec fn ahead_behind_remote_spec(
    rest: Seq<Answer>,
    remote: Seq<char>,
    branch: Seq<char>,
) -> Progress<Meant<(u32, u32)>> {
    match run_in_spec(
        rest,
        None,
        args4("rev-list"@, "--left-right"@, "--count"@, remote + "/"@ + branch + "...HEAD"@),
    ) {
        Progress::Waiting(q) => Progress::Waiting(q),
        Progress::Finished(Err(e), rest) => Progress::Finished(Err(e), rest),
        Progress::Finished(Ok(output), rest) => Progress::Finished(left_right(output), rest),
    }
}

pub fn ahead_behind_remote(talk: &mut Talk, remote: &str, branch: &str) -> (r: Option<
    AppResult<(u32, u32)>,
>)
    ensures
        heard(r, *final(talk)) == ahead_behind_remote_spec(old(talk).rest(), remote@, branch@),
{
    let mut range: String = text::joined3(remote, "/", branch);
    range.append("...HEAD");
    match run(talk, words4("rev-list", "--left-right", "--count", &range))? {
        Err(e) => Some(Err(e)),
        Ok(output) => Some(read_left_right(&output)),
    }
}

// ---------------------------------------------------------------------------
// Configuration
// ---------------------------------------------------------------------------

/// The shell command configured for an event, unless it is blank.
pub open spec fn hook_command_spec(rest: Seq<Answer>, event: Seq<char>) -> Progress<
    Option<Seq<char>>,
> {
    match run_in_spec(rest, None, args3("config"@, "--get"@, "perch.hook."@ + event)) {
        Progress::Waiting(q) => Progress::Waiting(q),
        Progress::Finished(Err(_), rest) => Progress::Finished(None, rest),
        Progress::Finished(Ok(output), rest) => Progress::Finished(
            or_none(text::trim(output)),
            rest,
        ),
    }
}

pub fn hook_command(talk: &mut Talk, event: &str) -> (r: Option<Option<String>>)
    ensures
        heard(r, *final(talk)) == hook_command_spec(old(talk).rest(), event@),
{
    let key: String = text::joined("perch.hook.", event);
    match run(talk, words3("config", "--get", &key))? {
        Err(_) => Some(None),
        Ok(output) => {
            let command: String = text::trimmed(&output);
            if command.as_str().is_empty() {
                Some(None)
            } else {
                Some(Some(command))
            }
        },
    }
}

/// The branch that the remote's HEAD names.
pub open spec fn default_branch_spec(rest: Seq<Answer>, remote: Seq<char>) -> Progress<
    Option<Seq<char>>,
> {
    match run_in_spec(rest, None, args2("symbolic-ref"@, "refs/remotes/"@ + remote + "/HEAD"@)) {
        Progress::Waiting(q) => Progress::Waiting(q),
        Progress::Finished(Err(_), rest) => Progress::Finished(None, rest),
        Progress::Finished(Ok(output), rest) => Progress::Finished(
            text::strip_prefix(text::trim(output), "refs/remotes/"@ + remote + "/"@),
            rest,
        ),
    }
}

pub fn default_branch(talk: &mut Talk, remote: &str) -> (r: Option<Option<String>>)
    ensures
        heard(r, *final(talk)) == default_branch_spec(old(talk).rest(), remote@),
{
    let head_ref: String = text::joined3("refs/remotes/", remote, "/HEAD");
    let prefix: String = text::joined3("refs/remotes/", remote, "/");
    match run(talk, words2("symbolic-ref", &head_ref))? {
        Err(_) => Some(None),
        Ok(output) => Some(text::stripped(&text::trimmed(&output), &prefix)),
    }
}

} // verus!
