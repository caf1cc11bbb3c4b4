//! Deleting local branches.
use vstd::prelude::*;
use vstd::string::*;

use crate::ask::{args3, args4, args5, ask_git, git, git_asked, words4, words5, Ran};
use crate::error::{AppResult, Error, IoError, Meant};
use crate::grammar::Words;
use crate::model::{borrowed, models, Modelled};
use crate::rows::{self, keep_map};
use crate::talk::{heard, Answer, Asked, Output, Progress, Talk};
use crate::text;

use super::upstream::head_ref;
use super::worktrees::{holding, holds_branch, worktree_list_in, worktree_list_in_spec, Tree};
use super::{resolve, resolve_spec, run_in, run_in_spec, Worktree};

verus! {

/// Whether a worktree was seen holding a branch, or only failed to be ruled
/// out.
#[derive(Clone, Copy, Debug, PartialEq, Eq, Structural)]
pub enum Holder {
    Seen,
    Unknown,
}

/// What became of a branch. All of the `Deleted` cases mean that the branch
/// went; they differ in what happened after that.
#[derive(Debug, PartialEq, Eq)]
pub enum BranchDeleteOutcome<S = String> {
    Deleted,
    /// Whether its configuration went with it could not be established.
    DeletedConfigUnverified(S),
    /// Configuration of its own outlived it: these keys.
    DeletedLeavingConfig(S),
    /// Deleted at `tip`, and confirmed gone after putting it back failed.
    DeletedNotRestored { tip: S, detail: S, holder: Holder },
    /// Deleted at `tip`; putting it back failed, and so did reading it.
    DeletedStateUnknown { tip: S, detail: S, holder: Holder },
    /// Deleted at `tip`, and standing again at `now` by another hand.
    DeletedThenRecreated { tip: S, now: S },
    /// Kept because it has commits not merged into its upstream or HEAD.
    NotMerged,
    Failed(S),
}

impl Modelled for BranchDeleteOutcome {
    type Model = BranchDeleteOutcome<Seq<char>>;

    open spec fn model(&self) -> BranchDeleteOutcome<Seq<char>> {
        match self {
            BranchDeleteOutcome::Deleted => BranchDeleteOutcome::Deleted,
            BranchDeleteOutcome::DeletedConfigUnverified(why) =>
                BranchDeleteOutcome::DeletedConfigUnverified(why@),
            BranchDeleteOutcome::DeletedLeavingConfig(keys) =>
                BranchDeleteOutcome::DeletedLeavingConfig(keys@),
            BranchDeleteOutcome::DeletedNotRestored { tip, detail, holder } =>
                BranchDeleteOutcome::DeletedNotRestored {
                tip: tip@,
                detail: detail@,
                holder: *holder,
            },
            BranchDeleteOutcome::DeletedStateUnknown { tip, detail, holder } =>
                BranchDeleteOutcome::DeletedStateUnknown {
                tip: tip@,
                detail: detail@,
                holder: *holder,
            },
            BranchDeleteOutcome::DeletedThenRecreated { tip, now } =>
                BranchDeleteOutcome::DeletedThenRecreated { tip: tip@, now: now@ },
            BranchDeleteOutcome::NotMerged => BranchDeleteOutcome::NotMerged,
            BranchDeleteOutcome::Failed(why) => BranchDeleteOutcome::Failed(why@),
        }
    }
}

/// What looking a ref up established. That the question went unanswered is
/// not that the ref is missing.
#[derive(Debug, PartialEq, Eq)]
pub enum RefState<S = String> {
    At(S),
    Missing,
    Unreadable(S),
}

impl Modelled for RefState {
    type Model = RefState<Seq<char>>;

    open spec fn model(&self) -> RefState<Seq<char>> {
        match self {
            RefState::At(oid) => RefState::At(oid@),
            RefState::Missing => RefState::Missing,
            RefState::Unreadable(why) => RefState::Unreadable(why@),
        }
    }
}

// ---------------------------------------------------------------------------
// Looking a ref up
// ---------------------------------------------------------------------------

/// A number with its sign.
pub open spec fn signed(n: int) -> Seq<char> {
    if n < 0 {
        "-"@ + text::decimal((-n) as nat)
    } else {
        text::decimal(n as nat)
    }
}

/// An exit code as it is shown.
pub open spec fn exit_shown(code: Option<i32>) -> Seq<char> {
    match code {
        Some(code) => "Some("@ + signed(code as int) + ")"@,
        None => "None"@,
    }
}

fn show_exit(code: Option<i32>) -> (r: String)
    ensures
        r@ == exit_shown(code),
{
    match code {
        None => "None".to_owned(),
        Some(code) => {
            let wide: i64 = code as i64;
            let number: String = if wide < 0 {
                text::joined("-", &text::decimal_of((-wide) as u128))
            } else {
                text::decimal_of(wide as u128)
            };
            text::joined3("Some(", &number, ")")
        },
    }
}

pub open spec fn unreadable(output: Output<Seq<char>>) -> RefState<Seq<char>> {
    RefState::Unreadable(
        if text::trim(output.stderr).len() == 0 {
            "git rev-parse exited "@ + exit_shown(output.code)
        } else {
            text::trim(output.stderr)
        },
    )
}

/// What git's reply to a quiet lookup says. It exits with 1 both for a ref
/// that is not there and for one that is broken, and only of the second does
/// it say anything: silence is what tells them apart, and its wording is never
/// read.
pub open spec fn looked_up(ran: Ran) -> RefState<Seq<char>> {
    match ran {
        Err(_) => RefState::Unreadable("git could not be run"@),
        Ok(output) => if output.code == Some(0i32) {
            if text::trim(output.stdout).len() == 0 {
                unreadable(output)
            } else {
                RefState::At(text::trim(output.stdout))
            }
        } else if output.code == Some(1i32) && text::trim(output.stderr).len() == 0 {
            RefState::Missing
        } else {
            unreadable(output)
        },
    }
}

pub open spec fn ref_state_spec(
    rest: Seq<Answer>,
    dir: Option<Seq<char>>,
    refname: Seq<char>,
) -> Progress<RefState<Seq<char>>> {
    match git_asked(rest, dir, args4("rev-parse"@, "--verify"@, "--quiet"@, refname)) {
        Progress::Waiting(q) => Progress::Waiting(q),
        Progress::Finished(ran, rest) => Progress::Finished(looked_up(ran), rest),
    }
}

/// What a quiet lookup established.
pub fn read_lookup(ran: Result<Output, IoError>) -> (r: RefState)
    ensures
        r.model() == looked_up(ran.model()),
{
    let output: Output = match ran {
        Ok(output) => output,
        Err(_) => return RefState::Unreadable("git could not be run".to_owned()),
    };
    let stderr: String = text::trimmed(&output.stderr);
    match output.code {
        Some(0) => {
            let oid: String = text::trimmed(&output.stdout);
            if !oid.as_str().is_empty() {
                return RefState::At(oid);
            }
        },
        Some(1) => {
            if stderr.as_str().is_empty() {
                return RefState::Missing;
            }
        },
        _ => {},
    }
    if stderr.as_str().is_empty() {
        RefState::Unreadable(text::joined("git rev-parse exited ", &show_exit(output.code)))
    } else {
        RefState::Unreadable(stderr)
    }
}

/// Where a ref points, that it is missing, or that it could not be told.
pub fn ref_state(talk: &mut Talk, dir: Option<&str>, refname: &str) -> (r: Option<RefState>)
    ensures
        heard(r, *final(talk)) == ref_state_spec(old(talk).rest(), borrowed(dir), refname@),
{
    let ran: Result<Output, IoError> = ask_git(
        talk,
        dir,
        words4("rev-parse", "--verify", "--quiet", refname),
    )?;
    Some(read_lookup(ran))
}

// ---------------------------------------------------------------------------
// The configuration a branch leaves behind
// ---------------------------------------------------------------------------

/// The branch that a configuration key belongs to: what stands between
/// `branch.` and the last dot, dots and all.
pub open spec fn key_branch(key: Seq<char>) -> Option<Seq<char>> {
    match text::strip_prefix(key, "branch."@) {
        None => None,
        Some(rest) => match text::rsplit_once(rest, '.') {
            Some((branch, _)) => if branch.len() > 0 {
                Some(branch)
            } else {
                None
            },
            None => None,
        },
    }
}

/// A key belongs to the branch between its outer dots, whatever dots the
/// branch itself has, and to no other branch.
pub proof fn key_belongs_between_the_outer_dots(branch: Seq<char>, setting: Seq<char>)
    requires
        branch.len() > 0,
        !setting.contains('.'),
    ensures
        key_branch("branch."@ + branch + "."@ + setting) == Some(branch),
{
    reveal_strlit("branch.");
    reveal_strlit(".");
    let key = "branch."@ + branch + "."@ + setting;
    let rest = branch + "."@ + setting;
    assert(key.take("branch."@.len() as int) =~= "branch."@);
    assert(key.skip("branch."@.len() as int) =~= rest);
    let back = rest.reverse();
    let p = text::holds(back, '.');
    let n = setting.len() as int;
    assert(back[n] == '.');
    assert(p(n));
    assert forall|j: int| 0 <= j < n implies !#[trigger] p(j) by {
        assert(back[j] == setting[n - 1 - j]);
        assert(setting.contains(setting[n - 1 - j]));
    }
    text::lemma_least_is(0, back.len() as int, p, n);
    assert(rest.take(rest.len() - 1 - n) =~= branch);
}

/// Which branch a `branch.<name>.<key>` entry belongs to.
pub fn config_branch(key: &str) -> (r: Option<String>)
    ensures
        r.model() == key_branch(key@),
{
    match text::stripped(key, "branch.") {
        None => None,
        Some(rest) => match text::parted_last(&rest, '.') {
            Some((branch, _setting)) => {
                if branch.as_str().is_empty() {
                    None
                } else {
                    Some(branch)
                }
            },
            None => None,
        },
    }
}

pub open spec fn key_of(branch: Seq<char>) -> spec_fn(Seq<char>) -> Option<Seq<char>> {
    |key: Seq<char>|
        if key_branch(key) == Some(branch) {
            Some(key)
        } else {
            None
        }
}

/// The keys of a branch in a listing of keys.
pub open spec fn keys_of(listing: Seq<char>, branch: Seq<char>) -> Words {
    keep_map(text::split(listing, '\0'), key_of(branch))
}

/// A row without the items that repeat the one before them.
pub open spec fn unrepeated(s: Words) -> Words
    decreases s.len(),
{
    if s.len() == 0 {
        s
    } else {
        let before = unrepeated(s.drop_last());
        if before.len() > 0 && before.last() == s.last() {
            before
        } else {
            before.push(s.last())
        }
    }
}

fn read_keys(listing: &str, branch: &str) -> (r: Vec<String>)
    ensures
        models(r@) == keys_of(listing@, branch@),
{
    let keys: Vec<String> = text::split_at_each(listing, '\0');
    let ghost all = text::split(listing@, '\0');
    let ghost f = key_of(branch@);
    let mut r: Vec<String> = Vec::new();
    let mut i: usize = 0;
    proof {
        rows::lemma_take_all(all);
        assert(models(r@) =~= Seq::empty());
    }
    while i < keys.len()
        invariant
            i <= keys@.len(),
            all == models(keys@),
            f == key_of(branch@),
            models(r@) == keep_map(all.take(i as int), f),
        decreases keys@.len() - i,
    {
        broadcast use crate::model::lemma_models_push;

        proof {
            rows::lemma_take_one_more(all, i as int);
        }
        match config_branch(&keys[i]) {
            Some(owner) => {
                if text::same(&owner, branch) {
                    r.push(keys[i].clone());
                }
            },
            None => {},
        }
        i += 1;
    }
    r
}

fn without_repeats(keys: &[String]) -> (r: Vec<String>)
    ensures
        models(r@) == unrepeated(models(keys@)),
{
    let ghost all = models(keys@);
    let mut r: Vec<String> = Vec::new();
    let mut i: usize = 0;
    proof {
        rows::lemma_take_all(all);
        assert(models(r@) =~= Seq::empty());
    }
    while i < keys.len()
        invariant
            i <= keys@.len(),
            all == models(keys@),
            models(r@) == unrepeated(all.take(i as int)),
        decreases keys@.len() - i,
    {
        broadcast use crate::model::lemma_models_push;

        proof {
            rows::lemma_take_one_more(all, i as int);
        }
        if r.len() > 0 && text::same(&r[r.len() - 1], &keys[i]) {
        } else {
            r.push(keys[i].clone());
        }
        i += 1;
    }
    r
}

pub open spec fn local_config_keys_spec(rest: Seq<Answer>, dir: Option<Seq<char>>) -> Progress<
    Meant<Seq<char>>,
> {
    run_in_spec(rest, dir, args5("config"@, "--local"@, "--list"@, "--name-only"@, "-z"@))
}

pub fn local_config_keys(talk: &mut Talk, dir: Option<&str>) -> (r: Option<AppResult<String>>)
    ensures
        heard(r, *final(talk)) == local_config_keys_spec(old(talk).rest(), borrowed(dir)),
{
    run_in(talk, dir, words5("config", "--local", "--list", "--name-only", "-z"))
}

/// Unsets each key by its exact name, whatever comes of it.
pub open spec fn unset_each(rest: Seq<Answer>, dir: Option<Seq<char>>, keys: Words) -> Progress<()>
    decreases keys.len(),
{
    if keys.len() == 0 {
        Progress::Finished((), rest)
    } else {
        match run_in_spec(rest, dir, args4("config"@, "--local"@, "--unset-all"@, keys[0])) {
            Progress::Waiting(q) => Progress::Waiting(q),
            Progress::Finished(_, rest) => unset_each(rest, dir, keys.drop_first()),
        }
    }
}

/// What the second reading of the keys shows.
pub open spec fn config_left_spec(rest: Seq<Answer>, dir: Option<Seq<char>>, branch: Seq<char>) -> Progress<
    BranchDeleteOutcome<Seq<char>>,
> {
    match local_config_keys_spec(rest, dir) {
        Progress::Waiting(q) => Progress::Waiting(q),
        Progress::Finished(Err(e), rest) => Progress::Finished(
            BranchDeleteOutcome::DeletedConfigUnverified(e.message()),
            rest,
        ),
        Progress::Finished(Ok(listing), rest) => {
            let left = keys_of(listing, branch);
            if left.len() == 0 {
                Progress::Finished(BranchDeleteOutcome::Deleted, rest)
            } else {
                Progress::Finished(
                    BranchDeleteOutcome::DeletedLeavingConfig(text::join(left, ", "@)),
                    rest,
                )
            }
        },
    }
}

/// Clears the configuration that a deleted branch leaves, and reads back what
/// survived: exit codes do not tell, since a key with several values is listed
/// several times and unset once.
pub open spec fn clear_branch_config_spec(
    rest: Seq<Answer>,
    dir: Option<Seq<char>>,
    branch: Seq<char>,
) -> Progress<BranchDeleteOutcome<Seq<char>>> {
    match local_config_keys_spec(rest, dir) {
        Progress::Waiting(q) => Progress::Waiting(q),
        Progress::Finished(Err(e), rest) => Progress::Finished(
            BranchDeleteOutcome::DeletedConfigUnverified(e.message()),
            rest,
        ),
        Progress::Finished(Ok(listing), rest) => match unset_each(
            rest,
            dir,
            unrepeated(keys_of(listing, branch)),
        ) {
            Progress::Waiting(q) => Progress::Waiting(q),
            Progress::Finished(_, rest) => config_left_spec(rest, dir, branch),
        },
    }
}

fn unset_keys(talk: &mut Talk, dir: Option<&str>, keys: &[String]) -> (r: Option<()>)
    ensures
        heard(r, *final(talk)) == unset_each(old(talk).rest(), borrowed(dir), models(keys@)),
{
    let ghost all = models(keys@);
    let mut i: usize = 0;
    proof {
        rows::lemma_take_all(all);
    }
    while i < keys.len()
        invariant
            i <= keys@.len(),
            all == models(keys@),
            unset_each(old(talk).rest(), borrowed(dir), all) == unset_each(
                talk.rest(),
                borrowed(dir),
                all.skip(i as int),
            ),
        decreases keys@.len() - i,
    {
        proof {
            rows::lemma_take_one_more(all, i as int);
        }
        let _unset: AppResult<String> = run_in(
            talk,
            dir,
            words4("config", "--local", "--unset-all", &keys[i]),
        )?;
        i += 1;
    }
    Some(())
}

pub fn clear_branch_config(talk: &mut Talk, dir: Option<&str>, branch: &str) -> (r: Option<
    BranchDeleteOutcome,
>)
    ensures
        heard(r, *final(talk)) == clear_branch_config_spec(
            old(talk).rest(),
            borrowed(dir),
            branch@,
        ),
{
    let listing: String = match local_config_keys(talk, dir)? {
        Ok(listing) => listing,
        Err(e) => return Some(BranchDeleteOutcome::DeletedConfigUnverified(e.to_string())),
    };
    let to_clear: Vec<String> = without_repeats(&read_keys(&listing, branch));
    unset_keys(talk, dir, &to_clear)?;
    let listing: String = match local_config_keys(talk, dir)? {
        Ok(listing) => listing,
        Err(e) => return Some(BranchDeleteOutcome::DeletedConfigUnverified(e.to_string())),
    };
    let left: Vec<String> = read_keys(&listing, branch);
    if left.len() == 0 {
        return Some(BranchDeleteOutcome::Deleted);
    }
    Some(BranchDeleteOutcome::DeletedLeavingConfig(text::glued(&left, ", ")))
}

// ---------------------------------------------------------------------------
// The deletion that a proof permits
// ---------------------------------------------------------------------------

/// Whether any worktree has `branch` checked out.
pub open spec fn is_held(trees: Seq<Tree>, branch: Seq<char>) -> bool {
    exists|i: int| 0 <= i < trees.len() && (#[trigger] trees[i]).branch == Some(branch)
}

pub open spec fn held_by_worktree_spec(
    rest: Seq<Answer>,
    dir: Option<Seq<char>>,
    branch: Seq<char>,
) -> Progress<Meant<bool>> {
    match worktree_list_in_spec(rest, dir) {
        Progress::Waiting(q) => Progress::Waiting(q),
        Progress::Finished(Err(e), rest) => Progress::Finished(Err(e), rest),
        Progress::Finished(Ok(trees), rest) => Progress::Finished(Ok(is_held(trees, branch)), rest),
    }
}

/// Whether any of the worktrees has `branch` checked out.
pub fn any_holds(trees: &[Worktree], branch: &str) -> (r: bool)
    ensures
        r == is_held(models(trees@), branch@),
{
    let ghost all = models(trees@);
    let mut i: usize = 0;
    while i < trees.len()
        invariant
            i <= trees@.len(),
            all == models(trees@),
            forall|j: int| 0 <= j < i ==> (#[trigger] all[j]).branch != Some(branch@),
        decreases trees@.len() - i,
    {
        if holds_branch(&trees[i], branch) {
            assert(all[i as int].branch == Some(branch@));
            return true;
        }
        i += 1;
    }
    false
}

/// Whether any worktree has `branch` checked out. A failure to ask travels: it
/// must not read as nobody holding it.
pub fn held_by_worktree(talk: &mut Talk, dir: Option<&str>, branch: &str) -> (r: Option<
    AppResult<bool>,
>)
    ensures
        heard(r, *final(talk)) == held_by_worktree_spec(old(talk).rest(), borrowed(dir), branch@),
{
    match worktree_list_in(talk, dir)? {
        Err(e) => Some(Err(e)),
        Ok(trees) => Some(Ok(any_holds(&trees, branch))),
    }
}

pub open spec fn held_refusal(branch: Seq<char>) -> BranchDeleteOutcome<Seq<char>> {
    BranchDeleteOutcome::Failed(
        "cannot delete branch '"@ + branch + "': it is checked out in a worktree"@,
    )
}

pub fn refused_as_held(branch: &str) -> (r: BranchDeleteOutcome)
    ensures
        r.model() == held_refusal(branch@),
{
    BranchDeleteOutcome::Failed(
        text::joined3(
            "cannot delete branch '",
            branch,
            "': it is checked out in a worktree",
        ),
    )
}

/// The one command that deletes: it compares the tip and deletes in a single
/// operation.
pub open spec fn pinned_delete(branch: Seq<char>, expected: Seq<char>) -> Words {
    args4("update-ref"@, "-d"@, head_ref(branch), expected)
}

/// The command that puts a branch back, only where it does not exist.
pub open spec fn put_back(branch: Seq<char>, expected: Seq<char>) -> Words {
    args4("update-ref"@, head_ref(branch), expected, ""@)
}

/// After a delete that could not be put back: what stands there now.
pub open spec fn not_put_back_spec(
    rest: Seq<Answer>,
    dir: Option<Seq<char>>,
    branch: Seq<char>,
    expected: Seq<char>,
    why: Error<Seq<char>>,
    holder: Holder,
) -> Progress<BranchDeleteOutcome<Seq<char>>> {
    match ref_state_spec(rest, dir, head_ref(branch)) {
        Progress::Waiting(q) => Progress::Waiting(q),
        Progress::Finished(RefState::At(now), rest) => Progress::Finished(
            BranchDeleteOutcome::DeletedThenRecreated { tip: expected, now },
            rest,
        ),
        Progress::Finished(RefState::Missing, rest) => Progress::Finished(
            BranchDeleteOutcome::DeletedNotRestored {
                tip: expected,
                detail: why.message(),
                holder,
            },
            rest,
        ),
        Progress::Finished(RefState::Unreadable(unread), rest) => Progress::Finished(
            BranchDeleteOutcome::DeletedStateUnknown {
                tip: expected,
                detail: why.message() + "; and reading it back failed too: "@ + unread,
                holder,
            },
            rest,
        ),
    }
}

/// After the delete: a branch that no worktree holds is done with but for its
/// configuration. One that is held, or of which that cannot be told, is put
/// back where it was.
pub open spec fn deleted_spec(
    rest: Seq<Answer>,
    dir: Option<Seq<char>>,
    branch: Seq<char>,
    expected: Seq<char>,
) -> Progress<BranchDeleteOutcome<Seq<char>>> {
    match held_by_worktree_spec(rest, dir, branch) {
        Progress::Waiting(q) => Progress::Waiting(q),
        Progress::Finished(Ok(false), rest) => clear_branch_config_spec(rest, dir, branch),
        Progress::Finished(held, rest) => {
            let holder = match held {
                Ok(_) => Holder::Seen,
                Err(_) => Holder::Unknown,
            };
            match run_in_spec(rest, dir, put_back(branch, expected)) {
                Progress::Waiting(q) => Progress::Waiting(q),
                Progress::Finished(Ok(_), rest) => Progress::Finished(
                    match held {
                        Ok(_) => held_refusal(branch),
                        Err(e) => BranchDeleteOutcome::Failed(
                            "couldn't tell whether a worktree holds it: "@ + e.message(),
                        ),
                    },
                    rest,
                ),
                Progress::Finished(Err(e), rest) => not_put_back_spec(
                    rest,
                    dir,
                    branch,
                    expected,
                    e,
                    holder,
                ),
            }
        },
    }
}

/// Deletes a branch only while it points at `expected`; none where it had
/// moved, and nothing was deleted.
pub open spec fn delete_branch_at_spec(
    rest: Seq<Answer>,
    dir: Option<Seq<char>>,
    branch: Seq<char>,
    expected: Seq<char>,
) -> Progress<Meant<Option<BranchDeleteOutcome<Seq<char>>>>> {
    match held_by_worktree_spec(rest, dir, branch) {
        Progress::Waiting(q) => Progress::Waiting(q),
        Progress::Finished(Err(e), rest) => Progress::Finished(Err(e), rest),
        Progress::Finished(Ok(true), rest) => Progress::Finished(
            Ok(Some(held_refusal(branch))),
            rest,
        ),
        Progress::Finished(Ok(false), rest) => match git_asked(
            rest,
            dir,
            pinned_delete(branch, expected),
        ) {
            Progress::Waiting(q) => Progress::Waiting(q),
            Progress::Finished(Err(e), rest) => Progress::Finished(Err(Error::Io(e)), rest),
            Progress::Finished(Ok(output), rest) => if output.succeeded() {
                match deleted_spec(rest, dir, branch, expected) {
                    Progress::Waiting(q) => Progress::Waiting(q),
                    Progress::Finished(outcome, rest) => Progress::Finished(
                        Ok(Some(outcome)),
                        rest,
                    ),
                }
            } else {
                match resolve_spec(rest, dir, head_ref(branch)) {
                    Progress::Waiting(q) => Progress::Waiting(q),
                    Progress::Finished(tip, rest) => Progress::Finished(
                        Ok(
                            if tip == Some(expected) {
                                Some(BranchDeleteOutcome::Failed(text::trim(output.stderr)))
                            } else {
                                None
                            },
                        ),
                        rest,
                    ),
                }
            },
        },
    }
}

fn not_put_back(
    talk: &mut Talk,
    dir: Option<&str>,
    branch: &str,
    expected: &str,
    why: Error,
    holder: Holder,
) -> (r: Option<BranchDeleteOutcome>)
    ensures
        heard(r, *final(talk)) == not_put_back_spec(
            old(talk).rest(),
            borrowed(dir),
            branch@,
            expected@,
            why.model(),
            holder,
        ),
{
    let refname: String = text::joined("refs/heads/", branch);
    match ref_state(talk, dir, &refname)? {
        RefState::At(now) => Some(
            BranchDeleteOutcome::DeletedThenRecreated { tip: expected.to_owned(), now },
        ),
        RefState::Missing => Some(
            BranchDeleteOutcome::DeletedNotRestored {
                tip: expected.to_owned(),
                detail: why.to_string(),
                holder,
            },
        ),
        RefState::Unreadable(unread) => {
            let detail: String = text::joined3(
                &why.to_string(),
                "; and reading it back failed too: ",
                &unread,
            );
            Some(
                BranchDeleteOutcome::DeletedStateUnknown {
                    tip: expected.to_owned(),
                    detail,
                    holder,
                },
            )
        },
    }
}

/// Deletes `branch` only while it still points at `expected`, discarding the
/// commits it holds. This is the delete that a proof permits, and it is one
/// command because the proof covers one commit.
///
/// That command would delete a branch that a worktree has checked out, so who
/// holds it is asked before, and again after: a worktree that took the branch
/// in between finds it put back. Past the delete no failure travels, since it
/// would take with it the fact that the branch went.
pub fn delete_branch_at(talk: &mut Talk, dir: Option<&str>, branch: &str, expected: &str) -> (r:
    Option<AppResult<Option<BranchDeleteOutcome>>>)
    ensures
        heard(r, *final(talk)) == delete_branch_at_spec(
            old(talk).rest(),
            borrowed(dir),
            branch@,
            expected@,
        ),
{
    let refname: String = text::joined("refs/heads/", branch);
    match held_by_worktree(talk, dir, branch)? {
        Err(e) => return Some(Err(e)),
        Ok(held) => {
            if held {
                return Some(Ok(Some(refused_as_held(branch))));
            }
        },
    }
    let output: Output = match ask_git(
        talk,
        dir,
        words4("update-ref", "-d", &refname, expected),
    )? {
        Ok(output) => output,
        Err(e) => return Some(Err(Error::Io(e))),
    };
    if !output.success() {
        // Git words the mismatch in several ways, so the tip is read again.
        return match resolve(talk, dir, &refname)? {
            Some(tip) => {
                if text::same(&tip, expected) {
                    Some(Ok(Some(BranchDeleteOutcome::Failed(text::trimmed(&output.stderr)))))
                } else {
                    Some(Ok(None))
                }
            },
            None => Some(Ok(None)),
        };
    }
    let held: AppResult<bool> = held_by_worktree(talk, dir, branch)?;
    let holder: Holder = match &held {
        Ok(seen) => {
            if !*seen {
                let outcome: BranchDeleteOutcome = clear_branch_config(talk, dir, branch)?;
                return Some(Ok(Some(outcome)));
            }
            Holder::Seen
        },
        Err(_) => Holder::Unknown,
    };
    match run_in(talk, dir, words4("update-ref", &refname, expected, ""))? {
        Ok(_) => match held {
            Ok(_) => Some(Ok(Some(refused_as_held(branch)))),
            Err(e) => Some(
                Ok(
                    Some(
                        BranchDeleteOutcome::Failed(
                            text::joined(
                                "couldn't tell whether a worktree holds it: ",
                                &e.to_string(),
                            ),
                        ),
                    ),
                ),
            ),
        },
        Err(e) => {
            let outcome: BranchDeleteOutcome = not_put_back(
                talk,
                dir,
                branch,
                expected,
                e,
                holder,
            )?;
            Some(Ok(Some(outcome)))
        },
    }
}

// ---------------------------------------------------------------------------
// What holds of every deletion
// ---------------------------------------------------------------------------

proof fn lemma_unset_asks_of_keys(rest: Seq<Answer>, dir: Option<Seq<char>>, keys: Words)
    ensures
        unset_each(rest, dir, keys) matches Progress::Waiting(q) ==> exists|k: Seq<char>|
            keys.contains(k) && q == #[trigger] git(
                dir,
                args4("config"@, "--local"@, "--unset-all"@, k),
            ),
    decreases keys.len(),
{
    if keys.len() > 0 {
        assert(keys.contains(keys[0]));
        match run_in_spec(rest, dir, args4("config"@, "--local"@, "--unset-all"@, keys[0])) {
            Progress::Waiting(q) => {},
            Progress::Finished(_, after) => {
                lemma_unset_asks_of_keys(after, dir, keys.drop_first());
                assert forall|k: Seq<char>| keys.drop_first().contains(k) implies keys.contains(
                    k,
                ) by {
                    let i = choose|i: int|
                        0 <= i < keys.drop_first().len() && keys.drop_first()[i] == k;
                    assert(keys[i + 1] == k);
                }
            },
        }
    }
}

proof fn lemma_unrepeated_within(s: Words, k: Seq<char>)
    ensures
        unrepeated(s).contains(k) ==> s.contains(k),
    decreases s.len(),
{
    if s.len() > 0 {
        let rest = s.drop_last();
        let before = unrepeated(rest);
        lemma_unrepeated_within(rest, k);
        if unrepeated(s).contains(k) {
            let i = choose|i: int| 0 <= i < unrepeated(s).len() && unrepeated(s)[i] == k;
            if i < before.len() {
                assert(before[i] == k);
                assert(rest.contains(k));
                let j = choose|j: int| 0 <= j < rest.len() && rest[j] == k;
                assert(s[j] == k);
            } else {
                assert(s[s.len() - 1] == k);
            }
        }
    }
}

/// The requests that a pinned deletion may make: to read, to delete at the
/// expected tip, to put the branch back at that tip, and to unset keys that
/// belong to the branch itself.
pub open spec fn permitted(
    request: Asked,
    dir: Option<Seq<char>>,
    branch: Seq<char>,
    expected: Seq<char>,
) -> bool {
    ||| request == git(dir, args3("worktree"@, "list"@, "--porcelain"@))
    ||| request == git(dir, pinned_delete(branch, expected))
    ||| request == git(dir, crate::ask::args2("rev-parse"@, head_ref(branch)))
    ||| request == git(dir, args4("rev-parse"@, "--verify"@, "--quiet"@, head_ref(branch)))
    ||| request == git(dir, put_back(branch, expected))
    ||| request == git(dir, args5("config"@, "--local"@, "--list"@, "--name-only"@, "-z"@))
    ||| exists|k: Seq<char>|
        key_branch(k) == Some(branch) && request == #[trigger] git(
            dir,
            args4("config"@, "--local"@, "--unset-all"@, k),
        )
}

/// Whatever the replies, a deletion makes no other request: no branch is
/// deleted but at the expected tip, and no other branch's configuration is
/// touched.
pub proof fn deletion_asks_for_nothing_else(
    rest: Seq<Answer>,
    dir: Option<Seq<char>>,
    branch: Seq<char>,
    expected: Seq<char>,
)
    ensures
        delete_branch_at_spec(rest, dir, branch, expected) matches Progress::Waiting(q)
            ==> permitted(q, dir, branch, expected),
{
    assert forall|after: Seq<Answer>|
        clearing_permitted(
            #[trigger] clear_branch_config_spec(after, dir, branch),
            dir,
            branch,
            expected,
        ) by {
        lemma_clearing_permitted(after, dir, branch, expected);
    }
}

spec fn clearing_permitted(
    progress: Progress<BranchDeleteOutcome<Seq<char>>>,
    dir: Option<Seq<char>>,
    branch: Seq<char>,
    expected: Seq<char>,
) -> bool {
    progress matches Progress::Waiting(q) ==> permitted(q, dir, branch, expected)
}

proof fn lemma_clearing_permitted(
    rest: Seq<Answer>,
    dir: Option<Seq<char>>,
    branch: Seq<char>,
    expected: Seq<char>,
)
    ensures
        clearing_permitted(
            clear_branch_config_spec(rest, dir, branch),
            dir,
            branch,
            expected,
        ),
{
    match local_config_keys_spec(rest, dir) {
        Progress::Finished(Ok(listing), then) => {
            let keys = keys_of(listing, branch);
            lemma_unset_asks_of_keys(then, dir, unrepeated(keys));
            assert forall|k: Seq<char>| unrepeated(keys).contains(k) implies key_branch(k) == Some(
                branch,
            ) by {
                lemma_unrepeated_within(keys, k);
                rows::lemma_keep_map_from(text::split(listing, '\0'), key_of(branch), k);
            }
        },
        _ => {},
    }
}

/// What a reply to the listing of worktrees says of a branch.
pub open spec fn says_held(reply: Answer, branch: Seq<char>) -> Meant<bool> {
    match super::printed("worktree"@, crate::ask::ran(reply)) {
        Ok(output) => Ok(is_held(super::worktrees::listing(text::lines(output)), branch)),
        Err(e) => Err(e),
    }
}

/// A branch is reported deleted only if no worktree held it before the
/// command that deletes, that command succeeded, and none held it after.
pub proof fn deleted_only_if_never_held(
    rest: Seq<Answer>,
    dir: Option<Seq<char>>,
    branch: Seq<char>,
    expected: Seq<char>,
)
    ensures
        delete_branch_at_spec(rest, dir, branch, expected) matches Progress::Finished(
            Ok(Some(BranchDeleteOutcome::Deleted)),
            _,
        ) ==> {
            &&& rest.len() > 3
            &&& says_held(rest[0], branch) == Ok::<bool, Error<Seq<char>>>(false)
            &&& crate::ask::ran(rest[1]) matches Ok(output) && output.succeeded()
            &&& says_held(rest[2], branch) == Ok::<bool, Error<Seq<char>>>(false)
        },
{
    reveal_strlit("worktree");
    lemma_first_word(dir, branch);
}

/// A branch that a worktree took between the question and the delete, or of
/// which that cannot be told, is put back next.
pub proof fn taken_meanwhile_is_put_back(
    rest: Seq<Answer>,
    dir: Option<Seq<char>>,
    branch: Seq<char>,
    expected: Seq<char>,
)
    requires
        rest.len() == 3,
        says_held(rest[0], branch) == Ok::<bool, Error<Seq<char>>>(false),
        crate::ask::ran(rest[1]) matches Ok(output) && output.succeeded(),
        says_held(rest[2], branch) != Ok::<bool, Error<Seq<char>>>(false),
    ensures
        delete_branch_at_spec(rest, dir, branch, expected) == Progress::<
            Meant<Option<BranchDeleteOutcome<Seq<char>>>>,
        >::Waiting(git(dir, put_back(branch, expected))),
{
    lemma_first_word(dir, branch);
    assert(rest.drop_first().drop_first().drop_first().len() == 0);
}

proof fn lemma_first_word(dir: Option<Seq<char>>, branch: Seq<char>)
    ensures
        args3("worktree"@, "list"@, "--porcelain"@)[0] == "worktree"@,
        forall|rest: Seq<Answer>|
            #![trigger held_by_worktree_spec(rest, dir, branch)]
            held_by_worktree_spec(rest, dir, branch) == (if rest.len() == 0 {
                Progress::Waiting(git(dir, args3("worktree"@, "list"@, "--porcelain"@)))
            } else {
                Progress::Finished(says_held(rest[0], branch), rest.drop_first())
            }),
{
}

// ---------------------------------------------------------------------------
// Git's own deletions
// ---------------------------------------------------------------------------

pub open spec fn force_deleted(output: Output<Seq<char>>) -> BranchDeleteOutcome<Seq<char>> {
    if output.succeeded() {
        BranchDeleteOutcome::Deleted
    } else {
        BranchDeleteOutcome::Failed(text::trim(output.stderr))
    }
}

pub open spec fn force_delete_branch_spec(
    rest: Seq<Answer>,
    dir: Option<Seq<char>>,
    branch: Seq<char>,
) -> Progress<Meant<BranchDeleteOutcome<Seq<char>>>> {
    match git_asked(rest, dir, args4("branch"@, "-D"@, "--quiet"@, branch)) {
        Progress::Waiting(q) => Progress::Waiting(q),
        Progress::Finished(Err(e), rest) => Progress::Finished(Err(Error::Io(e)), rest),
        Progress::Finished(Ok(output), rest) => Progress::Finished(Ok(force_deleted(output)), rest),
    }
}

/// Deletes a branch whatever it holds. Only for branches whose risk was shown
/// to the user, or for an explicit force.
pub fn force_delete_branch(talk: &mut Talk, dir: Option<&str>, branch: &str) -> (r: Option<
    AppResult<BranchDeleteOutcome>,
>)
    ensures
        heard(r, *final(talk)) == force_delete_branch_spec(
            old(talk).rest(),
            borrowed(dir),
            branch@,
        ),
{
    match ask_git(talk, dir, words4("branch", "-D", "--quiet", branch))? {
        Err(e) => Some(Err(Error::Io(e))),
        Ok(output) => {
            if output.success() {
                Some(Ok(BranchDeleteOutcome::Deleted))
            } else {
                Some(Ok(BranchDeleteOutcome::Failed(text::trimmed(&output.stderr))))
            }
        },
    }
}

pub open spec fn deleted_if_merged(output: Output<Seq<char>>) -> BranchDeleteOutcome<Seq<char>> {
    if output.succeeded() {
        BranchDeleteOutcome::Deleted
    } else if text::contains(output.stderr, "not fully merged"@) {
        BranchDeleteOutcome::NotMerged
    } else {
        BranchDeleteOutcome::Failed(text::trim(output.stderr))
    }
}

pub open spec fn delete_branch_if_merged_spec(
    rest: Seq<Answer>,
    dir: Option<Seq<char>>,
    branch: Seq<char>,
) -> Progress<Meant<BranchDeleteOutcome<Seq<char>>>> {
    match git_asked(rest, dir, args4("branch"@, "-d"@, "--quiet"@, branch)) {
        Progress::Waiting(q) => Progress::Waiting(q),
        Progress::Finished(Err(e), rest) => Progress::Finished(Err(Error::Io(e)), rest),
        Progress::Finished(Ok(output), rest) => Progress::Finished(
            Ok(deleted_if_merged(output)),
            rest,
        ),
    }
}

/// Deletes a branch only if git considers it fully merged.
pub fn delete_branch_if_merged(talk: &mut Talk, dir: Option<&str>, branch: &str) -> (r: Option<
    AppResult<BranchDeleteOutcome>,
>)
    ensures
        heard(r, *final(talk)) == delete_branch_if_merged_spec(
            old(talk).rest(),
            borrowed(dir),
            branch@,
        ),
{
    match ask_git(talk, dir, words4("branch", "-d", "--quiet", branch))? {
        Err(e) => Some(Err(Error::Io(e))),
        Ok(output) => {
            if output.success() {
                Some(Ok(BranchDeleteOutcome::Deleted))
            } else if text::holds_part(&output.stderr, "not fully merged") {
                Some(Ok(BranchDeleteOutcome::NotMerged))
            } else {
                Some(Ok(BranchDeleteOutcome::Failed(text::trimmed(&output.stderr))))
            }
        },
    }
}

} // verus!
