//! The worktrees of a repository.
use vstd::prelude::*;
use vstd::string::*;

use crate::ask::{
    args2, args3, args4, args7, ask_flag, ask_git, flag_asked, git_asked, unanswered, words2,
    words3, words4, words7, Ran,
};
use crate::error::{AppResult, Error, IoError, Meant};
use crate::grammar::Words;
use crate::model::{borrowed, models, Modelled};
use crate::path;
use crate::rows::{self, first_of, keep_map, unique};
use crate::talk::{asked, heard, Answer, Asked, Output, Presence, Progress, RawOutput, Reply, Request, Talk};
use crate::text;

use super::{
    held_by_stale_worktree, is_among, is_stale_worktree_error, run_in, run_in_spec, worktree_prune,
    worktree_prune_spec, Worktree,
};

verus! {

/// What a worktree means.
pub type Tree = Worktree<Seq<char>>;

/// A record as one more of its lines describes it.
pub open spec fn described(tree: Tree, line: Seq<char>) -> Tree {
    match text::strip_prefix(line, "branch refs/heads/"@) {
        Some(branch) => Worktree { branch: Some(branch), ..tree },
        None => if line == "prunable"@ || text::starts_with(line, "prunable "@) {
            Worktree { prunable: true, ..tree }
        } else {
            tree
        },
    }
}

/// The records in a listing. A line that starts with `worktree ` begins one,
/// and the lines that follow describe it; the first record is the main
/// worktree's.
pub open spec fn listing(lines: Words) -> Seq<Tree>
    decreases lines.len(),
{
    if lines.len() == 0 {
        Seq::empty()
    } else {
        let before = listing(lines.drop_last());
        match text::strip_prefix(lines.last(), "worktree "@) {
            Some(path) => before.push(
                Worktree { path, branch: None, is_main: before.len() == 0, prunable: false },
            ),
            None => if before.len() == 0 {
                before
            } else {
                before.drop_last().push(described(before.last(), lines.last()))
            },
        }
    }
}

/// Reads git's own listing of worktrees.
pub fn read_listing(output: &str) -> (r: Vec<Worktree>)
    ensures
        models(r@) == listing(text::lines(output@)),
{
    let lines: Vec<String> = text::lines_of(output);
    let ghost all = text::lines(output@);
    let mut trees: Vec<Worktree> = Vec::new();
    let mut i: usize = 0;
    proof {
        rows::lemma_take_all(all);
        assert(models(trees@) =~= Seq::empty());
    }
    while i < lines.len()
        invariant
            i <= lines@.len(),
            all == models(lines@),
            models(trees@) == listing(all.take(i as int)),
        decreases lines@.len() - i,
    {
        broadcast use crate::model::lemma_models_push;

        proof {
            rows::lemma_take_one_more(all, i as int);
        }
        let ghost before = models(trees@);
        let line: &str = lines[i].as_str();
        match text::stripped(line, "worktree ") {
            Some(path) => {
                let is_main: bool = trees.len() == 0;
                trees.push(Worktree { path, branch: None, is_main, prunable: false });
            },
            None => match trees.pop() {
                None => {},
                Some(tree) => {
                    assert(models(trees@) =~= before.drop_last());
                    assert(tree.model() == before.last());
                    let mut tree: Worktree = tree;
                    match text::stripped(line, "branch refs/heads/") {
                        Some(branch) => {
                            tree.branch = Some(branch);
                        },
                        None => {
                            if text::same(line, "prunable") || text::begins(line, "prunable ") {
                                tree.prunable = true;
                            }
                        },
                    }
                    assert(tree.model() == described(before.last(), line@));
                    trees.push(tree);
                },
            },
        }
        i += 1;
    }
    trees
}

pub open spec fn worktree_list_in_spec(rest: Seq<Answer>, dir: Option<Seq<char>>) -> Progress<
    Meant<Seq<Tree>>,
> {
    match run_in_spec(rest, dir, args3("worktree"@, "list"@, "--porcelain"@)) {
        Progress::Waiting(q) => Progress::Waiting(q),
        Progress::Finished(Err(e), rest) => Progress::Finished(Err(e), rest),
        Progress::Finished(Ok(output), rest) => Progress::Finished(
            Ok(listing(text::lines(output))),
            rest,
        ),
    }
}

/// The worktrees of the repository, asked from `dir` rather than from the
/// current directory, which may have just been removed.
pub fn worktree_list_in(talk: &mut Talk, dir: Option<&str>) -> (r: Option<
    AppResult<Vec<Worktree>>,
>)
    ensures
        heard(r, *final(talk)) == worktree_list_in_spec(old(talk).rest(), borrowed(dir)),
{
    match run_in(talk, dir, words3("worktree", "list", "--porcelain"))? {
        Err(e) => Some(Err(e)),
        Ok(output) => Some(Ok(read_listing(&output))),
    }
}

/// The worktrees of the repository, the main one first.
pub fn worktree_list(talk: &mut Talk) -> (r: Option<AppResult<Vec<Worktree>>>)
    ensures
        heard(r, *final(talk)) == worktree_list_in_spec(old(talk).rest(), None),
{
    worktree_list_in(talk, None)
}

pub open spec fn branch_of() -> spec_fn(Tree) -> Option<Seq<char>> {
    |w: Tree| w.branch
}

/// The branches that some worktree has checked out, each once.
pub open spec fn held_branches(trees: Seq<Tree>) -> Words {
    unique(keep_map(trees, branch_of()))
}

pub open spec fn worktree_branches_spec(rest: Seq<Answer>) -> Progress<Meant<Words>> {
    match worktree_list_in_spec(rest, None) {
        Progress::Waiting(q) => Progress::Waiting(q),
        Progress::Finished(Err(e), rest) => Progress::Finished(Err(e), rest),
        Progress::Finished(Ok(trees), rest) => Progress::Finished(Ok(held_branches(trees)), rest),
    }
}

/// The branches of some worktrees, each once.
pub fn branches_held(trees: &[Worktree]) -> (r: Vec<String>)
    ensures
        models(r@) == held_branches(models(trees@)),
{
    let ghost all = models(trees@);
    let mut r: Vec<String> = Vec::new();
    let mut i: usize = 0;
    proof {
        rows::lemma_take_all(all);
        assert(models(r@) =~= Seq::empty());
        assert(keep_map(all.take(0), branch_of()) =~= Seq::empty());
    }
    while i < trees.len()
        invariant
            i <= trees@.len(),
            all == models(trees@),
            models(r@) == unique(keep_map(all.take(i as int), branch_of())),
        decreases trees@.len() - i,
    {
        broadcast use crate::model::lemma_models_push;

        let ghost kept = keep_map(all.take(i as int), branch_of());
        proof {
            rows::lemma_take_one_more(all, i as int);
        }
        match &trees[i].branch {
            Some(branch) => {
                assert(kept.push(branch@).drop_last() =~= kept);
                if !is_among(&r, branch) {
                    r.push(branch.clone());
                }
            },
            None => {},
        }
        i += 1;
    }
    r
}

/// Branches checked out in any worktree, the main one's among them. They
/// cannot be deleted.
pub fn worktree_branches(talk: &mut Talk) -> (r: Option<AppResult<Vec<String>>>)
    ensures
        heard(r, *final(talk)) == worktree_branches_spec(old(talk).rest()),
{
    match worktree_list(talk)? {
        Err(e) => Some(Err(e)),
        Ok(trees) => Some(Ok(branches_held(&trees))),
    }
}

/// A worktree that has `branch` checked out.
pub open spec fn holding(branch: Seq<char>) -> spec_fn(Tree) -> Option<Tree> {
    |w: Tree|
        if w.branch == Some(branch) {
            Some(w)
        } else {
            None
        }
}

/// Whether the branch of a worktree is `branch`.
pub fn holds_branch(tree: &Worktree, branch: &str) -> (r: bool)
    ensures
        r == (tree.model().branch == Some(branch@)),
{
    match &tree.branch {
        Some(b) => text::same(b, branch),
        None => false,
    }
}

/// The first worktree that has `branch` checked out.
pub fn worktree_for_branch(worktrees: &[Worktree], branch: &str) -> (r: Option<Worktree>)
    ensures
        r.model() == first_of(models(worktrees@), holding(branch@)),
{
    let ghost all = models(worktrees@);
    let mut i: usize = 0;
    proof {
        rows::lemma_take_all(all);
    }
    while i < worktrees.len()
        invariant
            i <= worktrees@.len(),
            all == models(worktrees@),
            first_of(all, holding(branch@)) == first_of(all.skip(i as int), holding(branch@)),
        decreases worktrees@.len() - i,
    {
        proof {
            rows::lemma_take_one_more(all, i as int);
        }
        if holds_branch(&worktrees[i], branch) {
            return Some(worktrees[i].clone());
        }
        i += 1;
    }
    None
}

/// Whether git, having run, says that something is there to commit.
pub open spec fn dirtiness(ran: Ran) -> Option<bool> {
    match ran {
        Ok(output) => if output.succeeded() {
            Some(output.stdout.len() > 0)
        } else {
            None
        },
        Err(_) => None,
    }
}

pub open spec fn worktree_dirtiness_spec(rest: Seq<Answer>, path: Seq<char>) -> Progress<
    Option<bool>,
> {
    match git_asked(rest, Some(path), args2("status"@, "--porcelain"@)) {
        Progress::Waiting(q) => Progress::Waiting(q),
        Progress::Finished(ran, rest) => Progress::Finished(dirtiness(ran), rest),
    }
}

/// A fresh reading of whether the worktree holds uncommitted changes, or
/// `None` where git could not inspect it.
pub fn worktree_dirtiness(talk: &mut Talk, path: &str) -> (r: Option<Option<bool>>)
    ensures
        heard(r, *final(talk)) == worktree_dirtiness_spec(old(talk).rest(), path@),
{
    match ask_git(talk, Some(path), words2("status", "--porcelain"))? {
        Ok(output) => {
            if output.success() {
                Some(Some(!output.stdout.as_str().is_empty()))
            } else {
                Some(None)
            }
        },
        Err(_) => Some(None),
    }
}

pub open spec fn worktree_dirty_spec(rest: Seq<Answer>, path: Seq<char>) -> Progress<bool> {
    match worktree_dirtiness_spec(rest, path) {
        Progress::Waiting(q) => Progress::Waiting(q),
        Progress::Finished(dirty, rest) => Progress::Finished(dirty == Some(true), rest),
    }
}

/// True if the worktree has uncommitted changes. One that cannot be read
/// counts as clean.
pub fn worktree_dirty(talk: &mut Talk, path: &str) -> (r: Option<bool>)
    ensures
        heard(r, *final(talk)) == worktree_dirty_spec(old(talk).rest(), path@),
{
    match worktree_dirtiness(talk, path)? {
        Some(dirty) => Some(dirty),
        None => Some(false),
    }
}

// ---------------------------------------------------------------------------
// Submodules
// ---------------------------------------------------------------------------

/// The mode of a submodule's entry in the index, and the space behind it.
pub open spec fn gitlink_mode() -> Seq<u8> {
    seq![0x31u8, 0x36u8, 0x30u8, 0x30u8, 0x30u8, 0x30u8, 0x20u8]
}

/// What an entry of the index is to the question: not a submodule, one at a
/// path, or one whose path cannot be told.
pub enum Gitlink<B = Vec<u8>> {
    Other,
    At(B),
    Unreadable,
}

pub open spec fn gitlink(entry: Seq<u8>) -> Gitlink<Seq<u8>> {
    let mode = gitlink_mode();
    if entry.len() < mode.len() || entry.take(mode.len() as int) != mode {
        Gitlink::Other
    } else {
        let rest = entry.skip(mode.len() as int);
        let tab = text::find(rest, 0x09u8);
        if 0 <= tab < rest.len() {
            Gitlink::At(rest.skip(tab + 1))
        } else {
            Gitlink::Unreadable
        }
    }
}

pub open spec fn probe_asked(rest: Seq<Answer>, below: Seq<char>, entry: Seq<u8>) -> Progress<
    Presence,
> {
    match asked(rest, Asked::Probe { below, entry }) {
        Progress::Waiting(q) => Progress::Waiting(q),
        Progress::Finished(a, rest) => Progress::Finished(
            match a {
                Answer::Probed(p) => p,
                _ => Presence::Unreadable,
            },
            rest,
        ),
    }
}

/// Whether any of the entries is an initialized submodule: the first that is
/// decides, and so does the first that cannot be looked at.
pub open spec fn initialized_among(
    rest: Seq<Answer>,
    below: Seq<char>,
    entries: Seq<Seq<u8>>,
) -> Progress<Option<bool>>
    decreases entries.len(),
{
    if entries.len() == 0 {
        Progress::Finished(Some(false), rest)
    } else {
        match gitlink(entries[0]) {
            Gitlink::Other => initialized_among(rest, below, entries.drop_first()),
            Gitlink::Unreadable => Progress::Finished(None, rest),
            Gitlink::At(path) => match probe_asked(rest, below, path) {
                Progress::Waiting(q) => Progress::Waiting(q),
                Progress::Finished(Presence::Present, rest) => Progress::Finished(
                    Some(true),
                    rest,
                ),
                Progress::Finished(Presence::Unreadable, rest) => Progress::Finished(None, rest),
                Progress::Finished(Presence::Absent, rest) => initialized_among(
                    rest,
                    below,
                    entries.drop_first(),
                ),
            },
        }
    }
}

pub open spec fn raw(a: Answer) -> Result<RawOutput<Seq<u8>>, IoError<Seq<char>>> {
    match a {
        Answer::RanBytes(r) => r,
        _ => Err(unanswered()),
    }
}

pub open spec fn worktree_has_initialized_submodules_spec(
    rest: Seq<Answer>,
    path: Seq<char>,
) -> Progress<Option<bool>> {
    match asked(
        rest,
        Asked::GitBytes { dir: Some(path), args: args3("ls-files"@, "--stage"@, "-z"@) },
    ) {
        Progress::Waiting(q) => Progress::Waiting(q),
        Progress::Finished(a, rest) => match raw(a) {
            Err(_) => Progress::Finished(None, rest),
            Ok(output) => if output.code == Some(0i32) {
                initialized_among(rest, path, text::split(output.stdout, 0u8))
            } else {
                Progress::Finished(None, rest)
            },
        },
    }
}

/// Whether a worktree declares submodules: it has a file that names them.
pub open spec fn declares_submodules_spec(rest: Seq<Answer>, path: Seq<char>) -> Progress<bool> {
    flag_asked(rest, Asked::Exists(path::join(path, ".gitmodules"@)))
}

pub fn declares_submodules(talk: &mut Talk, path: &str) -> (r: Option<bool>)
    ensures
        heard(r, *final(talk)) == declares_submodules_spec(old(talk).rest(), path@),
{
    ask_flag(talk, Request::Exists(path::joined(path, ".gitmodules")))
}

/// Whether the repository keeps the repositories of submodules, which it does
/// in one directory of its own. Where git does not say where that is, it keeps
/// none.
pub open spec fn holds_submodule_repositories_spec(rest: Seq<Answer>) -> Progress<bool> {
    match run_in_spec(
        rest,
        None,
        args3("rev-parse"@, "--path-format=absolute"@, "--git-common-dir"@),
    ) {
        Progress::Waiting(q) => Progress::Waiting(q),
        Progress::Finished(Err(_), rest) => Progress::Finished(false, rest),
        Progress::Finished(Ok(output), rest) => flag_asked(
            rest,
            Asked::Exists(path::join(text::trim(output), "modules"@)),
        ),
    }
}

pub fn holds_submodule_repositories(talk: &mut Talk) -> (r: Option<bool>)
    ensures
        heard(r, *final(talk)) == holds_submodule_repositories_spec(old(talk).rest()),
{
    match run_in(
        talk,
        None,
        words3("rev-parse", "--path-format=absolute", "--git-common-dir"),
    )? {
        Err(_) => Some(false),
        Ok(output) => ask_flag(
            talk,
            Request::Exists(path::joined(&text::trimmed(&output), "modules")),
        ),
    }
}

/// The bytes `from..to`.
fn bytes_between(bytes: &[u8], from: usize, to: usize) -> (r: Vec<u8>)
    requires
        from <= to <= bytes@.len(),
    ensures
        r@ == bytes@.subrange(from as int, to as int),
{
    let mut r: Vec<u8> = Vec::new();
    let mut i: usize = from;
    while i < to
        invariant
            from <= i <= to <= bytes@.len(),
            r@ == bytes@.subrange(from as int, i as int),
        decreases to - i,
    {
        r.push(bytes[i]);
        i += 1;
    }
    r
}

/// Where `b` first stands from `from` on, or the end.
fn byte_from(bytes: &[u8], from: usize, b: u8) -> (r: usize)
    requires
        from <= bytes@.len(),
    ensures
        from <= r <= bytes@.len(),
        r - from == text::find(bytes@.skip(from as int), b),
{
    let ghost t = bytes@.skip(from as int);
    let ghost p = text::holds(t, b);
    let mut i: usize = from;
    while i < bytes.len()
        invariant
            from <= i <= bytes@.len(),
            t == bytes@.skip(from as int),
            p == text::holds(t, b),
            forall|j: int| 0 <= j < i - from ==> !#[trigger] p(j),
        decreases bytes@.len() - i,
    {
        if bytes[i] == b {
            proof {
                assert(p(i - from));
                text::lemma_least_is(0, t.len() as int, p, i - from);
            }
            return i;
        }
        assert(!p(i - from));
        i += 1;
    }
    proof {
        text::lemma_least_is(0, t.len() as int, p, t.len() as int);
    }
    i
}

/// What an entry of the index is to the question.
pub fn read_gitlink(entry: &[u8]) -> (r: Gitlink)
    ensures
        match r {
            Gitlink::Other => gitlink(entry@) == Gitlink::<Seq<u8>>::Other,
            Gitlink::Unreadable => gitlink(entry@) == Gitlink::<Seq<u8>>::Unreadable,
            Gitlink::At(path) => gitlink(entry@) == Gitlink::At(path@),
        },
{
    let mode: [u8; 7] = [0x31u8, 0x36u8, 0x30u8, 0x30u8, 0x30u8, 0x30u8, 0x20u8];
    let ghost want = gitlink_mode();
    if entry.len() < 7 {
        return Gitlink::Other;
    }
    let mut i: usize = 0;
    while i < 7
        invariant
            i <= 7 <= entry@.len(),
            want == gitlink_mode(),
            want =~= mode@,
            forall|j: int| 0 <= j < i ==> entry@[j] == #[trigger] want[j],
        decreases 7 - i,
    {
        if entry[i] != mode[i] {
            assert(entry@.take(7)[i as int] != want[i as int]);
            return Gitlink::Other;
        }
        i += 1;
    }
    assert(entry@.take(7) =~= want);
    let tab: usize = byte_from(entry, 7, 0x09);
    if tab < entry.len() {
        let path: Vec<u8> = bytes_between(entry, tab + 1, entry.len());
        assert(path@ =~= entry@.skip(7).skip(tab - 7 + 1));
        Gitlink::At(path)
    } else {
        Gitlink::Unreadable
    }
}

/// Whether the worktree contains an initialized submodule. Git refuses to
/// remove such a worktree even when its status is clean, so a destructive fast
/// path must leave that guard in charge. `None` where it cannot be told.
pub fn worktree_has_initialized_submodules(talk: &mut Talk, path: &str) -> (r: Option<Option<bool>>)
    ensures
        heard(r, *final(talk)) == worktree_has_initialized_submodules_spec(
            old(talk).rest(),
            path@,
        ),
{
    let request: Request = Request::GitBytes {
        dir: Some(path.to_owned()),
        args: words3("ls-files", "--stage", "-z"),
    };
    let output: RawOutput = match talk.ask(request)? {
        Reply::RanBytes(Ok(output)) => output,
        _ => return Some(None),
    };
    match output.code {
        Some(0) => {},
        _ => return Some(None),
    }
    let bytes: Vec<u8> = output.stdout;
    let ghost all = text::split(bytes@, 0u8);
    let ghost start = talk.rest();
    let mut from: usize = 0;
    let mut more: bool = true;
    assert(bytes@.skip(0) =~= bytes@);
    while more
        invariant
            from <= bytes@.len(),
            all == text::split(bytes@, 0u8),
            worktree_has_initialized_submodules_spec(old(talk).rest(), path@) == initialized_among(
                start,
                path@,
                all,
            ),
            more ==> initialized_among(start, path@, all) == initialized_among(
                talk.rest(),
                path@,
                text::split(bytes@.skip(from as int), 0u8),
            ),
            !more ==> initialized_among(start, path@, all) == Progress::Finished(
                Some(false),
                talk.rest(),
            ),
        decreases bytes@.len() - from + (if more { 1int } else { 0 }),
    {
        let to: usize = byte_from(&bytes, from, 0);
        let entry: Vec<u8> = bytes_between(&bytes, from, to);
        let ghost t = bytes@.skip(from as int);
        let ghost entries = text::split(t, 0u8);
        proof {
            text::lemma_least(0, t.len() as int, text::holds(t, 0u8));
            assert(entry@ =~= t.take(to - from));
            if to < bytes@.len() {
                assert(t.skip(to - from + 1) =~= bytes@.skip(to + 1));
                assert(entries.drop_first() =~= text::split(bytes@.skip(to + 1), 0u8));
            } else {
                assert(entry@ =~= t);
                assert(entries.drop_first() =~= Seq::empty());
            }
            assert(entries[0] == entry@);
        }
        match read_gitlink(&entry) {
            Gitlink::Other => {},
            Gitlink::Unreadable => return Some(None),
            Gitlink::At(inside) => {
                let request: Request = Request::Probe { below: path.to_owned(), entry: inside };
                let found: Presence = match talk.ask(request)? {
                    Reply::Probed(p) => p,
                    _ => Presence::Unreadable,
                };
                match found {
                    Presence::Present => return Some(Some(true)),
                    Presence::Unreadable => return Some(None),
                    Presence::Absent => {},
                }
            },
        }
        if to < bytes.len() {
            from = to + 1;
        } else {
            assert(initialized_among(talk.rest(), path@, entries.drop_first())
                == Progress::Finished(Some(false), talk.rest()));
            more = false;
        }
    }
    Some(Some(false))
}

// ---------------------------------------------------------------------------
// Adding and removing
// ---------------------------------------------------------------------------

/// The command that adds a worktree. A new branch tracks its base, whatever
/// git is configured to do: that upstream is what later tells a branch cut
/// from the anchor from one merged into it.
pub open spec fn add_args(path: Seq<char>, branch: Seq<char>, base: Option<Seq<char>>) -> Words {
    match base {
        Some(base) => args7("worktree"@, "add"@, "--track"@, "-b"@, branch, path, base),
        None => args4("worktree"@, "add"@, path, branch),
    }
}

pub open spec fn add_failed(output: Output<Seq<char>>) -> Error<Seq<char>> {
    Error::Git { command: "worktree add"@, message: text::trim(output.stderr) }
}

/// Adds a worktree; a registration whose directory is gone is cleared once.
pub open spec fn worktree_add_spec(
    rest: Seq<Answer>,
    path: Seq<char>,
    branch: Seq<char>,
    base: Option<Seq<char>>,
) -> Progress<Meant<()>> {
    match git_asked(rest, None, add_args(path, branch, base)) {
        Progress::Waiting(q) => Progress::Waiting(q),
        Progress::Finished(Err(e), rest) => Progress::Finished(Err(Error::Io(e)), rest),
        Progress::Finished(Ok(output), rest) => if output.succeeded() {
            Progress::Finished(Ok(()), rest)
        } else if !held_by_stale_worktree(output.stderr) {
            Progress::Finished(Err(add_failed(output)), rest)
        } else {
            match worktree_prune_spec(rest) {
                Progress::Waiting(q) => Progress::Waiting(q),
                Progress::Finished(_, rest) => match git_asked(
                    rest,
                    None,
                    add_args(path, branch, base),
                ) {
                    Progress::Waiting(q) => Progress::Waiting(q),
                    Progress::Finished(Err(e), rest) => Progress::Finished(Err(Error::Io(e)), rest),
                    Progress::Finished(Ok(output), rest) => if output.succeeded() {
                        Progress::Finished(Ok(()), rest)
                    } else {
                        Progress::Finished(Err(add_failed(output)), rest)
                    },
                },
            }
        },
    }
}

fn add_words(path: &str, branch: &str, base: Option<&str>) -> (r: Vec<String>)
    ensures
        r.model() == add_args(path@, branch@, borrowed(base)),
{
    match base {
        Some(base) => words7("worktree", "add", "--track", "-b", branch, path, base),
        None => words4("worktree", "add", path, branch),
    }
}

fn add_failure(output: &Output) -> (r: Error)
    ensures
        r.model() == add_failed(output.model()),
{
    Error::Git { command: "worktree add".to_owned(), message: text::trimmed(&output.stderr) }
}

/// Adds a worktree at `path` for `branch`, creating the branch from `base`
/// where one is given.
pub fn worktree_add(talk: &mut Talk, path: &str, branch: &str, base: Option<&str>) -> (r: Option<
    AppResult<()>,
>)
    ensures
        heard(r, *final(talk)) == worktree_add_spec(
            old(talk).rest(),
            path@,
            branch@,
            borrowed(base),
        ),
{
    let output: Output = match ask_git(talk, None, add_words(path, branch, base))? {
        Ok(output) => output,
        Err(e) => return Some(Err(Error::Io(e))),
    };
    if output.success() {
        return Some(Ok(()));
    }
    if !is_stale_worktree_error(&output.stderr) {
        return Some(Err(add_failure(&output)));
    }
    let _pruned: AppResult<()> = worktree_prune(talk)?;
    let retry: Output = match ask_git(talk, None, add_words(path, branch, base))? {
        Ok(output) => output,
        Err(e) => return Some(Err(Error::Io(e))),
    };
    if retry.success() {
        Some(Ok(()))
    } else {
        Some(Err(add_failure(&retry)))
    }
}

#[derive(Debug, PartialEq, Eq)]
pub enum WorktreeRemoveOutcome<S = String> {
    Removed,
    Failed(S),
}

impl Modelled for WorktreeRemoveOutcome {
    type Model = WorktreeRemoveOutcome<Seq<char>>;

    open spec fn model(&self) -> WorktreeRemoveOutcome<Seq<char>> {
        match self {
            WorktreeRemoveOutcome::Removed => WorktreeRemoveOutcome::Removed,
            WorktreeRemoveOutcome::Failed(why) => WorktreeRemoveOutcome::Failed(why@),
        }
    }
}

pub open spec fn remove_args(path: Seq<char>, force: bool) -> Words {
    if force {
        args4("worktree"@, "remove"@, "--force"@, path)
    } else {
        args3("worktree"@, "remove"@, path)
    }
}

/// Whether some worktree is registered at `path`.
pub open spec fn registered(trees: Seq<Tree>, path: Seq<char>) -> bool {
    exists|i: int| 0 <= i < trees.len() && path::same_path((#[trigger] trees[i]).path, path)
}

/// Removes a worktree. Where its directory was gone already, pruning clears
/// the registration, and only a listing without it is taken for a removal: a
/// locked worktree survives the pruning.
pub open spec fn worktree_remove_spec(rest: Seq<Answer>, path: Seq<char>, force: bool) -> Progress<
    Meant<WorktreeRemoveOutcome<Seq<char>>>,
> {
    match git_asked(rest, None, remove_args(path, force)) {
        Progress::Waiting(q) => Progress::Waiting(q),
        Progress::Finished(Err(e), rest) => Progress::Finished(Err(Error::Io(e)), rest),
        Progress::Finished(Ok(output), rest) => {
            let failed = WorktreeRemoveOutcome::Failed(text::trim(output.stderr));
            if output.succeeded() {
                Progress::Finished(Ok(WorktreeRemoveOutcome::Removed), rest)
            } else {
                match flag_asked(rest, Asked::Exists(path)) {
                    Progress::Waiting(q) => Progress::Waiting(q),
                    Progress::Finished(true, rest) => Progress::Finished(Ok(failed), rest),
                    Progress::Finished(false, rest) => match worktree_prune_spec(rest) {
                        Progress::Waiting(q) => Progress::Waiting(q),
                        Progress::Finished(_, rest) => match worktree_list_in_spec(rest, None) {
                            Progress::Waiting(q) => Progress::Waiting(q),
                            Progress::Finished(Err(e), rest) => Progress::Finished(Err(e), rest),
                            Progress::Finished(Ok(trees), rest) => if registered(trees, path) {
                                Progress::Finished(Ok(failed), rest)
                            } else {
                                Progress::Finished(Ok(WorktreeRemoveOutcome::Removed), rest)
                            },
                        },
                    },
                }
            }
        },
    }
}

/// Whether some worktree is registered at `path`.
pub fn is_registered(trees: &[Worktree], path: &str) -> (r: bool)
    ensures
        r == registered(models(trees@), path@),
{
    let ghost all = models(trees@);
    let mut i: usize = 0;
    while i < trees.len()
        invariant
            i <= trees@.len(),
            all == models(trees@),
            forall|j: int| 0 <= j < i ==> !path::same_path((#[trigger] all[j]).path, path@),
        decreases trees@.len() - i,
    {
        if path::same(&trees[i].path, path) {
            assert(path::same_path(all[i as int].path, path@));
            return true;
        }
        i += 1;
    }
    false
}

/// Removes the worktree at `path`. With `force`, uncommitted changes in it are
/// discarded; without, git refuses a dirty tree. A locked worktree survives
/// either way and is reported as a failure.
pub fn worktree_remove(talk: &mut Talk, path: &str, force: bool) -> (r: Option<
    AppResult<WorktreeRemoveOutcome>,
>)
    ensures
        heard(r, *final(talk)) == worktree_remove_spec(old(talk).rest(), path@, force),
{
    let args: Vec<String> = if force {
        words4("worktree", "remove", "--force", path)
    } else {
        words3("worktree", "remove", path)
    };
    let output: Output = match ask_git(talk, None, args)? {
        Ok(output) => output,
        Err(e) => return Some(Err(Error::Io(e))),
    };
    if output.success() {
        return Some(Ok(WorktreeRemoveOutcome::Removed));
    }
    if !ask_flag(talk, Request::Exists(path.to_owned()))? {
        let _pruned: AppResult<()> = worktree_prune(talk)?;
        let trees: Vec<Worktree> = match worktree_list(talk)? {
            Ok(trees) => trees,
            Err(e) => return Some(Err(e)),
        };
        if !is_registered(&trees, path) {
            return Some(Ok(WorktreeRemoveOutcome::Removed));
        }
    }
    Some(Ok(WorktreeRemoveOutcome::Failed(text::trimmed(&output.stderr))))
}

/// The first record of a listing is the main worktree's, and no other is.
pub proof fn only_the_first_record_is_main(lines: Words)
    ensures
        forall|i: int| 0 <= i < listing(lines).len() ==> ((#[trigger] listing(lines)[i]).is_main
            <==> i == 0),
    decreases lines.len(),
{
    if lines.len() > 0 {
        only_the_first_record_is_main(lines.drop_last());
    }
}

} // verus!
