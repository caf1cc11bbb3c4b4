//! The verb that gives branches worktrees of their own.
use vstd::prelude::*;
use vstd::string::*;
use vstd::utf8::encode_utf8;

use crate::ask::{
    ask_done, ask_flag, ask_text, done_asked, flag_asked, lent, tell, tell_asked, text_asked,
};
use crate::error::{AppResult, Error, Meant};
use crate::git::refs::ahead_behind_map_spec;
use crate::git::worktrees::{
    declares_submodules_spec, holding, holds_submodule_repositories_spec, worktree_add_spec,
    worktree_dirty_spec, worktree_list_in_spec, Tree,
};
use crate::git::{self, FetchOutcome, Worktree};
use crate::grammar::{ShellHandoff, Verb, Words, WorktreeRemoval};
use crate::model::{borrowed, models, Modelled};
use crate::path;
use crate::rows::{self, first_of, keep_map, unique};
use crate::table::{self, Table};
use crate::talk::{heard, Answer, Asked, Mark, Picked, Progress, Request, Talk};
use crate::text;

use super::catalogue::{
    build_catalogue, build_catalogue_spec, is_reachable, is_reachable_spec, live_worktrees,
    live_worktrees_spec, pick, picked_spec, Catalogue,
};
use super::hook::{fire, fire_spec, HookEvent};
use super::prefetch::{
    self, fetch_unless_covered, fetch_unless_covered_spec, fetched_model, left_to_report,
    unreported, FetchedRemote, Prefetch,
};
use super::removal::assess::{assess_worktrees, assess_worktrees_spec, is_in, stands_in};
use super::removal::finish::{finish, finish_spec};
use super::removal::{
    select_removal_locals, select_removal_locals_spec, Assessment, AssessmentModel, Offer,
    RemovalSelection, SelectionModel, Subject,
};
use super::reports::{
    display_path, display_path_spec, handoff_cd, is_interactive, report_fetch_failure,
    report_fetch_failure_spec,
};
use super::signs::{status_signs, status_signs_spec, Sign};
use super::update::{update_in, update_in_spec};
use super::verbs::{
    handed_off_spec, sweep_and_hand_off, sweep_and_hand_off_spec, updated_or_told,
    updated_or_told_spec,
};

verus! {

// ---------------------------------------------------------------------------
// What a branch needs
// ---------------------------------------------------------------------------

/// What a branch needs to be worked on in a worktree of its own.
#[derive(Debug, PartialEq, Eq)]
pub enum Action<S = String> {
    UseExisting(Worktree<S>),
    CreateForBranch(S),
    CreateNewBranch(S),
}

impl Modelled for Action {
    type Model = Action<Seq<char>>;

    open spec fn model(&self) -> Action<Seq<char>> {
        match self {
            Action::UseExisting(w) => Action::UseExisting(w.model()),
            Action::CreateForBranch(b) => Action::CreateForBranch(b@),
            Action::CreateNewBranch(b) => Action::CreateNewBranch(b@),
        }
    }
}

/// Whether the branch behind a name has to exist. A name that was typed claims
/// nothing; a row that was picked claims that the branch was there when the
/// list was drawn.
#[derive(Clone, Copy, Debug, PartialEq, Eq, Structural)]
pub enum Existence {
    MayCreate,
    MustExist,
}

impl Modelled for Existence {
    type Model = Existence;

    open spec fn model(&self) -> Existence {
        *self
    }
}

/// What the branch needs, decided against what git says now. A name that is
/// found nowhere is a new branch if it was typed, and an error if it was
/// picked.
pub open spec fn resolve_target_spec(
    rest: Seq<Answer>,
    name: Seq<char>,
    existence: Existence,
    trees: Seq<Tree>,
    remote: Seq<char>,
) -> Progress<Meant<Action<Seq<char>>>> {
    match first_of(trees, holding(name)) {
        Some(tree) => Progress::Finished(Ok(Action::UseExisting(tree)), rest),
        None => match is_reachable_spec(rest, name, remote) {
            Progress::Waiting(q) => Progress::Waiting(q),
            Progress::Finished(Err(e), rest) => Progress::Finished(Err(e), rest),
            Progress::Finished(Ok(true), rest) => Progress::Finished(
                Ok(Action::CreateForBranch(name)),
                rest,
            ),
            Progress::Finished(Ok(false), rest) => Progress::Finished(
                if existence == Existence::MustExist {
                    Err(Error::Vanished { branch: name })
                } else {
                    Ok(Action::CreateNewBranch(name))
                },
                rest,
            ),
        },
    }
}

pub fn resolve_target(
    talk: &mut Talk,
    name: &str,
    existence: Existence,
    worktrees: &[Worktree],
    remote: &str,
) -> (r: Option<AppResult<Action>>)
    ensures
        heard(r, *final(talk)) == resolve_target_spec(
            old(talk).rest(),
            name@,
            existence,
            models(worktrees@),
            remote@,
        ),
{
    match git::worktree_for_branch(worktrees, name) {
        Some(tree) => return Some(Ok(Action::UseExisting(tree))),
        None => {},
    }
    match is_reachable(talk, name, remote)? {
        Err(e) => return Some(Err(e)),
        Ok(found) => {
            if found {
                return Some(Ok(Action::CreateForBranch(name.to_owned())));
            }
        },
    }
    if existence == Existence::MustExist {
        return Some(Err(Error::Vanished { branch: name.to_owned() }));
    }
    Some(Ok(Action::CreateNewBranch(name.to_owned())))
}

/// A row that was picked is never taken for a branch to create.
pub proof fn picked_branch_is_never_created(
    rest: Seq<Answer>,
    name: Seq<char>,
    trees: Seq<Tree>,
    remote: Seq<char>,
)
    ensures
        resolve_target_spec(rest, name, Existence::MustExist, trees, remote)
            matches Progress::Finished(Ok(action), _) ==> !(action is CreateNewBranch),
{
}

/// A worktree that holds the branch is used, whatever directory name was
/// asked for and whatever else git would say.
pub proof fn registered_worktree_is_used(
    rest: Seq<Answer>,
    name: Seq<char>,
    existence: Existence,
    trees: Seq<Tree>,
    remote: Seq<char>,
)
    requires
        first_of(trees, holding(name)) is Some,
    ensures
        resolve_target_spec(rest, name, existence, trees, remote) == Progress::<
            Meant<Action<Seq<char>>>,
        >::Finished(Ok(Action::UseExisting(first_of(trees, holding(name))->0)), rest),
{
}

pub open spec fn main_tree() -> spec_fn(Tree) -> Option<Tree> {
    |w: Tree|
        if w.is_main {
            Some(w)
        } else {
            None
        }
}

/// The main worktree.
pub open spec fn main_of_spec(trees: Seq<Tree>) -> Meant<Tree> {
    match first_of(trees, main_tree()) {
        Some(tree) => Ok(tree),
        None => Err(
            Error::Git { command: "worktree list"@, message: "no main worktree found"@ },
        ),
    }
}

pub fn main_of(worktrees: &[Worktree]) -> (r: AppResult<Worktree>)
    ensures
        r.model() == main_of_spec(models(worktrees@)),
{
    let ghost all = models(worktrees@);
    let mut i: usize = 0;
    proof {
        rows::lemma_take_all(all);
    }
    while i < worktrees.len()
        invariant
            i <= worktrees@.len(),
            all == models(worktrees@),
            first_of(all, main_tree()) == first_of(all.skip(i as int), main_tree()),
        decreases worktrees@.len() - i,
    {
        proof {
            rows::lemma_take_one_more(all, i as int);
        }
        if worktrees[i].is_main {
            return Ok(worktrees[i].clone());
        }
        i += 1;
    }
    Err(
        Error::Git {
            command: "worktree list".to_owned(),
            message: "no main worktree found".to_owned(),
        },
    )
}

// ---------------------------------------------------------------------------
// Creating
// ---------------------------------------------------------------------------

/// Where a worktree goes: beside the repository, in a directory for the
/// worktrees of all repositories and in it one for this repository's.
pub open spec fn worktree_path(main_path: Seq<char>, name: Seq<char>) -> Meant<Seq<char>> {
    match path::parent(main_path) {
        None => Err(
            Error::Git {
                command: "worktree"@,
                message: "main worktree has no parent: "@ + main_path,
            },
        ),
        Some(dir) => match path::file_name(main_path) {
            None => Err(
                Error::Git {
                    command: "worktree"@,
                    message: "cannot determine repo name from "@ + main_path,
                },
            ),
            Some(repo) => Ok(path::join(path::join(path::join(dir, "worktrees"@), repo), name)),
        },
    }
}

pub fn worktree_path_for(main_path: &str, worktree_name: &str) -> (r: AppResult<String>)
    ensures
        r.model() == worktree_path(main_path@, worktree_name@),
{
    let dir: String = match path::parent_of(main_path) {
        Some(dir) => dir,
        None => {
            return Err(
                Error::Git {
                    command: "worktree".to_owned(),
                    message: text::joined("main worktree has no parent: ", main_path),
                },
            );
        },
    };
    match path::file_name_of(main_path) {
        None => Err(
            Error::Git {
                command: "worktree".to_owned(),
                message: text::joined("cannot determine repo name from ", main_path),
            },
        ),
        Some(repo) => Ok(
            path::joined(&path::joined(&path::joined(&dir, "worktrees"), &repo), worktree_name),
        ),
    }
}

/// A worktree goes beside the repository, in a directory for worktrees and in
/// it one that is named like the repository.
pub proof fn worktree_lands_beside_the_repository(
    dir: Seq<char>,
    repo: Seq<char>,
    name: Seq<char>,
)
    requires
        path::is_tidy(dir),
        path::is_entry(repo),
        !path::is_absolute(name),
    ensures
        worktree_path(path::join(dir, repo), name) == Meant::<Seq<char>>::Ok(
            dir + "/worktrees/"@ + repo + "/"@ + name,
        ),
{
    path::entry_parts_from_its_directory(dir, repo);
    reveal_strlit("/");
    reveal_strlit("worktrees");
    reveal_strlit("/worktrees/");
    assert(!path::is_absolute("worktrees"@));
    if path::is_absolute(repo) {
        assert(repo.contains(repo[0]));
    }
    if repo.last() == '/' {
        assert(repo.contains(repo.last()));
    }
    assert("/worktrees/"@ =~= "/"@ + "worktrees"@ + "/"@);
    assert(path::join(path::join(path::join(dir, "worktrees"@), repo), name) =~= dir
        + "/worktrees/"@ + repo + "/"@ + name);
}

/// Refuses a path that something stands at already.
pub open spec fn ensure_path_clear_spec(rest: Seq<Answer>, path: Seq<char>) -> Progress<Meant<()>> {
    match flag_asked(rest, Asked::Exists(path)) {
        Progress::Waiting(q) => Progress::Waiting(q),
        Progress::Finished(false, rest) => Progress::Finished(Ok(()), rest),
        Progress::Finished(true, rest) => Progress::Finished(
            Err(
                Error::Git {
                    command: "worktree add"@,
                    message: path
                        + " exists but is not a registered worktree; remove it manually and retry."@,
                },
            ),
            rest,
        ),
    }
}

pub fn ensure_path_clear(talk: &mut Talk, path: &str) -> (r: Option<AppResult<()>>)
    ensures
        heard(r, *final(talk)) == ensure_path_clear_spec(old(talk).rest(), path@),
{
    if ask_flag(talk, Request::Exists(path.to_owned()))? {
        return Some(
            Err(
                Error::Git {
                    command: "worktree add".to_owned(),
                    message: text::joined(
                        path,
                        " exists but is not a registered worktree; remove it manually and retry.",
                    ),
                },
            ),
        );
    }
    Some(Ok(()))
}

/// Makes the directory that a path goes into; one that cannot be made shows
/// when it is used.
pub open spec fn ensure_parent_spec(rest: Seq<Answer>, path: Seq<char>) -> Progress<()> {
    match path::parent(path) {
        None => Progress::Finished((), rest),
        Some(dir) => done_asked(rest, Asked::MakeDirectories(dir)),
    }
}

pub fn ensure_parent(talk: &mut Talk, path: &str) -> (r: Option<()>)
    ensures
        heard(r, *final(talk)) == ensure_parent_spec(old(talk).rest(), path@),
{
    match path::parent_of(path) {
        None => Some(()),
        Some(dir) => ask_done(talk, Request::MakeDirectories(dir)),
    }
}

pub open spec fn created_line(branch: Seq<char>, base: Option<Seq<char>>, path: Seq<char>) -> Seq<
    char,
> {
    match base {
        Some(base) => "created "@ + branch + " from "@ + base + " at "@ + path,
        None => "created worktree at "@ + path,
    }
}

/// Reports a new worktree, to the user and to the hook.
pub open spec fn announce_spec(
    rest: Seq<Answer>,
    main_path: Seq<char>,
    branch: Seq<char>,
    base: Option<Seq<char>>,
    path: Seq<char>,
) -> Progress<()> {
    match tell_asked(rest, Mark::Check, created_line(branch, base, path)) {
        Progress::Waiting(q) => Progress::Waiting(q),
        Progress::Finished(_, rest) => fire_spec(
            rest,
            HookEvent::Created,
            path,
            Some(branch),
            main_path,
        ),
    }
}

/// Fetches and adds the worktree. A failed fetch is reported, and the worktree
/// is made regardless: a new branch made offline is legitimate.
pub open spec fn fetch_and_add_spec(
    rest: Seq<Answer>,
    path: Seq<char>,
    branch: Seq<char>,
    base: Option<Seq<char>>,
    remote: Seq<char>,
    fetched: Option<FetchedRemote<Seq<char>>>,
) -> Progress<Meant<()>> {
    match done_asked(rest, Asked::Spin(prefetch::fetching(remote))) {
        Progress::Waiting(q) => Progress::Waiting(q),
        Progress::Finished(_, rest) => match fetch_unless_covered_spec(
            rest,
            None,
            remote,
            fetched,
        ) {
            Progress::Waiting(q) => Progress::Waiting(q),
            Progress::Finished(outcome, rest) => match done_asked(
                rest,
                Asked::Spin("Creating worktree for "@ + branch + "…"@),
            ) {
                Progress::Waiting(q) => Progress::Waiting(q),
                Progress::Finished(_, rest) => match worktree_add_spec(rest, path, branch, base) {
                    Progress::Waiting(q) => Progress::Waiting(q),
                    Progress::Finished(added, rest) => match done_asked(rest, Asked::Still) {
                        Progress::Waiting(q) => Progress::Waiting(q),
                        Progress::Finished(_, rest) => match report_fetch_failure_spec(
                            rest,
                            unreported(outcome, fetched),
                        ) {
                            Progress::Waiting(q) => Progress::Waiting(q),
                            Progress::Finished(_, rest) => Progress::Finished(added, rest),
                        },
                    },
                },
            },
        },
    }
}

/// Creates the worktree for a branch and reports it. Every worktree that is
/// created comes through here, so the hook is a consequence of creation and of
/// nothing else.
pub open spec fn create_worktree_spec(
    rest: Seq<Answer>,
    main_path: Seq<char>,
    name: Seq<char>,
    branch: Seq<char>,
    base: Option<Seq<char>>,
    remote: Seq<char>,
    fetched: Option<FetchedRemote<Seq<char>>>,
) -> Progress<Meant<Seq<char>>> {
    match worktree_path(main_path, name) {
        Err(e) => Progress::Finished(Err(e), rest),
        Ok(path) => match ensure_path_clear_spec(rest, path) {
            Progress::Waiting(q) => Progress::Waiting(q),
            Progress::Finished(Err(e), rest) => Progress::Finished(Err(e), rest),
            Progress::Finished(Ok(_), rest) => match ensure_parent_spec(rest, path) {
                Progress::Waiting(q) => Progress::Waiting(q),
                Progress::Finished(_, rest) => match fetch_and_add_spec(
                    rest,
                    path,
                    branch,
                    base,
                    remote,
                    fetched,
                ) {
                    Progress::Waiting(q) => Progress::Waiting(q),
                    Progress::Finished(Err(e), rest) => Progress::Finished(Err(e), rest),
                    Progress::Finished(Ok(_), rest) => match announce_spec(
                        rest,
                        main_path,
                        branch,
                        base,
                        path,
                    ) {
                        Progress::Waiting(q) => Progress::Waiting(q),
                        Progress::Finished(_, rest) => Progress::Finished(Ok(path), rest),
                    },
                },
            },
        },
    }
}

/// Nothing is announced that was not created: where the worktree was not added
/// the error is returned, and neither the user nor the hook is told of one.
pub proof fn a_failed_creation_is_not_announced(
    rest: Seq<Answer>,
    main_path: Seq<char>,
    name: Seq<char>,
    branch: Seq<char>,
    base: Option<Seq<char>>,
    remote: Seq<char>,
    fetched: Option<FetchedRemote<Seq<char>>>,
    path: Seq<char>,
    clear: Seq<Answer>,
    made: Seq<Answer>,
)
    requires
        worktree_path(main_path, name) == Meant::<Seq<char>>::Ok(path),
        ensure_path_clear_spec(rest, path) == Progress::<Meant<()>>::Finished(Ok(()), clear),
        ensure_parent_spec(clear, path) == Progress::Finished((), made),
    ensures
        fetch_and_add_spec(made, path, branch, base, remote, fetched) matches Progress::Finished(
            Err(e),
            left,
        ) ==> create_worktree_spec(rest, main_path, name, branch, base, remote, fetched)
            == Progress::<Meant<Seq<char>>>::Finished(Err(e), left),
        fetch_and_add_spec(made, path, branch, base, remote, fetched) matches Progress::Waiting(q)
            ==> create_worktree_spec(rest, main_path, name, branch, base, remote, fetched)
            == Progress::<Meant<Seq<char>>>::Waiting(q) && !(q is Shell),
{
    broadcast use super::reports::lemma_indented_only_tells;

}

fn fetch_and_add(
    talk: &mut Talk,
    path: &str,
    branch: &str,
    base: Option<&str>,
    remote: &str,
    fetched: Option<&FetchedRemote>,
) -> (r: Option<AppResult<()>>)
    ensures
        heard(r, *final(talk)) == fetch_and_add_spec(
            old(talk).rest(),
            path@,
            branch@,
            borrowed(base),
            remote@,
            fetched_model(fetched),
        ),
{
    ask_done(talk, Request::Spin(text::joined3("Fetching ", remote, "…")))?;
    let outcome: Option<FetchOutcome> = fetch_unless_covered(talk, None, remote, fetched)?;
    ask_done(talk, Request::Spin(text::joined3("Creating worktree for ", branch, "…")))?;
    let added: AppResult<()> = git::worktree_add(talk, path, branch, base)?;
    ask_done(talk, Request::Still)?;
    report_fetch_failure(talk, &left_to_report(outcome, fetched))?;
    Some(added)
}

fn announce(talk: &mut Talk, main_path: &str, branch: &str, base: Option<&str>, path: &str) -> (r:
    Option<()>)
    ensures
        heard(r, *final(talk)) == announce_spec(
            old(talk).rest(),
            main_path@,
            branch@,
            borrowed(base),
            path@,
        ),
{
    let line: String = match base {
        Some(base) => {
            let mut line: String = text::joined3("created ", branch, " from ");
            line.append(base);
            line.append(" at ");
            line.append(path);
            line
        },
        None => text::joined("created worktree at ", path),
    };
    tell(talk, Mark::Check, line)?;
    fire(talk, HookEvent::Created, path, Some(branch), main_path)
}

pub fn create_worktree(
    talk: &mut Talk,
    main_path: &str,
    worktree_name: &str,
    branch: &str,
    base: Option<&str>,
    remote: &str,
    fetched: Option<&FetchedRemote>,
) -> (r: Option<AppResult<String>>)
    ensures
        heard(r, *final(talk)) == create_worktree_spec(
            old(talk).rest(),
            main_path@,
            worktree_name@,
            branch@,
            borrowed(base),
            remote@,
            fetched_model(fetched),
        ),
{
    let path: String = match worktree_path_for(main_path, worktree_name) {
        Ok(path) => path,
        Err(e) => return Some(Err(e)),
    };
    match ensure_path_clear(talk, &path)? {
        Ok(()) => {},
        Err(e) => return Some(Err(e)),
    }
    ensure_parent(talk, &path)?;
    match fetch_and_add(talk, &path, branch, base, remote, fetched)? {
        Ok(()) => {},
        Err(e) => return Some(Err(e)),
    }
    announce(talk, main_path, branch, base, &path)?;
    Some(Ok(path))
}

// ---------------------------------------------------------------------------
// `wt`
// ---------------------------------------------------------------------------

/// What the user picked, and what picking it claimed. What that branch needs
/// is decided later, against what git says then.
pub open spec fn select_spec(
    rest: Seq<Answer>,
    trees: Seq<Tree>,
    current: Option<Seq<char>>,
    remote: Seq<char>,
) -> Progress<Meant<Option<(Seq<char>, Existence)>>> {
    match build_catalogue_spec(rest, current, remote, trees) {
        Progress::Waiting(q) => Progress::Waiting(q),
        Progress::Finished(Err(e), rest) => Progress::Finished(Err(e), rest),
        Progress::Finished(Ok(catalogue), rest) => match picked_spec(
            rest,
            catalogue,
            Verb::Worktree,
            true,
        ) {
            Progress::Waiting(q) => Progress::Waiting(q),
            Progress::Finished(Err(e), rest) => Progress::Finished(Err(e), rest),
            Progress::Finished(Ok(None), rest) => Progress::Finished(Ok(None), rest),
            Progress::Finished(Ok(Some(Picked::Create(name))), rest) => Progress::Finished(
                Ok(Some((name, Existence::MayCreate))),
                rest,
            ),
            Progress::Finished(Ok(Some(Picked::Existing(name))), rest) => Progress::Finished(
                Ok(Some((name, Existence::MustExist))),
                rest,
            ),
        },
    }
}

pub fn select(
    talk: &mut Talk,
    worktrees: &[Worktree],
    current_branch: Option<&str>,
    remote: &str,
) -> (r: Option<AppResult<Option<(String, Existence)>>>)
    ensures
        heard(r, *final(talk)) == select_spec(
            old(talk).rest(),
            models(worktrees@),
            borrowed(current_branch),
            remote@,
        ),
{
    let catalogue: Catalogue = match build_catalogue(talk, current_branch, remote, worktrees)? {
        Ok(catalogue) => catalogue,
        Err(e) => return Some(Err(e)),
    };
    match pick(talk, &catalogue, Verb::Worktree, true)? {
        Err(e) => Some(Err(e)),
        Ok(None) => Some(Ok(None)),
        Ok(Some(Picked::Create(name))) => Some(Ok(Some((name, Existence::MayCreate)))),
        Ok(Some(Picked::Existing(name))) => Some(Ok(Some((name, Existence::MustExist)))),
    }
}

/// The branch to give a worktree: the one named, or one that the user picks.
pub open spec fn choose_spec(
    rest: Seq<Answer>,
    target: Option<Seq<char>>,
    trees: Seq<Tree>,
    current: Option<Seq<char>>,
    remote: Seq<char>,
) -> Progress<Meant<Option<(Seq<char>, Existence)>>> {
    match target {
        Some(name) => Progress::Finished(Ok(Some((name, Existence::MayCreate))), rest),
        None => select_spec(rest, trees, current, remote),
    }
}

fn choose_branch(
    talk: &mut Talk,
    target: Option<&str>,
    worktrees: &[Worktree],
    current_branch: Option<&str>,
    remote: &str,
) -> (r: Option<AppResult<Option<(String, Existence)>>>)
    ensures
        heard(r, *final(talk)) == choose_spec(
            old(talk).rest(),
            borrowed(target),
            models(worktrees@),
            borrowed(current_branch),
            remote@,
        ),
{
    match target {
        Some(name) => Some(Ok(Some((name.to_owned(), Existence::MayCreate)))),
        None => select(talk, worktrees, current_branch, remote),
    }
}

/// Whether any of the worktrees declares submodules.
pub open spec fn any_declares(rest: Seq<Answer>, trees: Seq<Tree>) -> Progress<bool>
    decreases trees.len(),
{
    if trees.len() == 0 {
        Progress::Finished(false, rest)
    } else {
        match declares_submodules_spec(rest, trees[0].path) {
            Progress::Waiting(q) => Progress::Waiting(q),
            Progress::Finished(true, rest) => Progress::Finished(true, rest),
            Progress::Finished(false, rest) => any_declares(rest, trees.drop_first()),
        }
    }
}

/// Whether the repository has submodules: some worktree declares them, or the
/// repository holds theirs.
pub open spec fn has_submodules_spec(rest: Seq<Answer>, trees: Seq<Tree>) -> Progress<bool> {
    match any_declares(rest, trees) {
        Progress::Waiting(q) => Progress::Waiting(q),
        Progress::Finished(true, rest) => Progress::Finished(true, rest),
        Progress::Finished(false, rest) => holds_submodule_repositories_spec(rest),
    }
}

fn has_submodules(talk: &mut Talk, trees: &[Worktree]) -> (r: Option<bool>)
    ensures
        heard(r, *final(talk)) == has_submodules_spec(old(talk).rest(), models(trees@)),
{
    let ghost all = models(trees@);
    let mut i: usize = 0;
    proof {
        rows::lemma_take_all(all);
    }
    while i < trees.len()
        invariant
            i <= trees@.len(),
            all == models(trees@),
            any_declares(old(talk).rest(), all) == any_declares(talk.rest(), all.skip(i as int)),
        decreases trees@.len() - i,
    {
        proof {
            rows::lemma_take_one_more(all, i as int);
        }
        if git::declares_submodules(talk, &trees[i].path)? {
            return Some(true);
        }
        i += 1;
    }
    git::holds_submodule_repositories(talk)
}

/// Whether somebody will wait for a fetch: a branch is named, or can be picked.
pub open spec fn wanted_spec(rest: Seq<Answer>, target: Option<Seq<char>>) -> Progress<bool> {
    match target {
        Some(_) => Progress::Finished(true, rest),
        None => flag_asked(rest, Asked::Interactive),
    }
}

/// The fetch started ahead. There is none where nobody will wait for it, and
/// none in a repository with submodules: a worktree's own fetch is what
/// reaches its submodules, and it would find nothing new to reach them for.
pub open spec fn prefetched_spec(
    rest: Seq<Answer>,
    target: Option<Seq<char>>,
    trees: Seq<Tree>,
    remote: Seq<char>,
) -> Progress<Option<Prefetch<Seq<char>>>> {
    match has_submodules_spec(rest, trees) {
        Progress::Waiting(q) => Progress::Waiting(q),
        Progress::Finished(submodules, rest) => match wanted_spec(rest, target) {
            Progress::Waiting(q) => Progress::Waiting(q),
            Progress::Finished(wanted, rest) => if wanted && !submodules {
                match prefetch::start_spec(rest, remote) {
                    Progress::Waiting(q) => Progress::Waiting(q),
                    Progress::Finished(started, rest) => Progress::Finished(Some(started), rest),
                }
            } else {
                Progress::Finished(None, rest)
            },
        },
    }
}

fn prefetched(talk: &mut Talk, target: Option<&str>, trees: &[Worktree], remote: &str) -> (r:
    Option<Option<Prefetch>>)
    ensures
        heard(r, *final(talk)) == prefetched_spec(
            old(talk).rest(),
            borrowed(target),
            models(trees@),
            remote@,
        ),
{
    let submodules: bool = has_submodules(talk, trees)?;
    let wanted: bool = match target {
        Some(_) => true,
        None => is_interactive(talk)?,
    };
    if wanted && !submodules {
        let started: Prefetch = Prefetch::start(talk, remote)?;
        Some(Some(started))
    } else {
        Some(None)
    }
}

pub open spec fn joined_spec(rest: Seq<Answer>, started: Option<Prefetch<Seq<char>>>) -> Progress<
    Option<FetchedRemote<Seq<char>>>,
> {
    match started {
        None => Progress::Finished(None, rest),
        Some(p) => match prefetch::join_spec(rest, p) {
            Progress::Waiting(q) => Progress::Waiting(q),
            Progress::Finished(fetched, rest) => Progress::Finished(Some(fetched), rest),
        },
    }
}

fn join_fetch(talk: &mut Talk, started: Option<Prefetch>) -> (r: Option<Option<FetchedRemote>>)
    ensures
        heard(r, *final(talk)) == joined_spec(old(talk).rest(), started.model()),
{
    match started {
        None => Some(None),
        Some(p) => {
            let fetched: FetchedRemote = p.join(talk)?;
            Some(Some(fetched))
        },
    }
}

pub open spec fn branch_or_none(branch: Option<Seq<char>>) -> Seq<char> {
    match branch {
        Some(b) => b,
        None => Seq::empty(),
    }
}

pub open spec fn found_line(branch: Seq<char>, shown: Seq<char>, handoff: ShellHandoff) -> Seq<char> {
    if handoff == ShellHandoff::Emit {
        "switched to worktree at "@ + shown
    } else {
        "worktree for "@ + branch + " is at "@ + shown
    }
}

/// Enters a worktree that is there: it is brought up to date from the remote
/// that its own branch tracks.
pub open spec fn use_existing_spec(
    rest: Seq<Answer>,
    tree: Tree,
    handoff: ShellHandoff,
    fetched: Option<FetchedRemote<Seq<char>>>,
) -> Progress<Meant<(Seq<char>, Seq<char>)>> {
    let branch = branch_or_none(tree.branch);
    match git::current_remote_spec(rest, Some(branch)) {
        Progress::Waiting(q) => Progress::Waiting(q),
        Progress::Finished(branch_remote, rest) => match update_in_spec(
            rest,
            tree.path,
            branch,
            branch_remote,
            fetched,
        ) {
            Progress::Waiting(q) => Progress::Waiting(q),
            Progress::Finished(updated, rest) => match updated_or_told_spec(
                rest,
                branch,
                updated,
            ) {
                Progress::Waiting(q) => Progress::Waiting(q),
                Progress::Finished(_, rest) => match display_path_spec(rest, tree.path) {
                    Progress::Waiting(q) => Progress::Waiting(q),
                    Progress::Finished(shown, rest) => match tell_asked(
                        rest,
                        Mark::Arrow,
                        found_line(branch, shown, handoff),
                    ) {
                        Progress::Waiting(q) => Progress::Waiting(q),
                        Progress::Finished(_, rest) => Progress::Finished(
                            Ok((tree.path, branch)),
                            rest,
                        ),
                    },
                },
            },
        },
    }
}

fn use_existing(
    talk: &mut Talk,
    tree: Worktree,
    shell_handoff: ShellHandoff,
    fetched: Option<&FetchedRemote>,
) -> (r: Option<AppResult<(String, String)>>)
    ensures
        heard(r, *final(talk)) == use_existing_spec(
            old(talk).rest(),
            tree.model(),
            shell_handoff,
            fetched_model(fetched),
        ),
{
    let branch: String = match tree.branch {
        Some(branch) => branch,
        None => {
            let none: String = String::new();
            assert(none@ =~= Seq::empty());
            none
        },
    };
    let branch_remote: String = git::current_remote(talk, Some(branch.as_str()))?;
    let updated: AppResult<()> = update_in(talk, &tree.path, &branch, &branch_remote, fetched)?;
    updated_or_told(talk, &branch, updated)?;
    let shown: String = display_path(talk, &tree.path)?;
    let line: String = if shell_handoff == ShellHandoff::Emit {
        text::joined("switched to worktree at ", &shown)
    } else {
        let mut line: String = text::joined3("worktree for ", &branch, " is at ");
        line.append(&shown);
        line
    };
    tell(talk, Mark::Arrow, line)?;
    Some(Ok((tree.path, branch)))
}

/// The directory name that was asked for, or the branch's own.
pub open spec fn name_or(name: Option<Seq<char>>, branch: Seq<char>) -> Seq<char> {
    match name {
        Some(name) => name,
        None => branch,
    }
}

/// Creates a worktree for a branch that exists, from the remote it tracks.
pub open spec fn create_for_branch_spec(
    rest: Seq<Answer>,
    main_path: Seq<char>,
    name: Option<Seq<char>>,
    branch: Seq<char>,
    fetched: Option<FetchedRemote<Seq<char>>>,
) -> Progress<Meant<(Seq<char>, Seq<char>)>> {
    match git::current_remote_spec(rest, Some(branch)) {
        Progress::Waiting(q) => Progress::Waiting(q),
        Progress::Finished(branch_remote, rest) => match create_worktree_spec(
            rest,
            main_path,
            name_or(name, branch),
            branch,
            None,
            branch_remote,
            fetched,
        ) {
            Progress::Waiting(q) => Progress::Waiting(q),
            Progress::Finished(Err(e), rest) => Progress::Finished(Err(e), rest),
            Progress::Finished(Ok(path), rest) => Progress::Finished(Ok((path, branch)), rest),
        },
    }
}

/// Creates a branch from the remote's default branch, in a worktree of its
/// own. Without a default branch there is nothing to cut it from.
pub open spec fn create_new_branch_spec(
    rest: Seq<Answer>,
    main_path: Seq<char>,
    name: Option<Seq<char>>,
    branch: Seq<char>,
    remote: Seq<char>,
    fetched: Option<FetchedRemote<Seq<char>>>,
) -> Progress<Meant<(Seq<char>, Seq<char>)>> {
    match git::default_branch_spec(rest, remote) {
        Progress::Waiting(q) => Progress::Waiting(q),
        Progress::Finished(None, rest) => Progress::Finished(
            Err(
                Error::Git {
                    command: "worktree add"@,
                    message: "no default branch on "@ + remote + "; cannot pick a base"@,
                },
            ),
            rest,
        ),
        Progress::Finished(Some(default), rest) => match create_worktree_spec(
            rest,
            main_path,
            name_or(name, branch),
            branch,
            Some(remote + "/"@ + default),
            remote,
            fetched,
        ) {
            Progress::Waiting(q) => Progress::Waiting(q),
            Progress::Finished(Err(e), rest) => Progress::Finished(Err(e), rest),
            Progress::Finished(Ok(path), rest) => Progress::Finished(Ok((path, branch)), rest),
        },
    }
}

fn create_for_branch(
    talk: &mut Talk,
    main_path: &str,
    worktree_name: Option<&str>,
    branch: String,
    fetched: Option<&FetchedRemote>,
) -> (r: Option<AppResult<(String, String)>>)
    ensures
        heard(r, *final(talk)) == create_for_branch_spec(
            old(talk).rest(),
            main_path@,
            borrowed(worktree_name),
            branch@,
            fetched_model(fetched),
        ),
{
    let branch_remote: String = git::current_remote(talk, Some(branch.as_str()))?;
    let name: &str = match worktree_name {
        Some(name) => name,
        None => branch.as_str(),
    };
    match create_worktree(talk, main_path, name, &branch, None, &branch_remote, fetched)? {
        Ok(path) => Some(Ok((path, branch))),
        Err(e) => Some(Err(e)),
    }
}

fn create_new_branch(
    talk: &mut Talk,
    main_path: &str,
    worktree_name: Option<&str>,
    branch: String,
    remote: &str,
    fetched: Option<&FetchedRemote>,
) -> (r: Option<AppResult<(String, String)>>)
    ensures
        heard(r, *final(talk)) == create_new_branch_spec(
            old(talk).rest(),
            main_path@,
            borrowed(worktree_name),
            branch@,
            remote@,
            fetched_model(fetched),
        ),
{
    let default: String = match git::default_branch(talk, remote)? {
        Some(default) => default,
        None => {
            return Some(
                Err(
                    Error::Git {
                        command: "worktree add".to_owned(),
                        message: text::joined3(
                            "no default branch on ",
                            remote,
                            "; cannot pick a base",
                        ),
                    },
                ),
            );
        },
    };
    let base: String = text::joined3(remote, "/", &default);
    let name: &str = match worktree_name {
        Some(name) => name,
        None => branch.as_str(),
    };
    match create_worktree(
        talk,
        main_path,
        name,
        &branch,
        Some(base.as_str()),
        remote,
        fetched,
    )? {
        Ok(path) => Some(Ok((path, branch))),
        Err(e) => Some(Err(e)),
    }
}

/// Carries an action out; its path and its branch come back.
pub open spec fn act_spec(
    rest: Seq<Answer>,
    action: Action<Seq<char>>,
    main_path: Seq<char>,
    name: Option<Seq<char>>,
    handoff: ShellHandoff,
    remote: Seq<char>,
    fetched: Option<FetchedRemote<Seq<char>>>,
) -> Progress<Meant<(Seq<char>, Seq<char>)>> {
    match action {
        Action::UseExisting(tree) => use_existing_spec(rest, tree, handoff, fetched),
        Action::CreateForBranch(branch) => create_for_branch_spec(
            rest,
            main_path,
            name,
            branch,
            fetched,
        ),
        Action::CreateNewBranch(branch) => create_new_branch_spec(
            rest,
            main_path,
            name,
            branch,
            remote,
            fetched,
        ),
    }
}

/// The end of `wt`: the cleanup prompt, which never offers the branch just
/// entered, and the hand-off unless it is suppressed.
pub open spec fn arrived_spec(
    rest: Seq<Answer>,
    path: Seq<char>,
    branch: Seq<char>,
    remote: Seq<char>,
    handoff: ShellHandoff,
) -> Progress<Meant<()>> {
    sweep_and_hand_off_spec(
        rest,
        branch,
        remote,
        if handoff == ShellHandoff::Emit {
            Some(path)
        } else {
            None
        },
    )
}

/// Once the branch is chosen and the fetch has been waited for: the worktrees
/// are read again, since the list may have waited for a key meanwhile.
pub open spec fn give_worktree_spec(
    rest: Seq<Answer>,
    branch: Seq<char>,
    existence: Existence,
    name: Option<Seq<char>>,
    handoff: ShellHandoff,
    remote: Seq<char>,
    fetched: Option<FetchedRemote<Seq<char>>>,
) -> Progress<Meant<()>> {
    match live_worktrees_spec(rest) {
        Progress::Waiting(q) => Progress::Waiting(q),
        Progress::Finished(Err(e), rest) => Progress::Finished(Err(e), rest),
        Progress::Finished(Ok(trees), rest) => match main_of_spec(trees) {
            Err(e) => Progress::Finished(Err(e), rest),
            Ok(main) => match resolve_target_spec(rest, branch, existence, trees, remote) {
                Progress::Waiting(q) => Progress::Waiting(q),
                Progress::Finished(Err(e), rest) => Progress::Finished(Err(e), rest),
                Progress::Finished(Ok(action), rest) => match act_spec(
                    rest,
                    action,
                    main.path,
                    name,
                    handoff,
                    remote,
                    fetched,
                ) {
                    Progress::Waiting(q) => Progress::Waiting(q),
                    Progress::Finished(Err(e), rest) => Progress::Finished(Err(e), rest),
                    Progress::Finished(Ok((path, branch)), rest) => arrived_spec(
                        rest,
                        path,
                        branch,
                        remote,
                        handoff,
                    ),
                },
            },
        },
    }
}

/// `wt`: gives a branch a worktree of its own, or enters the one it has.
pub open spec fn run_spec(
    rest: Seq<Answer>,
    name: Option<Seq<char>>,
    target: Option<Seq<char>>,
    handoff: ShellHandoff,
) -> Progress<Meant<()>> {
    match git::current_branch_spec(rest) {
        Progress::Waiting(q) => Progress::Waiting(q),
        Progress::Finished(Err(e), rest) => Progress::Finished(Err(e), rest),
        Progress::Finished(Ok(current), rest) => match git::current_remote_spec(rest, current) {
            Progress::Waiting(q) => Progress::Waiting(q),
            Progress::Finished(remote, rest) => match live_worktrees_spec(rest) {
                Progress::Waiting(q) => Progress::Waiting(q),
                Progress::Finished(Err(e), rest) => Progress::Finished(Err(e), rest),
                Progress::Finished(Ok(listed), rest) => match prefetched_spec(
                    rest,
                    target,
                    listed,
                    remote,
                ) {
                    Progress::Waiting(q) => Progress::Waiting(q),
                    Progress::Finished(started, rest) => match choose_spec(
                        rest,
                        target,
                        listed,
                        current,
                        remote,
                    ) {
                        Progress::Waiting(q) => Progress::Waiting(q),
                        Progress::Finished(Err(e), rest) => Progress::Finished(Err(e), rest),
                        Progress::Finished(Ok(None), rest) => Progress::Finished(Ok(()), rest),
                        Progress::Finished(Ok(Some((branch, existence))), rest) => match joined_spec(
                            rest,
                            started,
                        ) {
                            Progress::Waiting(q) => Progress::Waiting(q),
                            Progress::Finished(fetched, rest) => give_worktree_spec(
                                rest,
                                branch,
                                existence,
                                name,
                                handoff,
                                remote,
                                fetched,
                            ),
                        },
                    },
                },
            },
        },
    }
}

fn act(
    talk: &mut Talk,
    action: Action,
    main_path: &str,
    worktree_name: Option<&str>,
    shell_handoff: ShellHandoff,
    remote: &str,
    fetched: Option<&FetchedRemote>,
) -> (r: Option<AppResult<(String, String)>>)
    ensures
        heard(r, *final(talk)) == act_spec(
            old(talk).rest(),
            action.model(),
            main_path@,
            borrowed(worktree_name),
            shell_handoff,
            remote@,
            fetched_model(fetched),
        ),
{
    match action {
        Action::UseExisting(tree) => use_existing(talk, tree, shell_handoff, fetched),
        Action::CreateForBranch(branch) => create_for_branch(
            talk,
            main_path,
            worktree_name,
            branch,
            fetched,
        ),
        Action::CreateNewBranch(branch) => create_new_branch(
            talk,
            main_path,
            worktree_name,
            branch,
            remote,
            fetched,
        ),
    }
}

fn give_worktree(
    talk: &mut Talk,
    branch: &str,
    existence: Existence,
    worktree_name: Option<&str>,
    shell_handoff: ShellHandoff,
    remote: &str,
    fetched: Option<&FetchedRemote>,
) -> (r: Option<AppResult<()>>)
    ensures
        heard(r, *final(talk)) == give_worktree_spec(
            old(talk).rest(),
            branch@,
            existence,
            borrowed(worktree_name),
            shell_handoff,
            remote@,
            fetched_model(fetched),
        ),
{
    let worktrees: Vec<Worktree> = match live_worktrees(talk)? {
        Ok(trees) => trees,
        Err(e) => return Some(Err(e)),
    };
    let main: Worktree = match main_of(&worktrees) {
        Ok(main) => main,
        Err(e) => return Some(Err(e)),
    };
    let action: Action = match resolve_target(talk, branch, existence, &worktrees, remote)? {
        Ok(action) => action,
        Err(e) => return Some(Err(e)),
    };
    let reached: (String, String) = match act(
        talk,
        action,
        &main.path,
        worktree_name,
        shell_handoff,
        remote,
        fetched,
    )? {
        Ok(reached) => reached,
        Err(e) => return Some(Err(e)),
    };
    let path: Option<&str> = if shell_handoff == ShellHandoff::Emit {
        Some(reached.0.as_str())
    } else {
        None
    };
    sweep_and_hand_off(talk, &reached.1, remote, path)
}

pub fn run(
    talk: &mut Talk,
    worktree_name: Option<&str>,
    target: Option<&str>,
    shell_handoff: ShellHandoff,
) -> (r: Option<AppResult<()>>)
    ensures
        heard(r, *final(talk)) == run_spec(
            old(talk).rest(),
            borrowed(worktree_name),
            borrowed(target),
            shell_handoff,
        ),
{
    let current: Option<String> = match git::current_branch(talk)? {
        Ok(current) => current,
        Err(e) => return Some(Err(e)),
    };
    let remote: String = git::current_remote(talk, lent(&current))?;
    let listed: Vec<Worktree> = match live_worktrees(talk)? {
        Ok(trees) => trees,
        Err(e) => return Some(Err(e)),
    };
    // Started before the list is drawn, so that it may be read while the fetch
    // updates refs. What the branch needs is decided after it was waited for.
    let started: Option<Prefetch> = prefetched(talk, target, &listed, &remote)?;
    let chosen: (String, Existence) = match choose_branch(
        talk,
        target,
        &listed,
        lent(&current),
        &remote,
    )? {
        Ok(Some(chosen)) => chosen,
        Ok(None) => return Some(Ok(())),
        Err(e) => return Some(Err(e)),
    };
    let fetched: Option<FetchedRemote> = join_fetch(talk, started)?;
    give_worktree(
        talk,
        &chosen.0,
        chosen.1,
        worktree_name,
        shell_handoff,
        &remote,
        fetched.as_ref(),
    )
}

// ---------------------------------------------------------------------------
// `wt ls`
// ---------------------------------------------------------------------------

/// What `console::measure_text_width` returns.
pub uninterp spec fn text_width(s: Seq<char>) -> usize;

/// A printable character of ASCII.
pub open spec fn is_printable(c: char) -> bool {
    '\u{20}' <= c <= '\u{7e}'
}

/// `console::measure_text_width`: the columns that a text takes on a terminal,
/// its escape sequences aside. A text of printable ASCII takes one column for
/// each character; of others only that the width depends on the text alone is
/// claimed.
#[verifier::external_body]
fn measure_text_width(s: &str) -> (r: usize)
    ensures
        r == text_width(s@),
        (forall|i: int| 0 <= i < s@.len() ==> is_printable(#[trigger] s@[i])) ==> r == s@.len(),
{
    console::measure_text_width(s)
}

/// What stands for a worktree's branch.
pub open spec fn label(tree: Tree) -> Seq<char> {
    match tree.branch {
        Some(branch) => branch,
        None => "(detached)"@,
    }
}

fn label_of(tree: &Worktree) -> (r: String)
    ensures
        r@ == label(tree.model()),
{
    match &tree.branch {
        Some(branch) => branch.clone(),
        None => "(detached)".to_owned(),
    }
}

/// A text with spaces behind it, up to `n` characters.
pub open spec fn padded(s: Seq<char>, n: nat) -> Seq<char> {
    s + text::repeated(
        ' ',
        if n > s.len() {
            (n - s.len()) as nat
        } else {
            0
        },
    )
}

fn pad(s: &str, n: usize) -> (r: String)
    ensures
        r@ == padded(s@, n as nat),
{
    let cs: Vec<char> = text::chars_of(s);
    let spaces: usize = if n > cs.len() {
        n - cs.len()
    } else {
        0
    };
    text::joined(s, &text::run_of(' ', spaces))
}

/// One line of the listing: the main worktree's mark, its branch, its status
/// where any worktree has one, and its path, in columns.
pub open spec fn ls_line(
    tree: Tree,
    branch_width: nat,
    status: Seq<char>,
    status_width: nat,
    width: nat,
) -> Seq<char> {
    let mark = if tree.is_main {
        "*"@
    } else {
        " "@
    };
    let start = mark + " "@ + padded(label(tree), branch_width) + "  "@;
    if status_width == 0 {
        start + tree.path
    } else {
        start + status + text::repeated(' ', (status_width - width) as nat) + "  "@ + tree.path
    }
}

/// One line of the listing, given how wide its status and the widest are.
pub fn ls_row(
    tree: &Worktree,
    branch_width: usize,
    status: &str,
    status_width: usize,
    width: usize,
) -> (r: String)
    requires
        width <= status_width,
    ensures
        r@ == ls_line(
            tree.model(),
            branch_width as nat,
            status@,
            status_width as nat,
            width as nat,
        ),
{
    let mark: &str = if tree.is_main {
        "*"
    } else {
        " "
    };
    let mut line: String = text::joined3(mark, " ", &pad(&label_of(tree), branch_width));
    line.append("  ");
    if status_width > 0 {
        line.append(status);
        line.append(&text::run_of(' ', status_width - width));
        line.append("  ");
    }
    line.append(&tree.path);
    line
}

/// The greatest of some numbers, or zero.
pub open spec fn greatest(s: Seq<nat>) -> nat
    decreases s.len(),
{
    if s.len() == 0 {
        0
    } else if greatest(s.drop_last()) > s.last() {
        greatest(s.drop_last())
    } else {
        s.last()
    }
}

/// Nothing among some numbers is greater than the greatest.
pub proof fn lemma_greatest(s: Seq<nat>, i: int)
    requires
        0 <= i < s.len(),
    ensures
        s[i] <= greatest(s),
    decreases s.len(),
{
    if i < s.len() - 1 {
        lemma_greatest(s.drop_last(), i);
        assert(s.drop_last()[i] == s[i]);
    }
}

/// How long each label is in bytes.
pub open spec fn label_sizes(trees: Seq<Tree>) -> Seq<nat> {
    Seq::new(trees.len(), |i: int| encode_utf8(label(trees[i])).len())
}

/// How wide each status is.
pub open spec fn status_widths(statuses: Words) -> Seq<nat> {
    Seq::new(statuses.len(), |i: int| text_width(statuses[i]) as nat)
}

/// The lines of the listing. Branches are padded to the longest label, and
/// statuses to the widest.
pub open spec fn ls_lines(trees: Seq<Tree>, statuses: Words) -> Words {
    let branch_width = greatest(label_sizes(trees));
    let status_width = greatest(status_widths(statuses));
    Seq::new(
        trees.len(),
        |i: int|
            ls_line(
                trees[i],
                branch_width,
                statuses[i],
                status_width,
                text_width(statuses[i]) as nat,
            ),
    )
}

fn widest_label(trees: &[Worktree]) -> (r: usize)
    ensures
        r == greatest(label_sizes(models(trees@))),
{
    let ghost sizes = label_sizes(models(trees@));
    let mut widest: usize = 0;
    let mut i: usize = 0;
    proof {
        rows::lemma_take_all(sizes);
    }
    while i < trees.len()
        invariant
            i <= trees@.len(),
            sizes == label_sizes(models(trees@)),
            widest == greatest(sizes.take(i as int)),
        decreases trees@.len() - i,
    {
        proof {
            rows::lemma_take_one_more(sizes, i as int);
        }
        let name: String = label_of(&trees[i]);
        let size: usize = name.as_str().as_bytes().len();
        assert(size == sizes[i as int]);
        if !(widest > size) {
            widest = size;
        }
        i += 1;
    }
    widest
}

fn widest_status(statuses: &[String]) -> (r: usize)
    ensures
        r == greatest(status_widths(models(statuses@))),
{
    let ghost widths = status_widths(models(statuses@));
    let mut widest: usize = 0;
    let mut i: usize = 0;
    proof {
        rows::lemma_take_all(widths);
    }
    while i < statuses.len()
        invariant
            i <= statuses@.len(),
            widths == status_widths(models(statuses@)),
            widest == greatest(widths.take(i as int)),
        decreases statuses@.len() - i,
    {
        proof {
            rows::lemma_take_one_more(widths, i as int);
        }
        let width: usize = measure_text_width(&statuses[i]);
        assert(width == widths[i as int]);
        if !(widest > width) {
            widest = width;
        }
        i += 1;
    }
    widest
}

/// The lines of the listing.
pub fn ls_rows(trees: &[Worktree], statuses: &[String]) -> (r: Vec<String>)
    requires
        trees@.len() == statuses@.len(),
    ensures
        models(r@) == ls_lines(models(trees@), models(statuses@)),
{
    let branch_width: usize = widest_label(trees);
    let status_width: usize = widest_status(statuses);
    let ghost lines = ls_lines(models(trees@), models(statuses@));
    let ghost widths = status_widths(models(statuses@));
    let mut r: Vec<String> = Vec::new();
    let mut i: usize = 0;
    proof {
        rows::lemma_take_all(lines);
        assert(models(r@) =~= Seq::empty());
    }
    while i < trees.len()
        invariant
            i <= trees@.len(),
            trees@.len() == statuses@.len(),
            lines == ls_lines(models(trees@), models(statuses@)),
            widths == status_widths(models(statuses@)),
            branch_width == greatest(label_sizes(models(trees@))),
            status_width == greatest(widths),
            models(r@) == lines.take(i as int),
        decreases trees@.len() - i,
    {
        broadcast use crate::model::lemma_models_push;

        proof {
            rows::lemma_take_one_more(lines, i as int);
            lemma_greatest(widths, i as int);
        }
        let width: usize = measure_text_width(&statuses[i]);
        let line: String = ls_row(&trees[i], branch_width, &statuses[i], status_width, width);
        assert(line@ == lines[i as int]);
        r.push(line);
        i += 1;
    }
    assert(lines.take(i as int) =~= lines);
    r
}

/// How a branch stands to its upstream, by the table.
pub open spec fn distance(tracks: Seq<(Seq<char>, (u32, u32))>, branch: Option<Seq<char>>) -> (
    u32,
    u32,
) {
    match branch {
        None => (0, 0),
        Some(branch) => match table::get(tracks, branch) {
            Some(counts) => counts,
            None => (0, 0),
        },
    }
}

/// Whether a worktree is dirty; one that is missing is not looked at.
pub open spec fn dirty_spec(rest: Seq<Answer>, tree: Tree) -> Progress<bool> {
    if tree.prunable {
        Progress::Finished(false, rest)
    } else {
        worktree_dirty_spec(rest, tree.path)
    }
}

pub open spec fn status_spec(
    rest: Seq<Answer>,
    tree: Tree,
    tracks: Seq<(Seq<char>, (u32, u32))>,
) -> Progress<Seq<char>> {
    let counts = distance(tracks, tree.branch);
    match dirty_spec(rest, tree) {
        Progress::Waiting(q) => Progress::Waiting(q),
        Progress::Finished(dirty, rest) => match text_asked(
            rest,
            Asked::Status(status_signs_spec(dirty, counts.0, counts.1)),
        ) {
            Progress::Waiting(q) => Progress::Waiting(q),
            Progress::Finished(shown, rest) => Progress::Finished(branch_or_none(shown), rest),
        },
    }
}

/// The statuses of the worktrees, behind those found already.
pub open spec fn statuses_spec(
    rest: Seq<Answer>,
    trees: Seq<Tree>,
    tracks: Seq<(Seq<char>, (u32, u32))>,
    found: Words,
) -> Progress<Words>
    decreases trees.len(),
{
    if trees.len() == 0 {
        Progress::Finished(found, rest)
    } else {
        match status_spec(rest, trees[0], tracks) {
            Progress::Waiting(q) => Progress::Waiting(q),
            Progress::Finished(status, rest) => statuses_spec(
                rest,
                trees.drop_first(),
                tracks,
                found.push(status),
            ),
        }
    }
}

/// Lines printed one after the other.
pub open spec fn print_each(rest: Seq<Answer>, lines: Words) -> Progress<()>
    decreases lines.len(),
{
    if lines.len() == 0 {
        Progress::Finished((), rest)
    } else {
        match done_asked(rest, Asked::Print(lines[0] + "\n"@)) {
            Progress::Waiting(q) => Progress::Waiting(q),
            Progress::Finished(_, rest) => print_each(rest, lines.drop_first()),
        }
    }
}

/// `wt ls`: every worktree, one to a line.
pub open spec fn run_ls_spec(rest: Seq<Answer>) -> Progress<Meant<()>> {
    match worktree_list_in_spec(rest, None) {
        Progress::Waiting(q) => Progress::Waiting(q),
        Progress::Finished(Err(e), rest) => Progress::Finished(Err(e), rest),
        Progress::Finished(Ok(trees), rest) => match ahead_behind_map_spec(rest) {
            Progress::Waiting(q) => Progress::Waiting(q),
            Progress::Finished(tracks, rest) => match statuses_spec(
                rest,
                trees,
                tracks,
                Seq::empty(),
            ) {
                Progress::Waiting(q) => Progress::Waiting(q),
                Progress::Finished(statuses, rest) => match print_each(
                    rest,
                    ls_lines(trees, statuses),
                ) {
                    Progress::Waiting(q) => Progress::Waiting(q),
                    Progress::Finished(_, rest) => Progress::Finished(Ok(()), rest),
                },
            },
        },
    }
}

fn status_of(talk: &mut Talk, tree: &Worktree, tracks: &Table<(u32, u32)>) -> (r: Option<String>)
    ensures
        heard(r, *final(talk)) == status_spec(old(talk).rest(), tree.model(), tracks.model()),
{
    let dirty: bool = if tree.prunable {
        false
    } else {
        git::worktree_dirty(talk, &tree.path)?
    };
    let counts: (u32, u32) = match &tree.branch {
        None => (0, 0),
        Some(branch) => match tracks.get(branch) {
            Some(counts) => *counts,
            None => (0, 0),
        },
    };
    assert(counts == distance(tracks.model(), tree.model().branch));
    let signs: Vec<Sign> = status_signs(dirty, counts.0, counts.1);
    match ask_text(talk, Request::Status(signs))? {
        Some(shown) => Some(shown),
        None => {
            let none: String = String::new();
            assert(none@ =~= Seq::empty());
            Some(none)
        },
    }
}

fn statuses_of(talk: &mut Talk, trees: &[Worktree], tracks: &Table<(u32, u32)>) -> (r: Option<
    Vec<String>,
>)
    ensures
        heard(r, *final(talk)) == statuses_spec(
            old(talk).rest(),
            models(trees@),
            tracks.model(),
            Seq::empty(),
        ),
        r matches Some(v) ==> v@.len() == trees@.len(),
{
    let ghost all = models(trees@);
    let mut found: Vec<String> = Vec::new();
    let mut i: usize = 0;
    proof {
        rows::lemma_take_all(all);
        assert(models(found@) =~= Seq::empty());
    }
    while i < trees.len()
        invariant
            i <= trees@.len(),
            all == models(trees@),
            found@.len() == i,
            statuses_spec(old(talk).rest(), all, tracks.model(), Seq::empty()) == statuses_spec(
                talk.rest(),
                all.skip(i as int),
                tracks.model(),
                models(found@),
            ),
        decreases trees@.len() - i,
    {
        broadcast use crate::model::lemma_models_push;

        proof {
            rows::lemma_take_one_more(all, i as int);
        }
        let status: String = status_of(talk, &trees[i], tracks)?;
        found.push(status);
        i += 1;
    }
    Some(found)
}

fn print_lines(talk: &mut Talk, lines: &[String]) -> (r: Option<()>)
    ensures
        heard(r, *final(talk)) == print_each(old(talk).rest(), models(lines@)),
{
    let ghost all = models(lines@);
    let mut i: usize = 0;
    proof {
        rows::lemma_take_all(all);
    }
    while i < lines.len()
        invariant
            i <= lines@.len(),
            all == models(lines@),
            print_each(old(talk).rest(), all) == print_each(talk.rest(), all.skip(i as int)),
        decreases lines@.len() - i,
    {
        proof {
            rows::lemma_take_one_more(all, i as int);
        }
        ask_done(talk, Request::Print(text::joined(&lines[i], "\n")))?;
        i += 1;
    }
    Some(())
}

pub fn run_ls(talk: &mut Talk) -> (r: Option<AppResult<()>>)
    ensures
        heard(r, *final(talk)) == run_ls_spec(old(talk).rest()),
{
    let trees: Vec<Worktree> = match git::worktree_list(talk)? {
        Ok(trees) => trees,
        Err(e) => return Some(Err(e)),
    };
    let tracks: Table<(u32, u32)> = git::ahead_behind_map(talk)?;
    let statuses: Vec<String> = statuses_of(talk, &trees, &tracks)?;
    print_lines(talk, &ls_rows(&trees, &statuses))?;
    Some(Ok(()))
}

// ---------------------------------------------------------------------------
// `wt rm`
// ---------------------------------------------------------------------------

/// What is under way, in words.
pub open spec fn removal_progress(offers: Seq<Offer<Seq<char>>>) -> Seq<char> {
    if offers.len() == 1 {
        "Removing "@ + offers[0].name + "…"@
    } else {
        "Removing "@ + text::decimal(offers.len()) + " worktrees…"@
    }
}

pub fn removal_progress_message(offers: &[Offer]) -> (r: String)
    ensures
        r@ == removal_progress(models(offers@)),
{
    if offers.len() == 1 {
        assert(models(offers@)[0] == offers@[0].model());
        text::joined3("Removing ", &offers[0].name, "…")
    } else {
        text::joined3("Removing ", &text::decimal_of(offers.len() as u128), " worktrees…")
    }
}

/// Whether the current directory is in a worktree that is to go.
pub open spec fn doomed(cwd: Option<Seq<char>>, offers: Seq<Offer<Seq<char>>>) -> bool {
    cwd matches Some(dir) && exists|i: int|
        0 <= i < offers.len() && (#[trigger] offers[i]).worktree is Some && stands_in(
            dir,
            offers[i].worktree->0,
        )
}

fn is_doomed(cwd: Option<&str>, offers: &[Offer]) -> (r: bool)
    ensures
        r == doomed(borrowed(cwd), models(offers@)),
{
    let ghost all = models(offers@);
    let dir: &str = match cwd {
        Some(dir) => dir,
        None => return false,
    };
    let mut i: usize = 0;
    while i < offers.len()
        invariant
            i <= offers@.len(),
            borrowed(cwd) == Some(dir@),
            all == models(offers@),
            forall|j: int|
                0 <= j < i ==> !((#[trigger] all[j]).worktree is Some && stands_in(
                    dir@,
                    all[j].worktree->0,
                )),
        decreases offers@.len() - i,
    {
        assert(all[i as int] == offers@[i as int].model());
        if let Some(tree) = &offers[i].worktree {
            if is_in(dir, tree) {
                return true;
            }
        }
        i += 1;
    }
    false
}

/// Where the shell has to go: to the main worktree, where it stands in one
/// that is to go.
pub open spec fn refuge(
    subject: Subject<Seq<char>>,
    offers: Seq<Offer<Seq<char>>>,
) -> Option<Seq<char>> {
    match subject {
        Subject::Worktrees { main, cwd } => if doomed(cwd, offers) {
            Some(main.path)
        } else {
            None
        },
        _ => None,
    }
}

fn refuge_for(subject: &Subject, offers: &[Offer]) -> (r: Option<String>)
    ensures
        r.model() == refuge(subject.model(), models(offers@)),
{
    match subject {
        Subject::Worktrees { main, cwd } => {
            if is_doomed(lent(cwd), offers) {
                Some(main.path.clone())
            } else {
                None
            }
        },
        _ => None,
    }
}

pub open spec fn entered_spec(rest: Seq<Answer>, path: Option<Seq<char>>) -> Progress<()> {
    match path {
        None => Progress::Finished((), rest),
        Some(path) => done_asked(rest, Asked::Enter(path)),
    }
}

/// Removes what was selected. Where the shell stands in what is to go it is
/// handed the main worktree, even if the removal failed.
pub open spec fn remove_selected_spec(
    rest: Seq<Answer>,
    assessment: AssessmentModel,
    selection: SelectionModel,
) -> Progress<Meant<()>> {
    let refuge = refuge(assessment.subject, selection.offers);
    match done_asked(rest, Asked::Spin(removal_progress(selection.offers))) {
        Progress::Waiting(q) => Progress::Waiting(q),
        Progress::Finished(_, rest) => match entered_spec(rest, refuge) {
            Progress::Waiting(q) => Progress::Waiting(q),
            Progress::Finished(_, rest) => match finish_spec(
                rest,
                selection.offers,
                selection.choice.forced(),
                assessment.dir,
            ) {
                Progress::Waiting(q) => Progress::Waiting(q),
                Progress::Finished(result, rest) => match done_asked(rest, Asked::Still) {
                    Progress::Waiting(q) => Progress::Waiting(q),
                    Progress::Finished(_, rest) => match handed_off_spec(rest, refuge) {
                        Progress::Waiting(q) => Progress::Waiting(q),
                        Progress::Finished(_, rest) => Progress::Finished(
                            match result {
                                Ok(_) => Ok(()),
                                Err(e) => Err(e),
                            },
                            rest,
                        ),
                    },
                },
            },
        },
    }
}

/// What was assessed is offered, and what is selected goes.
pub open spec fn offer_worktrees_spec(
    rest: Seq<Answer>,
    assessment: AssessmentModel,
    options: WorktreeRemoval<Seq<char>>,
) -> Progress<Meant<()>> {
    if assessment.offers.len() == 0 {
        match tell_asked(rest, Mark::Plain, "No worktrees to remove."@) {
            Progress::Waiting(q) => Progress::Waiting(q),
            Progress::Finished(_, rest) => Progress::Finished(Ok(()), rest),
        }
    } else {
        match select_removal_locals_spec(
            rest,
            assessment,
            options.target,
            options.force,
            "Remove worktrees (space to toggle, →/← all/none)"@,
        ) {
            Progress::Waiting(q) => Progress::Waiting(q),
            Progress::Finished(Err(e), rest) => Progress::Finished(Err(e), rest),
            Progress::Finished(Ok(None), rest) => Progress::Finished(Ok(()), rest),
            Progress::Finished(Ok(Some(selection)), rest) => remove_selected_spec(
                rest,
                assessment,
                selection,
            ),
        }
    }
}

/// `wt rm`: removes worktrees, by name or as the user picks.
pub open spec fn run_rm_spec(rest: Seq<Answer>, options: WorktreeRemoval<Seq<char>>) -> Progress<
    Meant<()>,
> {
    match worktree_list_in_spec(rest, None) {
        Progress::Waiting(q) => Progress::Waiting(q),
        Progress::Finished(Err(e), rest) => Progress::Finished(Err(e), rest),
        Progress::Finished(Ok(worktrees), rest) => match text_asked(rest, Asked::CurrentDirectory) {
            Progress::Waiting(q) => Progress::Waiting(q),
            Progress::Finished(cwd, rest) => match assess_worktrees_spec(rest, worktrees, cwd) {
                Progress::Waiting(q) => Progress::Waiting(q),
                Progress::Finished(Err(e), rest) => Progress::Finished(Err(e), rest),
                Progress::Finished(Ok(assessment), rest) => offer_worktrees_spec(
                    rest,
                    assessment,
                    options,
                ),
            },
        },
    }
}

fn remove_selected(talk: &mut Talk, assessment: &Assessment, selection: RemovalSelection) -> (r:
    Option<AppResult<()>>)
    ensures
        heard(r, *final(talk)) == remove_selected_spec(
            old(talk).rest(),
            assessment.model(),
            selection.model(),
        ),
{
    let refuge: Option<String> = refuge_for(&assessment.subject, selection.offers());
    let message: String = removal_progress_message(selection.offers());
    ask_done(talk, Request::Spin(message))?;
    if let Some(path) = &refuge {
        ask_done(talk, Request::Enter(path.clone()))?;
    }
    let forced: bool = selection.choice.is_forced();
    let result: AppResult<bool> = finish(
        talk,
        selection.offers(),
        forced,
        lent(&assessment.dir),
    )?;
    ask_done(talk, Request::Still)?;
    if let Some(path) = &refuge {
        handoff_cd(talk, path)?;
    }
    match result {
        Ok(_) => Some(Ok(())),
        Err(e) => Some(Err(e)),
    }
}

pub fn run_rm(talk: &mut Talk, options: &WorktreeRemoval) -> (r: Option<AppResult<()>>)
    ensures
        heard(r, *final(talk)) == run_rm_spec(old(talk).rest(), options.model()),
{
    let worktrees: Vec<Worktree> = match git::worktree_list(talk)? {
        Ok(trees) => trees,
        Err(e) => return Some(Err(e)),
    };
    let cwd: Option<String> = ask_text(talk, Request::CurrentDirectory)?;
    let assessment: Assessment = match assess_worktrees(talk, &worktrees, cwd)? {
        Ok(assessment) => assessment,
        Err(e) => return Some(Err(e)),
    };
    if assessment.offers.len() == 0 {
        tell(talk, Mark::Plain, "No worktrees to remove.".to_owned())?;
        return Some(Ok(()));
    }
    match select_removal_locals(
        talk,
        &assessment,
        options.target(),
        options.force(),
        "Remove worktrees (space to toggle, →/← all/none)",
    )? {
        Err(e) => Some(Err(e)),
        Ok(None) => Some(Ok(())),
        Ok(Some(selection)) => remove_selected(talk, &assessment, selection),
    }
}

// ---------------------------------------------------------------------------
// The names that `wt rm` accepts
// ---------------------------------------------------------------------------

/// The names that a worktree answers to: its branch, if it has one, and its
/// directory.
pub open spec fn names_of(branch: Option<Seq<char>>, path: Seq<char>) -> Words {
    let directory = match path::file_name(path) {
        Some(name) => Seq::empty().push(name),
        None => Seq::empty(),
    };
    match branch {
        Some(branch) => Seq::empty().push(branch) + directory,
        None => directory,
    }
}

pub fn worktree_names(branch: Option<&str>, path: &str) -> (r: Vec<String>)
    ensures
        models(r@) == names_of(borrowed(branch), path@),
{
    let mut r: Vec<String> = Vec::new();
    let directory: Option<String> = path::file_name_of(path);
    match branch {
        Some(branch) => r.push(branch.to_owned()),
        None => {},
    }
    match directory {
        Some(name) => r.push(name),
        None => {},
    }
    assert(models(r@) =~= names_of(borrowed(branch), path@));
    r
}

pub open spec fn not_main() -> spec_fn(Tree) -> Option<Tree> {
    |w: Tree|
        if w.is_main {
            None
        } else {
            Some(w)
        }
}

/// The worktrees that can be removed: every one but the main one, which git
/// will not remove. Detached and missing ones stay in.
pub fn removable(worktrees: &[Worktree]) -> (r: Vec<Worktree>)
    ensures
        models(r@) == keep_map(models(worktrees@), not_main()),
{
    let ghost all = models(worktrees@);
    let mut r: Vec<Worktree> = Vec::new();
    let mut i: usize = 0;
    proof {
        rows::lemma_take_all(all);
        assert(models(r@) =~= Seq::empty());
    }
    while i < worktrees.len()
        invariant
            i <= worktrees@.len(),
            all == models(worktrees@),
            models(r@) == keep_map(all.take(i as int), not_main()),
        decreases worktrees@.len() - i,
    {
        broadcast use crate::model::lemma_models_push;

        proof {
            rows::lemma_take_one_more(all, i as int);
        }
        if !worktrees[i].is_main {
            r.push(worktrees[i].clone());
        }
        i += 1;
    }
    r
}

/// The main worktree can never be removed.
pub proof fn main_worktree_is_never_removable(trees: Seq<Tree>, tree: Tree)
    ensures
        keep_map(trees, not_main()).contains(tree) ==> !tree.is_main,
{
    rows::lemma_keep_map_from(trees, not_main(), tree);
}

/// Every name of some worktrees, one worktree after the other.
pub open spec fn all_names(trees: Seq<Tree>) -> Words
    decreases trees.len(),
{
    if trees.len() == 0 {
        Seq::empty()
    } else {
        all_names(trees.drop_last()) + names_of(trees.last().branch, trees.last().path)
    }
}

/// The names that `wt rm` accepts, each once, in the worktrees' order.
pub open spec fn candidates(trees: Seq<Tree>) -> Words {
    unique(all_names(keep_map(trees, not_main())))
}

pub open spec fn removal_candidates_spec(rest: Seq<Answer>) -> Progress<Meant<Words>> {
    match worktree_list_in_spec(rest, None) {
        Progress::Waiting(q) => Progress::Waiting(q),
        Progress::Finished(Err(e), rest) => Progress::Finished(Err(e), rest),
        Progress::Finished(Ok(trees), rest) => Progress::Finished(Ok(candidates(trees)), rest),
    }
}

/// Each candidate is offered once, and each is a name of some worktree other
/// than the main one.
pub proof fn candidates_are_unique(trees: Seq<Tree>)
    ensures
        candidates(trees).no_duplicates(),
        forall|name: Seq<char>|
            candidates(trees).contains(name) <==> all_names(
                keep_map(trees, not_main()),
            ).contains(name),
{
    rows::lemma_unique(all_names(keep_map(trees, not_main())));
}

/// The names that some worktrees answer to.
pub fn candidate_names(worktrees: &[Worktree]) -> (r: Vec<String>)
    ensures
        models(r@) == candidates(models(worktrees@)),
{
    let trees: Vec<Worktree> = removable(worktrees);
    let ghost all = models(trees@);
    let mut r: Vec<String> = Vec::new();
    let mut i: usize = 0;
    proof {
        rows::lemma_take_all(all);
        assert(models(r@) =~= Seq::empty());
        assert(all_names(all.take(0)) =~= Seq::empty());
    }
    while i < trees.len()
        invariant
            i <= trees@.len(),
            all == models(trees@),
            models(r@) == unique(all_names(all.take(i as int))),
        decreases trees@.len() - i,
    {
        let ghost before = all_names(all.take(i as int));
        let names: Vec<String> = worktree_names(lent(&trees[i].branch), &trees[i].path);
        let ghost ns = models(names@);
        let mut j: usize = 0;
        proof {
            rows::lemma_take_one_more(all, i as int);
            rows::lemma_take_all(ns);
            assert(before + ns.take(0) =~= before);
        }
        while j < names.len()
            invariant
                j <= names@.len(),
                ns == models(names@),
                models(r@) == unique(before + ns.take(j as int)),
            decreases names@.len() - j,
        {
            broadcast use crate::model::lemma_models_push;

            proof {
                rows::lemma_take_one_more(ns, j as int);
                assert((before + ns.take(j + 1)).drop_last() =~= before + ns.take(j as int));
                assert((before + ns.take(j + 1)).last() == ns[j as int]);
            }
            if !git::is_among(&r, &names[j]) {
                r.push(names[j].clone());
            }
            j += 1;
        }
        assert(ns.take(j as int) =~= ns);
        i += 1;
    }
    r
}

/// The names that `wt rm` accepts, for completion. `.` is left off: it names
/// the worktree one is in rather than any in particular.
pub fn removal_candidates(talk: &mut Talk) -> (r: Option<AppResult<Vec<String>>>)
    ensures
        heard(r, *final(talk)) == removal_candidates_spec(old(talk).rest()),
{
    match git::worktree_list(talk)? {
        Err(e) => Some(Err(e)),
        Ok(trees) => Some(Ok(candidate_names(&trees))),
    }
}

} // verus!
