//! The branches that a verb can reach.
use vstd::prelude::*;
use vstd::string::*;

use crate::ask::{args3, ask_text, flag_asked, lent, owned, text_asked, unanswered};
use crate::error::{AppResult, Error, IoError, IoKind, Meant};
use crate::git::worktrees::{worktree_list_in_spec, Tree};
use crate::git::{self, Worktree};
use crate::grammar::{Verb, Words};
use crate::model::{borrowed, models, Modelled};
use crate::path;
use crate::rows::{self, keep_map};
use crate::table::{self, Table};
use crate::talk::{
    asked, heard, Answer, Asked, Picked, Progress, Reply, Request, Row, Talk,
};
use crate::text;

use super::reports::is_interactive;

verus! {

/// Every branch that a list offers, and the worktrees that hold some of them.
#[derive(Debug, PartialEq, Eq)]
pub struct Catalogue {
    pub current: Option<String>,
    pub held: Table<String>,
    pub local: Vec<String>,
    pub remote_only: Vec<String>,
}

/// What a [`Catalogue`] means.
pub struct CatalogueModel {
    pub current: Option<Seq<char>>,
    pub held: Seq<(Seq<char>, Seq<char>)>,
    pub local: Words,
    pub remote_only: Words,
}

impl Modelled for Catalogue {
    type Model = CatalogueModel;

    open spec fn model(&self) -> CatalogueModel {
        CatalogueModel {
            current: self.current.model(),
            held: self.held.model(),
            local: self.local.model(),
            remote_only: self.remote_only.model(),
        }
    }
}

/// A worktree that can be entered.
pub open spec fn live() -> spec_fn(Tree) -> Option<Tree> {
    |w: Tree|
        if w.prunable {
            None
        } else {
            Some(w)
        }
}

/// The worktrees that a verb can reach: one that is registered and gone from
/// disk holds nothing.
pub open spec fn live_worktrees_spec(rest: Seq<Answer>) -> Progress<Meant<Seq<Tree>>> {
    match worktree_list_in_spec(rest, None) {
        Progress::Waiting(q) => Progress::Waiting(q),
        Progress::Finished(Err(e), rest) => Progress::Finished(Err(e), rest),
        Progress::Finished(Ok(trees), rest) => Progress::Finished(Ok(keep_map(trees, live())), rest),
    }
}

/// Nothing that is gone from disk is live, and everything else is.
pub proof fn missing_worktrees_are_not_live(trees: Seq<Tree>, tree: Tree)
    ensures
        keep_map(trees, live()).contains(tree) <==> trees.contains(tree) && !tree.prunable,
{
    rows::lemma_keep_map_from(trees, live(), tree);
    if trees.contains(tree) && !tree.prunable {
        let i = choose|i: int| 0 <= i < trees.len() && trees[i] == tree;
        assert(live()(trees[i]) == Some(tree));
    }
    if keep_map(trees, live()).contains(tree) {
        let i = choose|i: int| 0 <= i < trees.len() && live()(#[trigger] trees[i]) == Some(tree);
        assert(trees[i] == tree);
    }
}

/// The worktrees among some that can be entered.
pub fn live_among(trees: &[Worktree]) -> (r: Vec<Worktree>)
    ensures
        models(r@) == keep_map(models(trees@), live()),
{
    let ghost all = models(trees@);
    let mut r: Vec<Worktree> = Vec::new();
    let mut i: usize = 0;
    proof {
        rows::lemma_take_all(all);
        assert(models(r@) =~= Seq::empty());
    }
    while i < trees.len()
        invariant
            i <= trees@.len(),
            all == models(trees@),
            models(r@) == keep_map(all.take(i as int), live()),
        decreases trees@.len() - i,
    {
        broadcast use crate::model::lemma_models_push;

        proof {
            rows::lemma_take_one_more(all, i as int);
        }
        if !trees[i].prunable {
            r.push(trees[i].clone());
        }
        i += 1;
    }
    r
}

pub fn live_worktrees(talk: &mut Talk) -> (r: Option<AppResult<Vec<Worktree>>>)
    ensures
        heard(r, *final(talk)) == live_worktrees_spec(old(talk).rest()),
{
    match git::worktree_list(talk)? {
        Err(e) => Some(Err(e)),
        Ok(trees) => Some(Ok(live_among(&trees))),
    }
}

/// The local branches, and those that only the remote has. A remote that
/// cannot be read leaves the local ones alone.
pub open spec fn reachable_branches_spec(rest: Seq<Answer>, remote: Seq<char>) -> Progress<
    Meant<(Words, Words)>,
> {
    match git::local_branches_spec(rest) {
        Progress::Waiting(q) => Progress::Waiting(q),
        Progress::Finished(Err(e), rest) => Progress::Finished(Err(e), rest),
        Progress::Finished(Ok(local), rest) => match git::remote_only_branches_spec(
            rest,
            local,
            remote,
        ) {
            Progress::Waiting(q) => Progress::Waiting(q),
            Progress::Finished(remote_only, rest) => Progress::Finished(
                Ok(
                    (
                        local,
                        match remote_only {
                            Ok(names) => names,
                            Err(_) => Seq::empty(),
                        },
                    ),
                ),
                rest,
            ),
        },
    }
}

pub fn reachable_branches(talk: &mut Talk, remote: &str) -> (r: Option<
    AppResult<(Vec<String>, Vec<String>)>,
>)
    ensures
        heard(r, *final(talk)) == reachable_branches_spec(old(talk).rest(), remote@),
{
    let local: Vec<String> = match git::local_branches(talk)? {
        Ok(local) => local,
        Err(e) => return Some(Err(e)),
    };
    let remote_only: Vec<String> = match git::remote_only_branches(talk, &local, remote)? {
        Ok(names) => names,
        Err(_) => {
            let none: Vec<String> = Vec::new();
            assert(models(none@) =~= Seq::empty());
            none
        },
    };
    Some(Ok((local, remote_only)))
}

/// The branches that worktrees hold, each with the path that is shown for it.
pub open spec fn held_paths(trees: Seq<Tree>, home: Option<Seq<char>>) -> Seq<
    (Seq<char>, Seq<char>),
>
    decreases trees.len(),
{
    if trees.len() == 0 {
        Seq::empty()
    } else {
        let before = held_paths(trees.drop_last(), home);
        match trees.last().branch {
            Some(branch) => table::put(
                before,
                branch,
                path::displayed(trees.last().path, home),
            ),
            None => before,
        }
    }
}

/// Every branch that the list offers, paired with the worktree that holds it.
/// A repository without branches is an error.
pub open spec fn build_catalogue_spec(
    rest: Seq<Answer>,
    current: Option<Seq<char>>,
    remote: Seq<char>,
    trees: Seq<Tree>,
) -> Progress<Meant<CatalogueModel>> {
    match reachable_branches_spec(rest, remote) {
        Progress::Waiting(q) => Progress::Waiting(q),
        Progress::Finished(Err(e), rest) => Progress::Finished(Err(e), rest),
        Progress::Finished(Ok((local, remote_only)), rest) => if local.len() == 0
            && remote_only.len() == 0 {
            Progress::Finished(Err(Error::NoBranches), rest)
        } else {
            match text_asked(rest, Asked::Home) {
                Progress::Waiting(q) => Progress::Waiting(q),
                Progress::Finished(home, rest) => Progress::Finished(
                    Ok(
                        CatalogueModel {
                            current,
                            held: held_paths(trees, home),
                            local,
                            remote_only,
                        },
                    ),
                    rest,
                ),
            }
        },
    }
}

/// The branches that worktrees hold, each with the path that is shown for it.
pub fn paths_held(trees: &[Worktree], home: Option<&str>) -> (r: Table<String>)
    ensures
        r.model() == held_paths(models(trees@), borrowed(home)),
        table::distinct(r.model()),
{
    let ghost all = models(trees@);
    let mut held: Table<String> = Table::new();
    let mut i: usize = 0;
    proof {
        rows::lemma_take_all(all);
    }
    while i < trees.len()
        invariant
            i <= trees@.len(),
            all == models(trees@),
            held.model() == held_paths(all.take(i as int), borrowed(home)),
            table::distinct(held.model()),
        decreases trees@.len() - i,
    {
        proof {
            rows::lemma_take_one_more(all, i as int);
        }
        match &trees[i].branch {
            Some(branch) => held.put(branch.clone(), path::display(&trees[i].path, home)),
            None => {},
        }
        i += 1;
    }
    held
}

pub fn build_catalogue(
    talk: &mut Talk,
    current: Option<&str>,
    remote: &str,
    worktrees: &[Worktree],
) -> (r: Option<AppResult<Catalogue>>)
    ensures
        heard(r, *final(talk)) == build_catalogue_spec(
            old(talk).rest(),
            borrowed(current),
            remote@,
            models(worktrees@),
        ),
{
    let branches: (Vec<String>, Vec<String>) = match reachable_branches(talk, remote)? {
        Ok(branches) => branches,
        Err(e) => return Some(Err(e)),
    };
    if branches.0.len() == 0 && branches.1.len() == 0 {
        return Some(Err(Error::NoBranches));
    }
    let home: Option<String> = ask_text(talk, Request::Home)?;
    let held: Table<String> = paths_held(worktrees, lent(&home));
    Some(
        Ok(
            Catalogue {
                current: owned(current),
                held,
                local: branches.0,
                remote_only: branches.1,
            },
        ),
    )
}

/// The row of a branch. One that another worktree holds shows where; `br`
/// promises a checkout here, which git refuses for such a branch, so there its
/// row says what reaches it and cannot be selected.
pub open spec fn branch_row(catalogue: CatalogueModel, verb: Verb, name: Seq<char>) -> Row<
    Seq<char>,
> {
    let here = catalogue.current == Some(name);
    let holder = if here {
        None
    } else {
        table::get(catalogue.held, name)
    };
    Row {
        name,
        detail: match holder {
            None => Seq::empty(),
            Some(path) => if verb == Verb::Here {
                "in "@ + path + " — use `perch`"@
            } else {
                path
            },
        },
        selectable: holder is None || verb != Verb::Here,
        ticked: here,
    }
}

/// The rows of some branches, in their order.
pub open spec fn branch_rows(catalogue: CatalogueModel, verb: Verb, names: Words) -> Seq<
    Row<Seq<char>>,
> {
    Seq::new(names.len(), |i: int| branch_row(catalogue, verb, names[i]))
}

fn row_for(catalogue: &Catalogue, verb: Verb, name: &str) -> (r: Row)
    ensures
        r.model() == branch_row(catalogue.model(), verb, name@),
{
    let here: bool = match &catalogue.current {
        Some(current) => text::same(current, name),
        None => false,
    };
    let holder: Option<&String> = if here {
        None
    } else {
        catalogue.held.get(name)
    };
    let detail: String = match holder {
        None => {
            let none: String = String::new();
            assert(none@ =~= Seq::empty());
            none
        },
        Some(path) => {
            if verb == Verb::Here {
                text::joined3("in ", path, " — use `perch`")
            } else {
                path.clone()
            }
        },
    };
    Row {
        name: name.to_owned(),
        detail,
        selectable: holder.is_none() || verb != Verb::Here,
        ticked: here,
    }
}

pub fn rows_for(catalogue: &Catalogue, verb: Verb, names: &[String]) -> (r: Vec<Row>)
    ensures
        models(r@) == branch_rows(catalogue.model(), verb, models(names@)),
{
    let ghost all = branch_rows(catalogue.model(), verb, models(names@));
    let mut r: Vec<Row> = Vec::new();
    let mut i: usize = 0;
    proof {
        rows::lemma_take_all(all);
        assert(models(r@) =~= Seq::empty());
    }
    while i < names.len()
        invariant
            i <= names@.len(),
            all == branch_rows(catalogue.model(), verb, models(names@)),
            models(r@) == all.take(i as int),
        decreases names@.len() - i,
    {
        broadcast use crate::model::lemma_models_push;

        proof {
            rows::lemma_take_one_more(all, i as int);
        }
        let line: Row = row_for(catalogue, verb, &names[i]);
        assert(line.model() == all[i as int]);
        r.push(line);
        i += 1;
    }
    assert(all.take(i as int) =~= all);
    r
}

/// Every verb draws the same list: a verb changes what selecting a row does,
/// never which branches there are or in which order.
pub proof fn verbs_draw_the_same_list(catalogue: CatalogueModel, names: Words, one: Verb, other: Verb)
    ensures
        branch_rows(catalogue, one, names).len() == branch_rows(catalogue, other, names).len(),
        forall|i: int|
            0 <= i < names.len() ==> (#[trigger] branch_rows(catalogue, one, names)[i]).name
                == branch_rows(catalogue, other, names)[i].name,
        forall|i: int|
            0 <= i < names.len() && table::get(catalogue.held, names[i]) is None
                ==> #[trigger] branch_rows(catalogue, one, names)[i] == branch_rows(
                catalogue,
                other,
                names,
            )[i],
{
}

/// What the user picked from the list; nothing where nobody can be asked.
pub open spec fn picked_spec(
    rest: Seq<Answer>,
    catalogue: CatalogueModel,
    verb: Verb,
    allow_create: bool,
) -> Progress<Meant<Option<Picked<Seq<char>>>>> {
    match flag_asked(rest, Asked::Interactive) {
        Progress::Waiting(q) => Progress::Waiting(q),
        Progress::Finished(false, rest) => Progress::Finished(Ok(None), rest),
        Progress::Finished(true, rest) => match asked(
            rest,
            Asked::PickBranch {
                prompt: verb.prompt_spec(),
                local: branch_rows(catalogue, verb, catalogue.local),
                remote_only: branch_rows(catalogue, verb, catalogue.remote_only),
                allow_create,
            },
        ) {
            Progress::Waiting(q) => Progress::Waiting(q),
            Progress::Finished(a, rest) => Progress::Finished(
                match a {
                    Answer::Picked(r) => r,
                    _ => Err(Error::Io(unanswered())),
                },
                rest,
            ),
        },
    }
}

/// Lets the user pick from the list.
pub fn pick(talk: &mut Talk, catalogue: &Catalogue, verb: Verb, allow_create: bool) -> (r: Option<
    AppResult<Option<Picked>>,
>)
    ensures
        heard(r, *final(talk)) == picked_spec(
            old(talk).rest(),
            catalogue.model(),
            verb,
            allow_create,
        ),
{
    if !is_interactive(talk)? {
        return Some(Ok(None));
    }
    let request: Request = Request::PickBranch {
        prompt: verb.prompt().to_owned(),
        local: rows_for(catalogue, verb, &catalogue.local),
        remote_only: rows_for(catalogue, verb, &catalogue.remote_only),
        allow_create,
    };
    match talk.ask(request)? {
        Reply::Picked(r) => Some(r),
        _ => Some(
            Err(Error::Io(IoError { kind: IoKind::Other, message: "no answer".to_owned() })),
        ),
    }
}

/// The branch picked for a verb that creates none.
pub open spec fn select_branch_spec(
    rest: Seq<Answer>,
    current: Option<Seq<char>>,
    remote: Seq<char>,
    trees: Seq<Tree>,
    verb: Verb,
) -> Progress<Meant<Option<Seq<char>>>> {
    match build_catalogue_spec(rest, current, remote, trees) {
        Progress::Waiting(q) => Progress::Waiting(q),
        Progress::Finished(Err(e), rest) => Progress::Finished(Err(e), rest),
        Progress::Finished(Ok(catalogue), rest) => match picked_spec(
            rest,
            catalogue,
            verb,
            false,
        ) {
            Progress::Waiting(q) => Progress::Waiting(q),
            Progress::Finished(Err(e), rest) => Progress::Finished(Err(e), rest),
            Progress::Finished(Ok(Some(Picked::Existing(name))), rest) => Progress::Finished(
                Ok(Some(name)),
                rest,
            ),
            Progress::Finished(Ok(_), rest) => Progress::Finished(Ok(None), rest),
        },
    }
}

pub fn select_branch(
    talk: &mut Talk,
    current: Option<&str>,
    remote: &str,
    worktrees: &[Worktree],
    verb: Verb,
) -> (r: Option<AppResult<Option<String>>>)
    ensures
        heard(r, *final(talk)) == select_branch_spec(
            old(talk).rest(),
            borrowed(current),
            remote@,
            models(worktrees@),
            verb,
        ),
{
    let catalogue: Catalogue = match build_catalogue(talk, current, remote, worktrees)? {
        Ok(catalogue) => catalogue,
        Err(e) => return Some(Err(e)),
    };
    match pick(talk, &catalogue, verb, false)? {
        Err(e) => Some(Err(e)),
        Ok(Some(Picked::Existing(name))) => Some(Ok(Some(name))),
        Ok(_) => Some(Ok(None)),
    }
}

/// Whether a branch of this name is local or on the remote. The remote is
/// asked only about what is not local, and one that cannot be read has
/// nothing.
pub open spec fn is_reachable_spec(rest: Seq<Answer>, name: Seq<char>, remote: Seq<char>) -> Progress<
    Meant<bool>,
> {
    match git::local_branches_spec(rest) {
        Progress::Waiting(q) => Progress::Waiting(q),
        Progress::Finished(Err(e), rest) => Progress::Finished(Err(e), rest),
        Progress::Finished(Ok(local), rest) => if local.contains(name) {
            Progress::Finished(Ok(true), rest)
        } else {
            match git::remote_only_branches_spec(rest, local, remote) {
                Progress::Waiting(q) => Progress::Waiting(q),
                Progress::Finished(names, rest) => Progress::Finished(
                    Ok(names matches Ok(names) && names.contains(name)),
                    rest,
                ),
            }
        },
    }
}

pub fn is_reachable(talk: &mut Talk, name: &str, remote: &str) -> (r: Option<AppResult<bool>>)
    ensures
        heard(r, *final(talk)) == is_reachable_spec(old(talk).rest(), name@, remote@),
{
    let local: Vec<String> = match git::local_branches(talk)? {
        Ok(local) => local,
        Err(e) => return Some(Err(e)),
    };
    if git::is_among(&local, name) {
        return Some(Ok(true));
    }
    match git::remote_only_branches(talk, &local, remote)? {
        Ok(names) => Some(Ok(git::is_among(&names, name))),
        Err(_) => Some(Ok(false)),
    }
}

/// A branch can be reached exactly if the list of branches holds it: one and
/// the same reading of git decides both.
pub proof fn reachable_is_what_the_list_holds(
    rest: Seq<Answer>,
    name: Seq<char>,
    remote: Seq<char>,
)
    ensures
        reachable_branches_spec(rest, remote) matches Progress::Finished(Ok((local, remote_only)), _)
            ==> (is_reachable_spec(rest, name, remote) matches Progress::Finished(Ok(found), _)
            && found == (local.contains(name) || remote_only.contains(name))),
        reachable_branches_spec(rest, remote) matches Progress::Finished(Err(e), left) ==>
            is_reachable_spec(rest, name, remote) == Progress::<Meant<bool>>::Finished(
            Err(e),
            left,
        ),
{
}

/// No branch is listed both as local and as the remote's alone.
pub proof fn local_and_remote_only_are_disjoint(
    rest: Seq<Answer>,
    remote: Seq<char>,
    name: Seq<char>,
)
    ensures
        reachable_branches_spec(rest, remote) matches Progress::Finished(Ok((local, remote_only)), _)
            ==> !(local.contains(name) && remote_only.contains(name)),
{
    if let Progress::Finished(Ok(local), left) = git::local_branches_spec(rest) {
        match git::run_in_spec(
            left,
            None,
            args3("for-each-ref"@, "--format=%(refname:short)"@, "refs/remotes/"@ + remote + "/"@),
        ) {
            Progress::Finished(Ok(output), _) => {
                rows::lemma_keep_map_from(
                    text::lines(output),
                    git::remote_only(local, remote),
                    name,
                );
            },
            _ => {},
        }
    }
}

} // verus!
