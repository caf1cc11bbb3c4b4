//! What could be removed, and what that would destroy.
use vstd::prelude::*;
use vstd::string::*;

use crate::app::quoting::{shell_quote, shell_word};
use crate::app::reports::{display_path, display_path_spec, plural, plural_spec};
use crate::app::signs::Sign;
use crate::app::wt::{dirty_spec, main_of, main_of_spec, names_of, worktree_names};
use crate::ask::{lent, owned};
use crate::error::{AppResult, Error, Meant};
use crate::git::equivalence::equivalent_branches_spec;
use crate::git::refs::unmerged_branches_spec;
use crate::git::worktrees::{holding, Tree};
use crate::git::{self, Ground, Proof, StaleBranch, Unmerged, Worktree};
use crate::grammar::{said, Words};
use crate::model::{borrowed, models, Modelled};
use crate::path;
use crate::rows::{self, first_of, keep_map};
use crate::table::{self, Table};
use crate::talk::{heard, Answer, Progress, Row, Talk};
use crate::text;

use super::{Assessment, AssessmentModel, NamedOffer, NamedOfferModel, Offer, Subject};

verus! {

/// What an offer means.
pub type Meaning = Offer<Seq<char>>;

/// Why git would refuse to delete each of some branches.
pub type Refusals = Seq<(Seq<char>, Unmerged)>;

/// Why git would refuse to delete a branch, if it would.
pub open spec fn refusal_of(refusals: Refusals, branch: Option<Seq<char>>) -> Option<Unmerged> {
    match branch {
        Some(branch) => table::get(refusals, branch),
        None => None,
    }
}

fn find_refusal(refusals: &Table<Unmerged>, branch: &Option<String>) -> (r: Option<Unmerged>)
    ensures
        r == refusal_of(refusals.model(), branch.model()),
{
    match branch {
        None => None,
        Some(branch) => match refusals.get(branch) {
            Some(why) => Some(*why),
            None => None,
        },
    }
}

// ---------------------------------------------------------------------------
// Worktrees
// ---------------------------------------------------------------------------

/// What a worktree goes by: its branch, its directory's name, or its path.
pub open spec fn known_as(tree: Tree) -> Seq<char> {
    let names = names_of(tree.branch, tree.path);
    if names.len() > 0 {
        names[0]
    } else {
        tree.path
    }
}

fn name_of(tree: &Worktree) -> (r: String)
    ensures
        r@ == known_as(tree.model()),
{
    let names: Vec<String> = worktree_names(lent(&tree.branch), &tree.path);
    if names.len() > 0 {
        assert(models(names@)[0] == names@[0]@);
        names[0].clone()
    } else {
        assert(models(names@).len() == 0);
        tree.path.clone()
    }
}

pub open spec fn worktree_offer(id: nat, tree: Tree, dirty: bool, refusals: Refusals) -> Meaning {
    Offer {
        id: id as usize,
        name: known_as(tree),
        branch: tree.branch,
        worktree: Some(tree.path),
        missing: tree.prunable,
        dirty,
        unmerged: refusal_of(refusals, tree.branch),
        proof: None,
        held: None,
        ground: None,
        ticked: false,
    }
}

/// The worktrees other than the main one, each looked into, behind those found
/// already.
pub open spec fn worktree_offers_spec(
    rest: Seq<Answer>,
    trees: Seq<Tree>,
    refusals: Refusals,
    found: Seq<Meaning>,
) -> Progress<Seq<Meaning>>
    decreases trees.len(),
{
    if trees.len() == 0 {
        Progress::Finished(found, rest)
    } else if trees[0].is_main {
        worktree_offers_spec(rest, trees.drop_first(), refusals, found)
    } else {
        match dirty_spec(rest, trees[0]) {
            Progress::Waiting(q) => Progress::Waiting(q),
            Progress::Finished(dirty, rest) => worktree_offers_spec(
                rest,
                trees.drop_first(),
                refusals,
                found.push(worktree_offer(found.len(), trees[0], dirty, refusals)),
            ),
        }
    }
}

fn worktree_offers(talk: &mut Talk, trees: &[Worktree], refusals: &Table<Unmerged>) -> (r: Option<
    Vec<Offer>,
>)
    ensures
        heard(r, *final(talk)) == worktree_offers_spec(
            old(talk).rest(),
            models(trees@),
            refusals.model(),
            Seq::empty(),
        ),
{
    let ghost all = models(trees@);
    let mut found: Vec<Offer> = Vec::new();
    let mut i: usize = 0;
    proof {
        rows::lemma_take_all(all);
        assert(models(found@) =~= Seq::empty());
    }
    while i < trees.len()
        invariant
            i <= trees@.len(),
            all == models(trees@),
            worktree_offers_spec(old(talk).rest(), all, refusals.model(), Seq::empty())
                == worktree_offers_spec(
                talk.rest(),
                all.skip(i as int),
                refusals.model(),
                models(found@),
            ),
        decreases trees@.len() - i,
    {
        broadcast use crate::model::lemma_models_push;

        proof {
            rows::lemma_take_one_more(all, i as int);
        }
        let tree: &Worktree = &trees[i];
        if !tree.is_main {
            let dirty: bool = if tree.prunable {
                false
            } else {
                git::worktree_dirty(talk, &tree.path)?
            };
            let offer: Offer = Offer {
                id: found.len(),
                name: name_of(tree),
                branch: owned(lent(&tree.branch)),
                worktree: Some(tree.path.clone()),
                missing: tree.prunable,
                dirty,
                unmerged: find_refusal(refusals, &tree.branch),
                proof: None,
                held: None,
                ground: None,
                ticked: false,
            };
            assert(offer.model() == worktree_offer(
                models(found@).len(),
                tree.model(),
                dirty,
                refusals.model(),
            ));
            found.push(offer);
        }
        i += 1;
    }
    Some(found)
}

/// Every worktree but the main one. What their branches hold is judged from
/// the main worktree: every branch is merged into itself, so a worktree asked
/// about its own would never see anything to lose.
pub open spec fn assess_worktrees_spec(
    rest: Seq<Answer>,
    trees: Seq<Tree>,
    cwd: Option<Seq<char>>,
) -> Progress<Meant<AssessmentModel>> {
    match main_of_spec(trees) {
        Err(e) => Progress::Finished(Err(e), rest),
        Ok(main) => match unmerged_branches_spec(rest, Some(main.path)) {
            Progress::Waiting(q) => Progress::Waiting(q),
            Progress::Finished(Err(e), rest) => Progress::Finished(Err(e), rest),
            Progress::Finished(Ok(refusals), rest) => match worktree_offers_spec(
                rest,
                trees,
                refusals,
                Seq::empty(),
            ) {
                Progress::Waiting(q) => Progress::Waiting(q),
                Progress::Finished(offers, rest) => Progress::Finished(
                    Ok(
                        AssessmentModel {
                            subject: Subject::Worktrees { main, cwd },
                            dir: Some(main.path),
                            offers,
                        },
                    ),
                    rest,
                ),
            },
        },
    }
}

pub fn assess_worktrees(talk: &mut Talk, trees: &[Worktree], cwd: Option<String>) -> (r: Option<
    AppResult<Assessment>,
>)
    ensures
        heard(r, *final(talk)) == assess_worktrees_spec(
            old(talk).rest(),
            models(trees@),
            cwd.model(),
        ),
{
    let main: Worktree = match main_of(trees) {
        Ok(main) => main,
        Err(e) => return Some(Err(e)),
    };
    let refusals: Table<Unmerged> = match git::unmerged_branches(talk, Some(&main.path))? {
        Ok(refusals) => refusals,
        Err(e) => return Some(Err(e)),
    };
    let offers: Vec<Offer> = worktree_offers(talk, trees, &refusals)?;
    let dir: Option<String> = Some(main.path.clone());
    Some(Ok(Assessment { subject: Subject::Worktrees { main, cwd }, dir, offers }))
}

// ---------------------------------------------------------------------------
// Stale branches
// ---------------------------------------------------------------------------

/// What a [`StaleBranch`] means.
pub type Stale = StaleBranch<Seq<char>>;

/// A stale branch, unless it is where the shell is about to go.
pub open spec fn sweepable(destination: Option<Seq<char>>) -> spec_fn(Stale) -> Option<Stale> {
    |stale: Stale|
        if destination == Some(stale.name) {
            None
        } else {
            Some(stale)
        }
}

fn sweepable_branches(stale: &[StaleBranch], destination: Option<&str>) -> (r: Vec<StaleBranch>)
    ensures
        models(r@) == keep_map(models(stale@), sweepable(borrowed(destination))),
{
    let ghost all = models(stale@);
    let ghost f = sweepable(borrowed(destination));
    let mut r: Vec<StaleBranch> = Vec::new();
    let mut i: usize = 0;
    proof {
        rows::lemma_take_all(all);
        assert(models(r@) =~= Seq::empty());
    }
    while i < stale.len()
        invariant
            i <= stale@.len(),
            all == models(stale@),
            f == sweepable(borrowed(destination)),
            models(r@) == keep_map(all.take(i as int), f),
        decreases stale@.len() - i,
    {
        broadcast use crate::model::lemma_models_push;

        proof {
            rows::lemma_take_one_more(all, i as int);
        }
        let entered: bool = match destination {
            Some(name) => text::same(name, &stale[i].name),
            None => false,
        };
        if !entered {
            r.push(stale[i].clone());
        }
        i += 1;
    }
    r
}

/// The name of a branch, where git would refuse to delete it.
pub open spec fn at_risk(refusals: Refusals) -> spec_fn(Stale) -> Option<Seq<char>> {
    |stale: Stale|
        if table::get(refusals, stale.name) is Some {
            Some(stale.name)
        } else {
            None
        }
}

/// The names that git would refuse to delete, borrowed.
fn names_at_risk<'a>(stale: &'a [StaleBranch], refusals: &Table<Unmerged>) -> (r: Vec<&'a str>)
    ensures
        said(r@) == keep_map(models(stale@), at_risk(refusals.model())),
{
    let ghost all = models(stale@);
    let ghost f = at_risk(refusals.model());
    let mut r: Vec<&'a str> = Vec::new();
    let mut i: usize = 0;
    proof {
        rows::lemma_take_all(all);
        assert(said(r@) =~= Seq::empty());
    }
    while i < stale.len()
        invariant
            i <= stale@.len(),
            all == models(stale@),
            f == at_risk(refusals.model()),
            said(r@) == keep_map(all.take(i as int), f),
        decreases stale@.len() - i,
    {
        proof {
            rows::lemma_take_one_more(all, i as int);
        }
        let name: &'a str = stale[i].name.as_str();
        if refusals.get(name).is_some() {
            let ghost had = r@;
            r.push(name);
            assert(said(r@) =~= said(had).push(name@));
        }
        i += 1;
    }
    r
}

pub open spec fn stale_offer(
    id: nat,
    stale: Stale,
    holder: Option<Tree>,
    dirty: bool,
    refusals: Refusals,
    proofs: Seq<(Seq<char>, Proof<Seq<char>>)>,
    old_branch: Option<Seq<char>>,
) -> Meaning {
    let name = stale.name;
    let proof_of = table::get(proofs, name);
    Offer {
        id: id as usize,
        name,
        branch: Some(name),
        worktree: match holder {
            Some(tree) => Some(tree.path),
            None => None,
        },
        missing: holder matches Some(tree) && tree.prunable,
        dirty,
        unmerged: if proof_of is Some {
            None
        } else {
            table::get(refusals, name)
        },
        proof: proof_of,
        held: None,
        ground: Some(stale.ground),
        ticked: old_branch == Some(name),
    }
}

/// Whether the worktree that holds a branch is dirty, where one does.
pub open spec fn holder_dirty_spec(rest: Seq<Answer>, holder: Option<Tree>) -> Progress<bool> {
    match holder {
        None => Progress::Finished(false, rest),
        Some(tree) => dirty_spec(rest, tree),
    }
}

/// Stale branches, each looked into, behind those found already.
/// One that the main worktree holds is left out: git removes neither.
pub open spec fn stale_offers_spec(
    rest: Seq<Answer>,
    stale: Seq<Stale>,
    trees: Seq<Tree>,
    refusals: Refusals,
    proofs: Seq<(Seq<char>, Proof<Seq<char>>)>,
    old_branch: Option<Seq<char>>,
    found: Seq<Meaning>,
) -> Progress<Seq<Meaning>>
    decreases stale.len(),
{
    if stale.len() == 0 {
        Progress::Finished(found, rest)
    } else {
        let holder = first_of(trees, holding(stale[0].name));
        if holder matches Some(tree) && tree.is_main {
            stale_offers_spec(
                rest,
                stale.drop_first(),
                trees,
                refusals,
                proofs,
                old_branch,
                found,
            )
        } else {
            match holder_dirty_spec(rest, holder) {
                Progress::Waiting(q) => Progress::Waiting(q),
                Progress::Finished(dirty, rest) => stale_offers_spec(
                    rest,
                    stale.drop_first(),
                    trees,
                    refusals,
                    proofs,
                    old_branch,
                    found.push(
                        stale_offer(
                            found.len(),
                            stale[0],
                            holder,
                            dirty,
                            refusals,
                            proofs,
                            old_branch,
                        ),
                    ),
                ),
            }
        }
    }
}

fn is_the_one(name: Option<&str>, other: &str) -> (r: bool)
    ensures
        r == (borrowed(name) == Some(other@)),
{
    match name {
        Some(name) => text::same(name, other),
        None => false,
    }
}

/// One stale branch, once the worktree that holds it has been looked into.
fn offer_for_stale(
    id: usize,
    stale: &StaleBranch,
    holder: Option<Worktree>,
    dirty: bool,
    refusals: &Table<Unmerged>,
    proofs: &Table<Proof>,
    old_branch: Option<&str>,
) -> (r: Offer)
    ensures
        r.model() == stale_offer(
            id as nat,
            stale.model(),
            holder.model(),
            dirty,
            refusals.model(),
            proofs.model(),
            borrowed(old_branch),
        ),
{
    let name: &str = stale.name.as_str();
    let proof_of: Option<Proof> = match proofs.get(name) {
        Some(found) => Some(found.clone()),
        None => None,
    };
    let unmerged: Option<Unmerged> = if proof_of.is_some() {
        None
    } else {
        match refusals.get(name) {
            Some(why) => Some(*why),
            None => None,
        }
    };
    let missing: bool = match &holder {
        Some(tree) => tree.prunable,
        None => false,
    };
    let worktree: Option<String> = match holder {
        Some(tree) => Some(tree.path),
        None => None,
    };
    Offer {
        id,
        name: name.to_owned(),
        branch: Some(name.to_owned()),
        worktree,
        missing,
        dirty,
        unmerged,
        proof: proof_of,
        held: None,
        ground: Some(stale.ground),
        ticked: is_the_one(old_branch, name),
    }
}

fn holder_dirty(talk: &mut Talk, holder: &Option<Worktree>) -> (r: Option<bool>)
    ensures
        heard(r, *final(talk)) == holder_dirty_spec(old(talk).rest(), holder.model()),
{
    match holder {
        None => Some(false),
        Some(tree) => {
            if tree.prunable {
                Some(false)
            } else {
                git::worktree_dirty(talk, &tree.path)
            }
        },
    }
}

fn stale_offers(
    talk: &mut Talk,
    stale: &[StaleBranch],
    trees: &[Worktree],
    refusals: &Table<Unmerged>,
    proofs: &Table<Proof>,
    old_branch: Option<&str>,
) -> (r: Option<Vec<Offer>>)
    ensures
        heard(r, *final(talk)) == stale_offers_spec(
            old(talk).rest(),
            models(stale@),
            models(trees@),
            refusals.model(),
            proofs.model(),
            borrowed(old_branch),
            Seq::empty(),
        ),
{
    let ghost all = models(stale@);
    let mut found: Vec<Offer> = Vec::new();
    let mut i: usize = 0;
    proof {
        rows::lemma_take_all(all);
        assert(models(found@) =~= Seq::empty());
    }
    while i < stale.len()
        invariant
            i <= stale@.len(),
            all == models(stale@),
            stale_offers_spec(
                old(talk).rest(),
                all,
                models(trees@),
                refusals.model(),
                proofs.model(),
                borrowed(old_branch),
                Seq::empty(),
            ) == stale_offers_spec(
                talk.rest(),
                all.skip(i as int),
                models(trees@),
                refusals.model(),
                proofs.model(),
                borrowed(old_branch),
                models(found@),
            ),
        decreases stale@.len() - i,
    {
        broadcast use crate::model::lemma_models_push;

        proof {
            rows::lemma_take_one_more(all, i as int);
        }
        let holder: Option<Worktree> = git::worktree_for_branch(trees, &stale[i].name);
        let in_main: bool = match &holder {
            Some(tree) => tree.is_main,
            None => false,
        };
        if !in_main {
            let dirty: bool = holder_dirty(talk, &holder)?;
            let offer: Offer = offer_for_stale(
                found.len(),
                &stale[i],
                holder,
                dirty,
                refusals,
                proofs,
                old_branch,
            );
            found.push(offer);
        }
        i += 1;
    }
    Some(found)
}

/// Where a sweep runs: the main worktree, if the worktrees could be listed.
pub open spec fn sweep_dir(trees: Seq<Tree>) -> Option<Seq<char>> {
    match main_of_spec(trees) {
        Ok(main) => Some(main.path),
        Err(_) => None,
    }
}

/// What is proven of the branches at risk. Proof only ever takes a warning
/// away, so nothing else is asked about.
pub open spec fn proofs_for_spec(
    rest: Seq<Answer>,
    dir: Option<Seq<char>>,
    remote: Seq<char>,
    risky: Words,
) -> Progress<Seq<(Seq<char>, Proof<Seq<char>>)>> {
    if risky.len() == 0 {
        Progress::Finished(Seq::empty(), rest)
    } else {
        equivalent_branches_spec(rest, dir, remote, risky)
    }
}

/// The stale branches, but for the one about to be entered, with the worktrees
/// that hold them. Where none is left git is not asked about any.
pub open spec fn assess_stale_spec(
    rest: Seq<Answer>,
    stale: Seq<Stale>,
    trees: Seq<Tree>,
    remote: Seq<char>,
    old_branch: Option<Seq<char>>,
    destination: Option<Seq<char>>,
) -> Progress<Meant<AssessmentModel>> {
    let swept = keep_map(stale, sweepable(destination));
    let dir = sweep_dir(trees);
    if swept.len() == 0 {
        Progress::Finished(
            Ok(AssessmentModel { subject: Subject::Stale, dir, offers: Seq::empty() }),
            rest,
        )
    } else {
        match unmerged_branches_spec(rest, dir) {
            Progress::Waiting(q) => Progress::Waiting(q),
            Progress::Finished(Err(e), rest) => Progress::Finished(Err(e), rest),
            Progress::Finished(Ok(refusals), rest) => match proofs_for_spec(
                rest,
                dir,
                remote,
                keep_map(swept, at_risk(refusals)),
            ) {
                Progress::Waiting(q) => Progress::Waiting(q),
                Progress::Finished(proofs, rest) => match stale_offers_spec(
                    rest,
                    swept,
                    trees,
                    refusals,
                    proofs,
                    old_branch,
                    Seq::empty(),
                ) {
                    Progress::Waiting(q) => Progress::Waiting(q),
                    Progress::Finished(offers, rest) => Progress::Finished(
                        Ok(AssessmentModel { subject: Subject::Stale, dir, offers }),
                        rest,
                    ),
                },
            },
        }
    }
}

pub fn assess_stale(
    talk: &mut Talk,
    stale: &[StaleBranch],
    trees: &[Worktree],
    remote: &str,
    old_branch: Option<&str>,
    destination: Option<&str>,
) -> (r: Option<AppResult<Assessment>>)
    ensures
        heard(r, *final(talk)) == assess_stale_spec(
            old(talk).rest(),
            models(stale@),
            models(trees@),
            remote@,
            borrowed(old_branch),
            borrowed(destination),
        ),
{
    let swept: Vec<StaleBranch> = sweepable_branches(stale, destination);
    let dir: Option<String> = match main_of(trees) {
        Ok(main) => Some(main.path),
        Err(_) => None,
    };
    if swept.len() == 0 {
        let offers: Vec<Offer> = Vec::new();
        assert(models(offers@) =~= Seq::empty());
        return Some(Ok(Assessment { subject: Subject::Stale, dir, offers }));
    }
    let refusals: Table<Unmerged> = match git::unmerged_branches(talk, lent(&dir))? {
        Ok(refusals) => refusals,
        Err(e) => return Some(Err(e)),
    };
    let risky: Vec<&str> = names_at_risk(&swept, &refusals);
    let proofs: Table<Proof> = if risky.len() == 0 {
        Table::new()
    } else {
        git::equivalent_branches(talk, lent(&dir), remote, &risky)?
    };
    let offers: Vec<Offer> = stale_offers(talk, &swept, trees, &refusals, &proofs, old_branch)?;
    Some(Ok(Assessment { subject: Subject::Stale, dir, offers }))
}

// ---------------------------------------------------------------------------
// Local branches
// ---------------------------------------------------------------------------

pub open spec fn branch_offer(
    id: nat,
    name: Seq<char>,
    trees: Seq<Tree>,
    refusals: Refusals,
) -> Meaning {
    Offer {
        id: id as usize,
        name,
        branch: Some(name),
        worktree: None,
        missing: false,
        dirty: false,
        unmerged: table::get(refusals, name),
        proof: None,
        held: first_of(trees, holding(name)),
        ground: None,
        ticked: false,
    }
}

pub open spec fn branch_offers(names: Words, trees: Seq<Tree>, refusals: Refusals) -> Seq<Meaning> {
    Seq::new(names.len(), |i: int| branch_offer(i as nat, names[i], trees, refusals))
}

/// Every local branch. One that a worktree holds stays in and cannot be
/// selected. What a branch holds is judged from the main worktree, and without
/// any proof.
pub open spec fn assess_branches_spec(rest: Seq<Answer>, names: Words, trees: Seq<Tree>) -> Progress<
    Meant<AssessmentModel>,
> {
    match main_of_spec(trees) {
        Err(e) => Progress::Finished(Err(e), rest),
        Ok(main) => match unmerged_branches_spec(rest, Some(main.path)) {
            Progress::Waiting(q) => Progress::Waiting(q),
            Progress::Finished(Err(e), rest) => Progress::Finished(Err(e), rest),
            Progress::Finished(Ok(refusals), rest) => Progress::Finished(
                Ok(
                    AssessmentModel {
                        subject: Subject::Branches,
                        dir: Some(main.path),
                        offers: branch_offers(names, trees, refusals),
                    },
                ),
                rest,
            ),
        },
    }
}

pub fn assess_branches(talk: &mut Talk, names: &[String], trees: &[Worktree]) -> (r: Option<
    AppResult<Assessment>,
>)
    ensures
        heard(r, *final(talk)) == assess_branches_spec(
            old(talk).rest(),
            models(names@),
            models(trees@),
        ),
{
    let main: Worktree = match main_of(trees) {
        Ok(main) => main,
        Err(e) => return Some(Err(e)),
    };
    let refusals: Table<Unmerged> = match git::unmerged_branches(talk, Some(&main.path))? {
        Ok(refusals) => refusals,
        Err(e) => return Some(Err(e)),
    };
    let ghost all = branch_offers(models(names@), models(trees@), refusals.model());
    let mut offers: Vec<Offer> = Vec::new();
    let mut i: usize = 0;
    proof {
        rows::lemma_take_all(all);
        assert(models(offers@) =~= Seq::empty());
    }
    while i < names.len()
        invariant
            i <= names@.len(),
            offers@.len() == i,
            all == branch_offers(models(names@), models(trees@), refusals.model()),
            models(offers@) == all.take(i as int),
        decreases names@.len() - i,
    {
        broadcast use crate::model::lemma_models_push;

        proof {
            rows::lemma_take_one_more(all, i as int);
        }
        let name: &str = names[i].as_str();
        let offer: Offer = Offer {
            id: i,
            name: name.to_owned(),
            branch: Some(name.to_owned()),
            worktree: None,
            missing: false,
            dirty: false,
            unmerged: match refusals.get(name) {
                Some(why) => Some(*why),
                None => None,
            },
            proof: None,
            held: git::worktree_for_branch(trees, name),
            ground: None,
            ticked: false,
        };
        assert(offer.model() == all[i as int]);
        offers.push(offer);
        i += 1;
    }
    assert(all.take(i as int) =~= all);
    Some(Ok(Assessment { subject: Subject::Branches, dir: Some(main.path), offers }))
}

// ---------------------------------------------------------------------------
// Rows
// ---------------------------------------------------------------------------

/// The mark of commits that are merged nowhere, counted where there is an
/// upstream to count against.
pub open spec fn unmerged_mark(unmerged: Option<Unmerged>) -> Seq<char> {
    match unmerged {
        None => Seq::empty(),
        Some(Unmerged::NoUpstream) => "↑"@,
        Some(Unmerged::Ahead(n)) => Sign::Ahead(n).text_spec(),
    }
}

fn mark_unmerged(unmerged: Option<Unmerged>) -> (r: String)
    ensures
        r@ == unmerged_mark(unmerged),
{
    match unmerged {
        None => {
            let none: String = String::new();
            assert(none@ =~= Seq::empty());
            none
        },
        Some(Unmerged::NoUpstream) => "↑".to_owned(),
        Some(Unmerged::Ahead(n)) => Sign::Ahead(n).text(),
    }
}

/// What a row says of the worktree that goes with it. In a list of worktrees
/// that there is one goes without saying.
pub open spec fn worktree_mark(subject: Subject<Seq<char>>, offer: Meaning) -> Seq<char> {
    if offer.worktree is None {
        Seq::empty()
    } else if subject is Worktrees {
        if offer.missing {
            "missing"@
        } else if offer.dirty {
            Sign::Dirty.text_spec()
        } else {
            Seq::empty()
        }
    } else if offer.missing {
        "(+ worktree, missing)"@
    } else if offer.dirty {
        "(+ worktree ●)"@
    } else {
        "(+ worktree)"@
    }
}

fn mark_worktree(subject: &Subject, offer: &Offer) -> (r: String)
    ensures
        r@ == worktree_mark(subject.model(), offer.model()),
{
    let worktrees: bool = match subject {
        Subject::Worktrees { .. } => true,
        _ => false,
    };
    let none: String = String::new();
    assert(none@ =~= Seq::empty());
    if offer.worktree.is_none() {
        none
    } else if worktrees {
        if offer.missing {
            "missing".to_owned()
        } else if offer.dirty {
            Sign::Dirty.text()
        } else {
            none
        }
    } else if offer.missing {
        "(+ worktree, missing)".to_owned()
    } else if offer.dirty {
        "(+ worktree ●)".to_owned()
    } else {
        "(+ worktree)".to_owned()
    }
}

/// Two pieces of a row, a blank between them where both say something.
pub open spec fn beside(left: Seq<char>, right: Seq<char>) -> Seq<char> {
    if left.len() == 0 {
        right
    } else if right.len() == 0 {
        left
    } else {
        left + " "@ + right
    }
}

fn set_beside(left: String, right: String) -> (r: String)
    ensures
        r@ == beside(left@, right@),
{
    if left.as_str().is_empty() {
        right
    } else if right.as_str().is_empty() {
        left
    } else {
        text::joined3(&left, " ", &right)
    }
}

/// Why an offer is made, in words, where that has to be said.
pub open spec fn ground_words(ground: Option<Ground>) -> Seq<char> {
    match ground {
        Some(ground) => ground.words_spec(),
        None => Seq::empty(),
    }
}

fn words_of_ground(ground: Option<Ground>) -> (r: String)
    ensures
        r@ == ground_words(ground),
{
    match ground {
        Some(ground) => ground.words().to_owned(),
        None => {
            let none: String = String::new();
            assert(none@ =~= Seq::empty());
            none
        },
    }
}

/// What an offer would take along, and what would be lost with it.
pub open spec fn marks(subject: Subject<Seq<char>>, offer: Meaning) -> Seq<char> {
    beside(worktree_mark(subject, offer), unmerged_mark(offer.unmerged))
}

/// What there is to know about an offer: why it cannot be selected, or why it
/// is offered, what goes with it and what would be lost.
pub open spec fn detail(subject: Subject<Seq<char>>, offer: Meaning) -> Seq<char> {
    match offer.held {
        Some(tree) => if tree.is_main {
            "checked out in the main worktree"@
        } else {
            "held by a worktree; use wt rm"@
        },
        None => beside(ground_words(offer.ground), marks(subject, offer)),
    }
}

fn detail_of(subject: &Subject, offer: &Offer) -> (r: String)
    ensures
        r@ == detail(subject.model(), offer.model()),
{
    if let Some(tree) = &offer.held {
        return if tree.is_main {
            "checked out in the main worktree".to_owned()
        } else {
            "held by a worktree; use wt rm".to_owned()
        };
    }
    let along: String = mark_worktree(subject, offer);
    let lost: String = mark_unmerged(offer.unmerged);
    set_beside(words_of_ground(offer.ground), set_beside(along, lost))
}

pub open spec fn row(subject: Subject<Seq<char>>, offer: Meaning) -> Row<Seq<char>> {
    Row {
        name: offer.name,
        detail: detail(subject, offer),
        selectable: offer.held is None,
        ticked: offer.ticked,
    }
}

pub open spec fn rows_spec(assessment: AssessmentModel) -> Seq<Row<Seq<char>>> {
    Seq::new(
        assessment.offers.len(),
        |i: int| row(assessment.subject, assessment.offers[i]),
    )
}

/// The rows that a list of offers shows, in their order.
pub fn rows_of(assessment: &Assessment) -> (r: Vec<Row>)
    ensures
        models(r@) == rows_spec(assessment.model()),
{
    let ghost all = rows_spec(assessment.model());
    let mut r: Vec<Row> = Vec::new();
    let mut i: usize = 0;
    proof {
        rows::lemma_take_all(all);
        assert(models(r@) =~= Seq::empty());
    }
    while i < assessment.offers.len()
        invariant
            i <= assessment.offers@.len(),
            all == rows_spec(assessment.model()),
            models(r@) == all.take(i as int),
        decreases assessment.offers@.len() - i,
    {
        broadcast use crate::model::lemma_models_push;

        proof {
            rows::lemma_take_one_more(all, i as int);
        }
        let offer: &Offer = &assessment.offers[i];
        let line: Row = Row {
            name: offer.name.clone(),
            detail: detail_of(&assessment.subject, offer),
            selectable: offer.held.is_none(),
            ticked: offer.ticked,
        };
        assert(line.model() == all[i as int]);
        r.push(line);
        i += 1;
    }
    assert(all.take(i as int) =~= all);
    r
}

pub open spec fn some_dirty(offers: Seq<Meaning>) -> bool {
    exists|i: int| 0 <= i < offers.len() && (#[trigger] offers[i]).dirty
}

pub open spec fn some_unmerged(offers: Seq<Meaning>) -> bool {
    exists|i: int| 0 <= i < offers.len() && (#[trigger] offers[i]).unmerged is Some
}

/// What the marks in a list mean, where they occur in it.
pub open spec fn legend_spec(offers: Seq<Meaning>) -> Words {
    let dirty = if some_dirty(offers) {
        Seq::empty().push("● uncommitted changes"@)
    } else {
        Seq::empty()
    };
    if some_unmerged(offers) {
        dirty.push("↑ unmerged commits"@)
    } else {
        dirty
    }
}

pub fn legend_of(offers: &[Offer]) -> (r: Vec<String>)
    ensures
        models(r@) == legend_spec(models(offers@)),
{
    let ghost all = models(offers@);
    let mut dirty: bool = false;
    let mut unmerged: bool = false;
    let mut i: usize = 0;
    while i < offers.len()
        invariant
            i <= offers@.len(),
            all == models(offers@),
            dirty == (exists|j: int| 0 <= j < i && (#[trigger] all[j]).dirty),
            unmerged == (exists|j: int| 0 <= j < i && (#[trigger] all[j]).unmerged is Some),
        decreases offers@.len() - i,
    {
        assert(all[i as int] == offers@[i as int].model());
        if offers[i].dirty {
            dirty = true;
        }
        if offers[i].unmerged.is_some() {
            unmerged = true;
        }
        i += 1;
    }
    let mut r: Vec<String> = Vec::new();
    if dirty {
        r.push("● uncommitted changes".to_owned());
    }
    if unmerged {
        r.push("↑ unmerged commits".to_owned());
    }
    assert(models(r@) =~= legend_spec(all));
    r
}

// ---------------------------------------------------------------------------
// Names
// ---------------------------------------------------------------------------

/// The offer of a name.
pub open spec fn called(name: Seq<char>) -> spec_fn(Meaning) -> Option<Meaning> {
    |offer: Meaning|
        if offer.name == name {
            Some(offer)
        } else {
            None
        }
}

/// The names that the worktree of an offer answers to.
pub open spec fn answers(offer: Meaning) -> Words {
    match offer.worktree {
        Some(path) => names_of(offer.branch, path),
        None => Seq::empty(),
    }
}

/// The offer whose worktree answers to a name.
pub open spec fn answering(name: Seq<char>) -> spec_fn(Meaning) -> Option<Meaning> {
    |offer: Meaning|
        if answers(offer).contains(name) {
            Some(offer)
        } else {
            None
        }
}

/// Whether a directory is a worktree's or inside it.
pub open spec fn stands_in(cwd: Seq<char>, tree: Seq<char>) -> bool {
    path::below(cwd, tree) is Some
}

pub open spec fn depth(p: Seq<char>) -> nat {
    path::components(p).len()
}

/// The offer of the innermost worktree that a directory is in.
pub open spec fn innermost(offers: Seq<Meaning>, cwd: Seq<char>) -> Option<Meaning>
    decreases offers.len(),
{
    if offers.len() == 0 {
        None
    } else {
        let before = innermost(offers.drop_last(), cwd);
        let last = offers.last();
        if last.worktree is None || !stands_in(cwd, last.worktree->0) {
            before
        } else if before matches Some(outer) && depth(outer.worktree->0) > depth(last.worktree->0) {
            before
        } else {
            Some(last)
        }
    }
}

pub open spec fn worktree_error(message: Seq<char>) -> Error<Seq<char>> {
    Error::Git { command: "worktree remove"@, message }
}

fn refuse_worktree(message: &str) -> (r: Error)
    ensures
        r.model() == worktree_error(message@),
{
    Error::Git { command: "worktree remove".to_owned(), message: message.to_owned() }
}

/// The worktree that `.` stands for: the one that the current directory is in,
/// unless that is the main one.
pub open spec fn here(offers: Seq<Meaning>, main: Tree, cwd: Option<Seq<char>>) -> Meant<Meaning> {
    match cwd {
        None => Err(worktree_error("not in a worktree"@)),
        Some(dir) => {
            let in_main = stands_in(dir, main.path);
            match innermost(offers, dir) {
                Some(offer) => if in_main && depth(main.path) > depth(offer.worktree->0) {
                    Err(worktree_error("the main worktree cannot be removed"@))
                } else {
                    Ok(offer)
                },
                None => if in_main {
                    Err(worktree_error("the main worktree cannot be removed"@))
                } else {
                    Err(worktree_error("not in a worktree"@))
                },
            }
        },
    }
}

/// The offer that a name stands for.
pub open spec fn wanted(assessment: AssessmentModel, name: Seq<char>) -> Meant<Meaning> {
    match assessment.subject {
        Subject::Worktrees { main, cwd } => if name == "."@ {
            here(assessment.offers, main, cwd)
        } else {
            match first_of(assessment.offers, answering(name)) {
                Some(offer) => Ok(offer),
                None => if names_of(main.branch, main.path).contains(name) {
                    Err(worktree_error("the main worktree cannot be removed"@))
                } else {
                    Err(worktree_error("no worktree is called '"@ + name + "'"@))
                },
            }
        },
        _ => match first_of(assessment.offers, called(name)) {
            Some(offer) => Ok(offer),
            None => Err(Error::LocalBranchNotFound { branch: name }),
        },
    }
}

fn find_called(offers: &[Offer], name: &str) -> (r: Option<Offer>)
    ensures
        r.model() == first_of(models(offers@), called(name@)),
{
    let ghost all = models(offers@);
    let mut i: usize = 0;
    proof {
        rows::lemma_take_all(all);
    }
    while i < offers.len()
        invariant
            i <= offers@.len(),
            all == models(offers@),
            first_of(all, called(name@)) == first_of(all.skip(i as int), called(name@)),
        decreases offers@.len() - i,
    {
        proof {
            rows::lemma_take_one_more(all, i as int);
        }
        if text::same(&offers[i].name, name) {
            return Some(offers[i].clone());
        }
        i += 1;
    }
    None
}

fn is_answered(offer: &Offer, name: &str) -> (r: bool)
    ensures
        r == answers(offer.model()).contains(name@),
{
    match &offer.worktree {
        Some(path) => git::is_among(&worktree_names(lent(&offer.branch), path), name),
        None => false,
    }
}

fn find_answering(offers: &[Offer], name: &str) -> (r: Option<Offer>)
    ensures
        r.model() == first_of(models(offers@), answering(name@)),
{
    let ghost all = models(offers@);
    let mut i: usize = 0;
    proof {
        rows::lemma_take_all(all);
    }
    while i < offers.len()
        invariant
            i <= offers@.len(),
            all == models(offers@),
            first_of(all, answering(name@)) == first_of(all.skip(i as int), answering(name@)),
        decreases offers@.len() - i,
    {
        proof {
            rows::lemma_take_one_more(all, i as int);
        }
        if is_answered(&offers[i], name) {
            return Some(offers[i].clone());
        }
        i += 1;
    }
    None
}

pub fn is_in(cwd: &str, tree: &str) -> (r: bool)
    ensures
        r == stands_in(cwd@, tree@),
{
    path::stripped(cwd, tree).is_some()
}

fn depth_of(p: &str) -> (r: usize)
    ensures
        r == depth(p@),
{
    let parts: Vec<String> = path::components_of(p);
    assert(models(parts@).len() == parts@.len());
    parts.len()
}

fn find_innermost(offers: &[Offer], cwd: &str) -> (r: Option<Offer>)
    ensures
        r.model() == innermost(models(offers@), cwd@),
        r matches Some(offer) ==> offer.worktree is Some,
{
    let ghost all = models(offers@);
    let mut best: Option<Offer> = None;
    let mut i: usize = 0;
    proof {
        rows::lemma_take_all(all);
    }
    while i < offers.len()
        invariant
            i <= offers@.len(),
            all == models(offers@),
            best.model() == innermost(all.take(i as int), cwd@),
            best matches Some(offer) ==> offer.worktree is Some,
        decreases offers@.len() - i,
    {
        proof {
            rows::lemma_take_one_more(all, i as int);
        }
        if let Some(tree) = &offers[i].worktree {
            if is_in(cwd, tree) {
                let deeper: bool = match &best {
                    Some(outer) => match &outer.worktree {
                        Some(outer_tree) => depth_of(outer_tree) > depth_of(tree),
                        None => false,
                    },
                    None => false,
                };
                if !deeper {
                    best = Some(offers[i].clone());
                }
            }
        }
        i += 1;
    }
    best
}

fn find_here(offers: &[Offer], main: &Worktree, cwd: Option<&str>) -> (r: AppResult<Offer>)
    ensures
        r.model() == here(models(offers@), main.model(), borrowed(cwd)),
{
    let dir: &str = match cwd {
        Some(dir) => dir,
        None => return Err(refuse_worktree("not in a worktree")),
    };
    let in_main: bool = is_in(dir, &main.path);
    match find_innermost(offers, dir) {
        Some(offer) => {
            let main_is_inner: bool = match &offer.worktree {
                Some(tree) => in_main && depth_of(&main.path) > depth_of(tree),
                None => false,
            };
            if main_is_inner {
                Err(refuse_worktree("the main worktree cannot be removed"))
            } else {
                Ok(offer)
            }
        },
        None => {
            if in_main {
                Err(refuse_worktree("the main worktree cannot be removed"))
            } else {
                Err(refuse_worktree("not in a worktree"))
            }
        },
    }
}

fn find_wanted(assessment: &Assessment, name: &str) -> (r: AppResult<Offer>)
    ensures
        r.model() == wanted(assessment.model(), name@),
{
    if let Subject::Worktrees { main, cwd } = &assessment.subject {
        if text::same(name, ".") {
            return find_here(&assessment.offers, main, lent(cwd));
        }
        return match find_answering(&assessment.offers, name) {
            Some(offer) => Ok(offer),
            None => {
                if git::is_among(&worktree_names(lent(&main.branch), &main.path), name) {
                    Err(refuse_worktree("the main worktree cannot be removed"))
                } else {
                    Err(refuse_worktree(&text::joined3("no worktree is called '", name, "'")))
                }
            },
        };
    }
    match find_called(&assessment.offers, name) {
        Some(offer) => Ok(offer),
        None => Err(Error::LocalBranchNotFound { branch: name.to_owned() }),
    }
}

// ---------------------------------------------------------------------------
// Warnings
// ---------------------------------------------------------------------------

pub open spec fn unmerged_warning(branch: Seq<char>, unmerged: Unmerged) -> Seq<char> {
    match unmerged {
        Unmerged::NoUpstream => branch + " has unmerged commits and no upstream"@,
        Unmerged::Ahead(n) => branch + " has "@ + text::decimal(n as nat) + " unmerged "@
            + plural_spec(n, "commit"@),
    }
}

fn warn_unmerged(branch: &str, unmerged: Unmerged) -> (r: String)
    ensures
        r@ == unmerged_warning(branch@, unmerged),
{
    match unmerged {
        Unmerged::NoUpstream => text::joined(branch, " has unmerged commits and no upstream"),
        Unmerged::Ahead(n) => {
            let mut r: String = text::joined3(branch, " has ", &text::decimal_of(n as u128));
            r.append(" unmerged ");
            r.append(&plural(n, "commit"));
            r
        },
    }
}

/// What removing an offer would destroy, in words, where its worktree is shown
/// as `shown`. Nothing at risk is nothing to say.
pub open spec fn risks(offer: Meaning, shown: Seq<char>) -> Words {
    let dirty = if offer.dirty {
        Seq::empty().push(shown + " has uncommitted changes"@)
    } else {
        Seq::empty()
    };
    match offer.unmerged {
        Some(why) => dirty.push(unmerged_warning(offer.name, why)),
        None => dirty,
    }
}

fn risks_of(offer: &Offer, shown: &str) -> (r: Vec<String>)
    ensures
        models(r@) == risks(offer.model(), shown@),
{
    let mut r: Vec<String> = Vec::new();
    if offer.dirty {
        r.push(text::joined(shown, " has uncommitted changes"));
    }
    if let Some(why) = offer.unmerged {
        r.push(warn_unmerged(&offer.name, why));
    }
    assert(models(r@) =~= risks(offer.model(), shown@));
    r
}

pub open spec fn question(offer: Meaning) -> Seq<char> {
    match (offer.worktree, offer.branch) {
        (Some(_), Some(branch)) => "Remove the worktree and delete "@ + branch + " anyway?"@,
        (Some(_), None) => "Remove the worktree anyway?"@,
        (None, _) => "Delete "@ + offer.name + " anyway?"@,
    }
}

fn question_of(offer: &Offer) -> (r: String)
    ensures
        r@ == question(offer.model()),
{
    if offer.worktree.is_none() {
        return text::joined3("Delete ", &offer.name, " anyway?");
    }
    match &offer.branch {
        Some(branch) => text::joined3("Remove the worktree and delete ", branch, " anyway?"),
        None => "Remove the worktree anyway?".to_owned(),
    }
}

/// An offer asked for by its name, with what has to be said before it goes.
pub open spec fn named_of(offer: Meaning, shown: Seq<char>) -> NamedOfferModel {
    let warnings = risks(offer, shown);
    NamedOfferModel {
        id: offer.id,
        warnings,
        refusal: text::join(warnings, "; "@) + "; pass --force to remove it anyway"@,
        question: question(offer),
    }
}

fn name_offer(offer: &Offer, shown: &str) -> (r: NamedOffer)
    ensures
        r.model() == named_of(offer.model(), shown@),
{
    let warnings: Vec<String> = risks_of(offer, shown);
    let refusal: String = text::joined(
        &text::glued(&warnings, "; "),
        "; pass --force to remove it anyway",
    );
    NamedOffer { id: offer.id, warnings, refusal, question: question_of(offer) }
}

/// What there is to do about a branch that a worktree holds.
pub open spec fn held_hint(tree: Tree, branch: Seq<char>) -> Seq<char> {
    if tree.is_main {
        "check out another branch in the main worktree first"@
    } else {
        "run `perch wt rm "@ + shell_word(branch) + "` to remove it with its worktree"@
    }
}

fn hint_of(tree: &Worktree, branch: &str) -> (r: String)
    ensures
        r@ == held_hint(tree.model(), branch@),
{
    if tree.is_main {
        "check out another branch in the main worktree first".to_owned()
    } else {
        text::joined3(
            "run `perch wt rm ",
            &shell_quote(branch),
            "` to remove it with its worktree",
        )
    }
}

/// The offer that a name stands for. One that a worktree holds is refused,
/// with what there is to do instead.
pub open spec fn named_offer_spec(
    rest: Seq<Answer>,
    assessment: AssessmentModel,
    name: Seq<char>,
) -> Progress<Meant<NamedOfferModel>> {
    match wanted(assessment, name) {
        Err(e) => Progress::Finished(Err(e), rest),
        Ok(offer) => match offer.held {
            Some(tree) => match display_path_spec(rest, tree.path) {
                Progress::Waiting(q) => Progress::Waiting(q),
                Progress::Finished(shown, rest) => Progress::Finished(
                    Err(
                        Error::HeldForRemoval {
                            branch: offer.name,
                            path: shown,
                            hint: held_hint(tree, offer.name),
                        },
                    ),
                    rest,
                ),
            },
            None => match offer.worktree {
                None => Progress::Finished(Ok(named_of(offer, Seq::empty())), rest),
                Some(tree) => match display_path_spec(rest, tree) {
                    Progress::Waiting(q) => Progress::Waiting(q),
                    Progress::Finished(shown, rest) => Progress::Finished(
                        Ok(named_of(offer, shown)),
                        rest,
                    ),
                },
            },
        },
    }
}

pub fn named_offer(talk: &mut Talk, assessment: &Assessment, name: &str) -> (r: Option<
    AppResult<NamedOffer>,
>)
    ensures
        heard(r, *final(talk)) == named_offer_spec(old(talk).rest(), assessment.model(), name@),
{
    let offer: Offer = match find_wanted(assessment, name) {
        Ok(offer) => offer,
        Err(e) => return Some(Err(e)),
    };
    if let Some(tree) = &offer.held {
        let shown: String = display_path(talk, &tree.path)?;
        let hint: String = hint_of(tree, &offer.name);
        return Some(
            Err(Error::HeldForRemoval { branch: offer.name.clone(), path: shown, hint }),
        );
    }
    let shown: String = match &offer.worktree {
        Some(tree) => display_path(talk, tree)?,
        None => {
            let none: String = String::new();
            assert(none@ =~= Seq::empty());
            none
        },
    };
    Some(Ok(name_offer(&offer, &shown)))
}

} // verus!
