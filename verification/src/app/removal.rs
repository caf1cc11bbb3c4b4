//! What can be removed, and what is chosen of it.
use vstd::prelude::*;
use vstd::string::*;

use crate::ask::{flag_asked, lent, owned, tell, tell_asked, unanswered};
use crate::error::{AppResult, Error, IoError, IoKind, Meant};
use crate::git::refs::stale_branches_spec;
use crate::git::worktrees::{worktree_list_in_spec, Tree};
use crate::git::{self, Ground, Proof, StaleBranch, Unmerged, Worktree};
use crate::grammar::Words;
use crate::model::{borrowed, models, Modelled};
use crate::rows::{self, keep_map};
use crate::talk::{asked, heard, Answer, Asked, Mark, Progress, Reply, Request, Talk};

use super::prompts::{confirm, confirm_spec, Confirmation};
use super::reports::is_interactive;

pub mod assess;
pub mod finish;
pub mod grounds;
pub mod harmless;
pub mod license;

use assess::{
    assess_stale, assess_stale_spec, legend_of, legend_spec, named_offer, named_offer_spec,
    rows_of, rows_spec,
};
use finish::{finish, finish_spec};

verus! {

/// One thing that a removal could remove, and what removing it would destroy.
#[derive(Debug, PartialEq, Eq)]
pub struct Offer<S = String> {
    pub id: usize,
    pub name: S,
    pub branch: Option<S>,
    /// The worktree that goes with it, by its path.
    pub worktree: Option<S>,
    /// Whether that worktree is gone from disk already.
    pub missing: bool,
    /// Whether that worktree holds uncommitted changes.
    pub dirty: bool,
    /// Why git would refuse to delete the branch. Nothing where that is proven
    /// to cost nothing.
    pub unmerged: Option<Unmerged>,
    /// The proof that everything on the branch is on the anchor too.
    pub proof: Option<Proof<S>>,
    /// The worktree that keeps it from being removed.
    pub held: Option<Worktree<S>>,
    /// Why it is offered, where it is a stale branch.
    pub ground: Option<Ground>,
    /// Whether its row starts out ticked.
    pub ticked: bool,
}

impl Modelled for Offer {
    type Model = Offer<Seq<char>>;

    open spec fn model(&self) -> Offer<Seq<char>> {
        Offer {
            id: self.id,
            name: self.name@,
            branch: self.branch.model(),
            worktree: self.worktree.model(),
            missing: self.missing,
            dirty: self.dirty,
            unmerged: self.unmerged.model(),
            proof: self.proof.model(),
            held: self.held.model(),
            ground: self.ground,
            ticked: self.ticked,
        }
    }
}

impl Clone for Offer {
    fn clone(&self) -> (r: Self)
        ensures
            r.model() == self.model(),
    {
        Offer {
            id: self.id,
            name: self.name.clone(),
            branch: owned(lent(&self.branch)),
            worktree: owned(lent(&self.worktree)),
            missing: self.missing,
            dirty: self.dirty,
            unmerged: self.unmerged,
            proof: match &self.proof {
                Some(proof) => Some(proof.clone()),
                None => None,
            },
            held: match &self.held {
                Some(tree) => Some(tree.clone()),
                None => None,
            },
            ground: self.ground,
            ticked: self.ticked,
        }
    }
}

/// What a removal is about.
#[derive(Debug, PartialEq, Eq)]
pub enum Subject<S = String> {
    /// Local branches, asked for by name.
    Branches,
    /// Stale branches, and the worktrees that hold them.
    Stale,
    /// Worktrees, and the branches they hold.
    Worktrees { main: Worktree<S>, cwd: Option<S> },
}

impl Modelled for Subject {
    type Model = Subject<Seq<char>>;

    open spec fn model(&self) -> Subject<Seq<char>> {
        match self {
            Subject::Branches => Subject::Branches,
            Subject::Stale => Subject::Stale,
            Subject::Worktrees { main, cwd } => Subject::Worktrees {
                main: main.model(),
                cwd: cwd.model(),
            },
        }
    }
}

/// What could be removed, and where the removal runs: the main worktree, so
/// that what is judged and what is done are read against the same HEAD.
#[derive(Debug, PartialEq, Eq)]
pub struct Assessment {
    pub subject: Subject,
    pub dir: Option<String>,
    pub offers: Vec<Offer>,
}

/// What an [`Assessment`] means.
pub struct AssessmentModel {
    pub subject: Subject<Seq<char>>,
    pub dir: Option<Seq<char>>,
    pub offers: Seq<Offer<Seq<char>>>,
}

impl Modelled for Assessment {
    type Model = AssessmentModel;

    open spec fn model(&self) -> AssessmentModel {
        AssessmentModel {
            subject: self.subject.model(),
            dir: self.dir.model(),
            offers: self.offers.model(),
        }
    }
}

/// An offer asked for by its name: what removing it would destroy, how to
/// decline it where nobody can be asked, and what to ask.
#[derive(Debug, PartialEq, Eq)]
pub struct NamedOffer {
    pub id: usize,
    pub warnings: Vec<String>,
    pub refusal: String,
    pub question: String,
}

/// What a [`NamedOffer`] means.
pub struct NamedOfferModel {
    pub id: usize,
    pub warnings: Seq<Seq<char>>,
    pub refusal: Seq<char>,
    pub question: Seq<char>,
}

impl Modelled for NamedOffer {
    type Model = NamedOfferModel;

    open spec fn model(&self) -> NamedOfferModel {
        NamedOfferModel {
            id: self.id,
            warnings: self.warnings.model(),
            refusal: self.refusal@,
            question: self.question@,
        }
    }
}

/// The offers taken, and whether they are forced.
#[derive(Debug, PartialEq, Eq)]
pub enum Choice {
    Named(usize),
    Forced(usize),
    Picked(Vec<usize>),
    ForcedPicked(Vec<usize>),
}

/// What a [`Choice`] means.
pub enum ChoiceModel {
    Named(usize),
    Forced(usize),
    Picked(Seq<usize>),
    ForcedPicked(Seq<usize>),
}

impl ChoiceModel {
    /// Whether force was asked for outright.
    pub open spec fn forced(self) -> bool {
        self is Forced || self is ForcedPicked
    }
}

impl Choice {
    pub fn is_forced(&self) -> (r: bool)
        ensures
            r == self.model().forced(),
    {
        match self {
            Choice::Forced(_) | Choice::ForcedPicked(_) => true,
            Choice::Named(_) | Choice::Picked(_) => false,
        }
    }
}

impl Modelled for Choice {
    type Model = ChoiceModel;

    open spec fn model(&self) -> ChoiceModel {
        match self {
            Choice::Named(id) => ChoiceModel::Named(*id),
            Choice::Forced(id) => ChoiceModel::Forced(*id),
            Choice::Picked(ids) => ChoiceModel::Picked(ids@),
            Choice::ForcedPicked(ids) => ChoiceModel::ForcedPicked(ids@),
        }
    }
}

// ---------------------------------------------------------------------------
// Choosing
// ---------------------------------------------------------------------------

/// What is removed, and how it was chosen.
#[derive(Debug, PartialEq, Eq)]
pub struct RemovalSelection {
    pub choice: Choice,
    pub offers: Vec<Offer>,
}

/// What a [`RemovalSelection`] means.
pub struct SelectionModel {
    pub choice: ChoiceModel,
    pub offers: Seq<Offer<Seq<char>>>,
}

impl Modelled for RemovalSelection {
    type Model = SelectionModel;

    open spec fn model(&self) -> SelectionModel {
        SelectionModel { choice: self.choice.model(), offers: self.offers.model() }
    }
}

impl RemovalSelection {
    pub fn offers(&self) -> (r: &Vec<Offer>)
        ensures
            r.model() == self.model().offers,
    {
        &self.offers
    }

    pub fn into_choice(self) -> (r: Choice)
        ensures
            r.model() == self.model().choice,
    {
        self.choice
    }
}

fn no_answer() -> (r: Error)
    ensures
        r.model() == Error::Io(unanswered()),
{
    Error::Io(IoError { kind: IoKind::Other, message: "no answer".to_owned() })
}

/// Warnings, told one after the other.
pub open spec fn warned(rest: Seq<Answer>, warnings: Words) -> Progress<()>
    decreases warnings.len(),
{
    if warnings.len() == 0 {
        Progress::Finished((), rest)
    } else {
        match tell_asked(rest, Mark::Warning, warnings[0]) {
            Progress::Waiting(q) => Progress::Waiting(q),
            Progress::Finished(_, rest) => warned(rest, warnings.drop_first()),
        }
    }
}

fn warn(talk: &mut Talk, warnings: &[String]) -> (r: Option<()>)
    ensures
        heard(r, *final(talk)) == warned(old(talk).rest(), models(warnings@)),
{
    let ghost all = models(warnings@);
    let mut i: usize = 0;
    proof {
        rows::lemma_take_all(all);
    }
    while i < warnings.len()
        invariant
            i <= warnings@.len(),
            all == models(warnings@),
            warned(old(talk).rest(), all) == warned(talk.rest(), all.skip(i as int)),
        decreases warnings@.len() - i,
    {
        proof {
            rows::lemma_take_one_more(all, i as int);
        }
        tell(talk, Mark::Warning, warnings[i].clone())?;
        i += 1;
    }
    Some(())
}

/// What becomes of a target given by name. Force takes it; so does an offer
/// without warnings. Otherwise the warnings are shown and the user is asked,
/// and where nobody can be asked it is refused.
pub open spec fn named_removal_choice_spec(
    rest: Seq<Answer>,
    named: NamedOfferModel,
    force: bool,
) -> Progress<Meant<Option<ChoiceModel>>> {
    if force {
        Progress::Finished(Ok(Some(ChoiceModel::Forced(named.id))), rest)
    } else if named.warnings.len() == 0 {
        Progress::Finished(Ok(Some(ChoiceModel::Named(named.id))), rest)
    } else {
        match flag_asked(rest, Asked::Interactive) {
            Progress::Waiting(q) => Progress::Waiting(q),
            Progress::Finished(false, rest) => Progress::Finished(
                Err(Error::Unconfirmed(named.refusal)),
                rest,
            ),
            Progress::Finished(true, rest) => match warned(rest, named.warnings) {
                Progress::Waiting(q) => Progress::Waiting(q),
                Progress::Finished(_, rest) => match confirm_spec(rest, named.question, false) {
                    Progress::Waiting(q) => Progress::Waiting(q),
                    Progress::Finished(Err(e), rest) => Progress::Finished(Err(e), rest),
                    Progress::Finished(Ok(Confirmation::Accepted), rest) => Progress::Finished(
                        Ok(Some(ChoiceModel::Named(named.id))),
                        rest,
                    ),
                    Progress::Finished(Ok(_), rest) => Progress::Finished(Ok(None), rest),
                },
            },
        }
    }
}

pub fn named_removal_choice(talk: &mut Talk, named: &NamedOffer, force: bool) -> (r: Option<
    AppResult<Option<Choice>>,
>)
    ensures
        heard(r, *final(talk)) == named_removal_choice_spec(
            old(talk).rest(),
            named.model(),
            force,
        ),
{
    if force {
        return Some(Ok(Some(Choice::Forced(named.id))));
    }
    if named.warnings.len() == 0 {
        return Some(Ok(Some(Choice::Named(named.id))));
    }
    if !is_interactive(talk)? {
        return Some(Err(Error::Unconfirmed(named.refusal.clone())));
    }
    warn(talk, &named.warnings)?;
    match confirm(talk, &named.question, false)? {
        Err(e) => Some(Err(e)),
        Ok(Confirmation::Accepted) => Some(Ok(Some(Choice::Named(named.id)))),
        Ok(_) => Some(Ok(None)),
    }
}

/// The offer with a number.
pub open spec fn numbered(id: usize) -> spec_fn(Offer<Seq<char>>) -> Option<Offer<Seq<char>>> {
    |offer: Offer<Seq<char>>|
        if offer.id == id {
            Some(offer)
        } else {
            None
        }
}

/// The offer in a row that was ticked, unless it cannot be selected.
pub open spec fn ticked(offers: Seq<Offer<Seq<char>>>) -> spec_fn(usize) -> Option<
    Offer<Seq<char>>,
> {
    |row: usize|
        if row < offers.len() && offers[row as int].held is None {
            Some(offers[row as int])
        } else {
            None
        }
}

pub open spec fn ids_of(offers: Seq<Offer<Seq<char>>>) -> Seq<usize> {
    Seq::new(offers.len(), |i: int| offers[i].id)
}

/// What ticking some rows selects.
pub open spec fn picked_rows(
    offers: Seq<Offer<Seq<char>>>,
    rows: Seq<usize>,
    force: bool,
) -> SelectionModel {
    let chosen = keep_map(rows, ticked(offers));
    SelectionModel {
        choice: if force {
            ChoiceModel::ForcedPicked(ids_of(chosen))
        } else {
            ChoiceModel::Picked(ids_of(chosen))
        },
        offers: chosen,
    }
}

pub open spec fn named_selection_spec(
    rest: Seq<Answer>,
    assessment: AssessmentModel,
    name: Seq<char>,
    force: bool,
) -> Progress<Meant<Option<SelectionModel>>> {
    match named_offer_spec(rest, assessment, name) {
        Progress::Waiting(q) => Progress::Waiting(q),
        Progress::Finished(Err(e), rest) => Progress::Finished(Err(e), rest),
        Progress::Finished(Ok(named), rest) => match named_removal_choice_spec(rest, named, force) {
            Progress::Waiting(q) => Progress::Waiting(q),
            Progress::Finished(Err(e), rest) => Progress::Finished(Err(e), rest),
            Progress::Finished(Ok(None), rest) => Progress::Finished(Ok(None), rest),
            Progress::Finished(Ok(Some(choice)), rest) => Progress::Finished(
                Ok(
                    Some(
                        SelectionModel {
                            choice,
                            offers: keep_map(assessment.offers, numbered(named.id)),
                        },
                    ),
                ),
                rest,
            ),
        },
    }
}

pub open spec fn picked_selection_spec(
    rest: Seq<Answer>,
    assessment: AssessmentModel,
    force: bool,
    prompt: Seq<char>,
) -> Progress<Meant<Option<SelectionModel>>> {
    let offers = assessment.offers;
    match flag_asked(rest, Asked::Interactive) {
        Progress::Waiting(q) => Progress::Waiting(q),
        Progress::Finished(false, rest) => Progress::Finished(Ok(None), rest),
        Progress::Finished(true, rest) => match asked(
            rest,
            Asked::PickRows { prompt, legend: legend_spec(offers), rows: rows_spec(assessment) },
        ) {
            Progress::Waiting(q) => Progress::Waiting(q),
            Progress::Finished(a, rest) => Progress::Finished(
                match a {
                    Answer::Ticked(Ok(None)) => Ok(None),
                    Answer::Ticked(Ok(Some(rows))) => if rows.len() == 0 {
                        Ok(None)
                    } else {
                        Ok(Some(picked_rows(offers, rows, force)))
                    },
                    Answer::Ticked(Err(e)) => Err(e),
                    _ => Err(Error::Io(unanswered())),
                },
                rest,
            ),
        },
    }
}

/// What is selected for removal: the target, if one is named, and otherwise
/// what the user ticks. Nothing is selected where there is nothing to offer
/// or nobody to ask.
pub open spec fn select_removal_locals_spec(
    rest: Seq<Answer>,
    assessment: AssessmentModel,
    target: Option<Seq<char>>,
    force: bool,
    prompt: Seq<char>,
) -> Progress<Meant<Option<SelectionModel>>> {
    match target {
        Some(name) => named_selection_spec(rest, assessment, name, force),
        None => if assessment.offers.len() == 0 {
            Progress::Finished(Ok(None), rest)
        } else {
            picked_selection_spec(rest, assessment, force, prompt)
        },
    }
}

fn offers_numbered(offers: &[Offer], id: usize) -> (r: Vec<Offer>)
    ensures
        models(r@) == keep_map(models(offers@), numbered(id)),
{
    let ghost all = models(offers@);
    let mut r: Vec<Offer> = Vec::new();
    let mut i: usize = 0;
    proof {
        rows::lemma_take_all(all);
        assert(models(r@) =~= Seq::empty());
    }
    while i < offers.len()
        invariant
            i <= offers@.len(),
            all == models(offers@),
            models(r@) == keep_map(all.take(i as int), numbered(id)),
        decreases offers@.len() - i,
    {
        broadcast use crate::model::lemma_models_push;

        proof {
            rows::lemma_take_one_more(all, i as int);
        }
        if offers[i].id == id {
            r.push(offers[i].clone());
        }
        i += 1;
    }
    r
}

/// What ticking some rows selects.
pub fn select_rows(offers: &[Offer], ticks: &[usize], force: bool) -> (r: RemovalSelection)
    ensures
        r.model() == picked_rows(models(offers@), ticks@, force),
{
    let ghost all = models(offers@);
    let ghost f = ticked(all);
    let mut chosen: Vec<Offer> = Vec::new();
    let mut ids: Vec<usize> = Vec::new();
    let mut i: usize = 0;
    proof {
        rows::lemma_take_all(ticks@);
        assert(models(chosen@) =~= Seq::empty());
        assert(ids@ =~= ids_of(models(chosen@)));
    }
    while i < ticks.len()
        invariant
            i <= ticks@.len(),
            all == models(offers@),
            f == ticked(all),
            models(chosen@) == keep_map(ticks@.take(i as int), f),
            ids@ == ids_of(models(chosen@)),
        decreases ticks@.len() - i,
    {
        broadcast use crate::model::lemma_models_push;

        proof {
            rows::lemma_take_one_more(ticks@, i as int);
        }
        let row: usize = ticks[i];
        if row < offers.len() && offers[row].held.is_none() {
            let offer: Offer = offers[row].clone();
            let ghost had = models(chosen@);
            ids.push(offer.id);
            chosen.push(offer);
            assert(ids@ =~= ids_of(had.push(offer.model())));
        }
        i += 1;
    }
    let choice: Choice = if force {
        Choice::ForcedPicked(ids)
    } else {
        Choice::Picked(ids)
    };
    RemovalSelection { choice, offers: chosen }
}

pub fn select_removal_locals(
    talk: &mut Talk,
    assessment: &Assessment,
    target: Option<&str>,
    force: bool,
    prompt: &str,
) -> (r: Option<AppResult<Option<RemovalSelection>>>)
    ensures
        heard(r, *final(talk)) == select_removal_locals_spec(
            old(talk).rest(),
            assessment.model(),
            borrowed(target),
            force,
            prompt@,
        ),
{
    if let Some(name) = target {
        let named: NamedOffer = match named_offer(talk, assessment, name)? {
            Ok(named) => named,
            Err(e) => return Some(Err(e)),
        };
        return match named_removal_choice(talk, &named, force)? {
            Err(e) => Some(Err(e)),
            Ok(None) => Some(Ok(None)),
            Ok(Some(choice)) => Some(
                Ok(
                    Some(
                        RemovalSelection {
                            choice,
                            offers: offers_numbered(&assessment.offers, named.id),
                        },
                    ),
                ),
            ),
        };
    }
    if assessment.offers.len() == 0 {
        return Some(Ok(None));
    }
    if !is_interactive(talk)? {
        return Some(Ok(None));
    }
    let request: Request = Request::PickRows {
        prompt: prompt.to_owned(),
        legend: legend_of(&assessment.offers),
        rows: rows_of(assessment),
    };
    let ticks: Vec<usize> = match talk.ask(request)? {
        Reply::Ticked(Ok(Some(ticks))) => {
            assert(models(ticks@) =~= ticks@);
            ticks
        },
        Reply::Ticked(Ok(None)) => return Some(Ok(None)),
        Reply::Ticked(Err(e)) => return Some(Err(e)),
        _ => return Some(Err(no_answer())),
    };
    if ticks.len() == 0 {
        return Some(Ok(None));
    }
    Some(Ok(Some(select_rows(&assessment.offers, &ticks, force))))
}

// ---------------------------------------------------------------------------
// The sweep
// ---------------------------------------------------------------------------

/// The worktrees, or none where they cannot be listed.
pub open spec fn listed_or_none(trees: Meant<Seq<Tree>>) -> Seq<Tree> {
    match trees {
        Ok(trees) => trees,
        Err(_) => Seq::empty(),
    }
}

/// What was selected goes; a removal that did not succeed has been told of.
pub open spec fn swept_spec(
    rest: Seq<Answer>,
    assessment: AssessmentModel,
    selection: SelectionModel,
) -> Progress<Meant<()>> {
    match finish_spec(rest, selection.offers, selection.choice.forced(), assessment.dir) {
        Progress::Waiting(q) => Progress::Waiting(q),
        Progress::Finished(Err(e), rest) => Progress::Finished(Err(e), rest),
        Progress::Finished(Ok(_), rest) => Progress::Finished(Ok(()), rest),
    }
}

/// Offers what was assessed, and removes what is ticked.
pub open spec fn offer_stale_spec(rest: Seq<Answer>, assessment: AssessmentModel) -> Progress<
    Meant<()>,
> {
    match select_removal_locals_spec(
        rest,
        assessment,
        None,
        false,
        "Delete stale branches (space to toggle, →/← all/none)"@,
    ) {
        Progress::Waiting(q) => Progress::Waiting(q),
        Progress::Finished(Err(e), rest) => Progress::Finished(Err(e), rest),
        Progress::Finished(Ok(None), rest) => Progress::Finished(Ok(()), rest),
        Progress::Finished(Ok(Some(selection)), rest) => swept_spec(rest, assessment, selection),
    }
}

/// Offers to delete stale branches, and the worktrees that hold them. The
/// branch just left starts out ticked, and the one about to be entered is
/// named so that it is never offered. Where nobody can be asked, git is not
/// asked either.
pub open spec fn prompt_delete_stale_branches_spec(
    rest: Seq<Answer>,
    old_branch: Option<Seq<char>>,
    destination: Option<Seq<char>>,
    remote: Seq<char>,
) -> Progress<Meant<()>> {
    match flag_asked(rest, Asked::Interactive) {
        Progress::Waiting(q) => Progress::Waiting(q),
        Progress::Finished(false, rest) => Progress::Finished(Ok(()), rest),
        Progress::Finished(true, rest) => match stale_branches_spec(rest, remote) {
            Progress::Waiting(q) => Progress::Waiting(q),
            Progress::Finished(Err(e), rest) => Progress::Finished(Err(e), rest),
            Progress::Finished(Ok(stale), rest) => match worktree_list_in_spec(rest, None) {
                Progress::Waiting(q) => Progress::Waiting(q),
                Progress::Finished(trees, rest) => match assess_stale_spec(
                    rest,
                    stale,
                    listed_or_none(trees),
                    remote,
                    old_branch,
                    destination,
                ) {
                    Progress::Waiting(q) => Progress::Waiting(q),
                    Progress::Finished(Err(e), rest) => Progress::Finished(Err(e), rest),
                    Progress::Finished(Ok(assessment), rest) => offer_stale_spec(rest, assessment),
                },
            },
        },
    }
}

fn offer_stale(talk: &mut Talk, assessment: &Assessment) -> (r: Option<AppResult<()>>)
    ensures
        heard(r, *final(talk)) == offer_stale_spec(old(talk).rest(), assessment.model()),
{
    let selection: RemovalSelection = match select_removal_locals(
        talk,
        assessment,
        None,
        false,
        "Delete stale branches (space to toggle, →/← all/none)",
    )? {
        Ok(Some(selection)) => selection,
        Ok(None) => return Some(Ok(())),
        Err(e) => return Some(Err(e)),
    };
    let forced: bool = selection.choice.is_forced();
    match finish(talk, selection.offers(), forced, lent(&assessment.dir))? {
        Ok(_) => Some(Ok(())),
        Err(e) => Some(Err(e)),
    }
}

pub fn prompt_delete_stale_branches(
    talk: &mut Talk,
    old_branch: Option<&str>,
    destination: Option<&str>,
    remote: &str,
) -> (r: Option<AppResult<()>>)
    ensures
        heard(r, *final(talk)) == prompt_delete_stale_branches_spec(
            old(talk).rest(),
            borrowed(old_branch),
            borrowed(destination),
            remote@,
        ),
{
    if !is_interactive(talk)? {
        return Some(Ok(()));
    }
    let stale: Vec<StaleBranch> = match git::stale_branches(talk, remote)? {
        Ok(stale) => stale,
        Err(e) => return Some(Err(e)),
    };
    let worktrees: Vec<Worktree> = match git::worktree_list(talk)? {
        Ok(trees) => trees,
        Err(_) => {
            let none: Vec<Worktree> = Vec::new();
            assert(models(none@) =~= Seq::empty());
            none
        },
    };
    let assessment: Assessment = match assess_stale(
        talk,
        &stale,
        &worktrees,
        remote,
        old_branch,
        destination,
    )? {
        Ok(assessment) => assessment,
        Err(e) => return Some(Err(e)),
    };
    offer_stale(talk, &assessment)
}

/// Where nobody can be asked, the sweep removes nothing and asks git nothing.
pub proof fn nobody_to_ask_sweeps_nothing(
    rest: Seq<Answer>,
    old_branch: Option<Seq<char>>,
    destination: Option<Seq<char>>,
    remote: Seq<char>,
)
    requires
        rest.len() > 0,
        rest[0] == Answer::Flag(false),
    ensures
        prompt_delete_stale_branches_spec(rest, old_branch, destination, remote) == Progress::<
            Meant<()>,
        >::Finished(Ok(()), rest.drop_first()),
{
}

/// A named target that carries a warning is never taken without force or an
/// answer: where nobody can be asked it is refused, with the reason given.
pub proof fn warned_target_needs_an_answer(rest: Seq<Answer>, named: NamedOfferModel)
    requires
        named.warnings.len() > 0,
    ensures
        rest.len() == 0 ==> named_removal_choice_spec(rest, named, false) == Progress::<
            Meant<Option<ChoiceModel>>,
        >::Waiting(Asked::Interactive),
        rest.len() > 0 && rest[0] != Answer::Flag(true) ==> named_removal_choice_spec(
            rest,
            named,
            false,
        ) == Progress::<Meant<Option<ChoiceModel>>>::Finished(
            Err(Error::Unconfirmed(named.refusal)),
            rest.drop_first(),
        ),
{
}

} // verus!
