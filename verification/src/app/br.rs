//! Removing local branches, and their upstreams if that is wanted too.
use vstd::prelude::*;
use vstd::string::*;

use crate::ask::{flag_asked, lent, tell, tell_asked, unanswered};
use crate::error::{AppResult, Error, IoError, IoKind, Meant};
use crate::git::upstream::{
    delete_remote_branch_spec, inspect_upstream_spec, same_named_upstream_spec,
};
use crate::git::worktrees::worktree_list_in_spec;
use crate::git::{
    self, RemoteBranch, RemoteBranchDeleteOutcome, UpstreamInspection, UpstreamRef, Worktree,
};
use crate::grammar::BranchRemoval;
use crate::model::{borrowed, models, Modelled};
use crate::rows;
use crate::talk::{asked, heard, Answer, Asked, Mark, Progress, Reply, Request, Row, Talk};
use crate::text;

use super::prompts::{confirm, confirm_spec, Confirmation};
use super::reports::is_interactive;
use super::removal::assess::{assess_branches, assess_branches_spec, Meaning};
use super::removal::finish::{remove_branch, remove_branch_spec};
use super::removal::{
    select_removal_locals, select_removal_locals_spec, Assessment, Offer, RemovalSelection,
};

verus! {

// ---------------------------------------------------------------------------
// Looking at upstreams
// ---------------------------------------------------------------------------

/// What was found of the upstream of a branch.
#[derive(Debug, PartialEq, Eq)]
pub enum Prepared<S = String> {
    /// There is none that could go.
    Nothing,
    /// The server does not have it any more.
    Absent(UpstreamRef<S>),
    /// It could go.
    Candidate(RemoteBranch<S>),
    /// It could not be looked at.
    Failed(Error<S>),
}

impl Modelled for Prepared {
    type Model = Prepared<Seq<char>>;

    open spec fn model(&self) -> Prepared<Seq<char>> {
        match self {
            Prepared::Nothing => Prepared::Nothing,
            Prepared::Absent(u) => Prepared::Absent(u.model()),
            Prepared::Candidate(b) => Prepared::Candidate(b.model()),
            Prepared::Failed(e) => Prepared::Failed(e.model()),
        }
    }
}

/// What a [`Prepared`] means.
pub type Found = Prepared<Seq<char>>;

pub open spec fn not_removable(branch: Seq<char>, reason: Seq<char>) -> Error<Seq<char>> {
    Error::NoRemovableUpstream { branch, reason }
}

fn refuse_upstream(branch: &str, reason: &str) -> (r: Error)
    ensures
        r.model() == not_removable(branch@, reason@),
{
    Error::NoRemovableUpstream { branch: branch.to_owned(), reason: reason.to_owned() }
}

/// What an inspection makes of an upstream. Where it was asked for by name,
/// one that may not go is an error, before anything is removed.
pub open spec fn inspected(
    branch: Seq<char>,
    inspection: UpstreamInspection<Seq<char>>,
    strict: bool,
) -> Meant<Found> {
    match inspection {
        UpstreamInspection::Absent(u) => Ok(Prepared::Absent(u)),
        UpstreamInspection::Removable(b) => Ok(Prepared::Candidate(b)),
        UpstreamInspection::Default(_) => if strict {
            Err(not_removable(branch, "it is the remote's default branch"@))
        } else {
            Ok(Prepared::Nothing)
        },
        UpstreamInspection::DefaultUnknown(_) => if strict {
            Err(not_removable(branch, "the remote's default branch is unknown"@))
        } else {
            Ok(Prepared::Nothing)
        },
    }
}

/// Looks at the upstream of a branch: the same-named one that it explicitly
/// tracks, as the server has it now.
pub open spec fn prepare_spec(rest: Seq<Answer>, branch: Seq<char>, strict: bool) -> Progress<
    Meant<Found>,
> {
    match same_named_upstream_spec(rest, branch) {
        Progress::Waiting(q) => Progress::Waiting(q),
        Progress::Finished(Err(e), rest) => Progress::Finished(
            if strict {
                Err(e)
            } else {
                Ok(Prepared::Failed(e))
            },
            rest,
        ),
        Progress::Finished(Ok(None), rest) => Progress::Finished(
            if strict {
                Err(not_removable(branch, "no explicit same-named upstream"@))
            } else {
                Ok(Prepared::Nothing)
            },
            rest,
        ),
        Progress::Finished(Ok(Some(upstream)), rest) => match inspect_upstream_spec(rest, upstream) {
            Progress::Waiting(q) => Progress::Waiting(q),
            Progress::Finished(Err(e), rest) => Progress::Finished(
                if strict {
                    Err(e)
                } else {
                    Ok(Prepared::Failed(e))
                },
                rest,
            ),
            Progress::Finished(Ok(inspection), rest) => Progress::Finished(
                inspected(branch, inspection, strict),
                rest,
            ),
        },
    }
}

pub fn prepare(talk: &mut Talk, branch: &str, strict: bool) -> (r: Option<AppResult<Prepared>>)
    ensures
        heard(r, *final(talk)) == prepare_spec(old(talk).rest(), branch@, strict),
{
    let upstream: UpstreamRef = match git::same_named_upstream(talk, branch)? {
        Ok(Some(upstream)) => upstream,
        Ok(None) => {
            return Some(
                if strict {
                    Err(refuse_upstream(branch, "no explicit same-named upstream"))
                } else {
                    Ok(Prepared::Nothing)
                },
            );
        },
        Err(e) => {
            return Some(
                if strict {
                    Err(e)
                } else {
                    Ok(Prepared::Failed(e))
                },
            );
        },
    };
    match git::inspect_upstream(talk, &upstream)? {
        Err(e) => Some(
            if strict {
                Err(e)
            } else {
                Ok(Prepared::Failed(e))
            },
        ),
        Ok(UpstreamInspection::Absent(u)) => Some(Ok(Prepared::Absent(u))),
        Ok(UpstreamInspection::Removable(b)) => Some(Ok(Prepared::Candidate(b))),
        Ok(UpstreamInspection::Default(_)) => Some(
            if strict {
                Err(refuse_upstream(branch, "it is the remote's default branch"))
            } else {
                Ok(Prepared::Nothing)
            },
        ),
        Ok(UpstreamInspection::DefaultUnknown(_)) => Some(
            if strict {
                Err(refuse_upstream(branch, "the remote's default branch is unknown"))
            } else {
                Ok(Prepared::Nothing)
            },
        ),
    }
}

/// The upstreams of some branches, behind those found already.
pub open spec fn prepare_each(
    rest: Seq<Answer>,
    offers: Seq<Meaning>,
    strict: bool,
    found: Seq<Found>,
) -> Progress<Meant<Seq<Found>>>
    decreases offers.len(),
{
    if offers.len() == 0 {
        Progress::Finished(Ok(found), rest)
    } else {
        match prepare_spec(rest, offers[0].name, strict) {
            Progress::Waiting(q) => Progress::Waiting(q),
            Progress::Finished(Err(e), rest) => Progress::Finished(Err(e), rest),
            Progress::Finished(Ok(one), rest) => prepare_each(
                rest,
                offers.drop_first(),
                strict,
                found.push(one),
            ),
        }
    }
}

fn prepare_all(talk: &mut Talk, offers: &[Offer], strict: bool) -> (r: Option<
    AppResult<Vec<Prepared>>,
>)
    ensures
        heard(r, *final(talk)) == prepare_each(
            old(talk).rest(),
            models(offers@),
            strict,
            Seq::empty(),
        ),
        r matches Some(Ok(found)) ==> found@.len() == offers@.len(),
{
    let ghost all = models(offers@);
    let mut found: Vec<Prepared> = Vec::new();
    let mut i: usize = 0;
    proof {
        rows::lemma_take_all(all);
        assert(models(found@) =~= Seq::empty());
    }
    while i < offers.len()
        invariant
            i <= offers@.len(),
            found@.len() == i,
            all == models(offers@),
            prepare_each(old(talk).rest(), all, strict, Seq::empty()) == prepare_each(
                talk.rest(),
                all.skip(i as int),
                strict,
                models(found@),
            ),
        decreases offers@.len() - i,
    {
        broadcast use crate::model::lemma_models_push;

        proof {
            rows::lemma_take_one_more(all, i as int);
        }
        match prepare(talk, &offers[i].name, strict)? {
            Ok(one) => found.push(one),
            Err(e) => return Some(Err(e)),
        }
        i += 1;
    }
    Some(Ok(found))
}

/// Nothing found, as often as there are branches.
pub open spec fn nothing_for(offers: Seq<Meaning>) -> Seq<Found> {
    Seq::new(offers.len(), |i: int| Prepared::Nothing)
}

fn find_nothing(offers: &[Offer]) -> (r: Vec<Prepared>)
    ensures
        models(r@) == nothing_for(models(offers@)),
{
    let mut r: Vec<Prepared> = Vec::new();
    let mut i: usize = 0;
    while i < offers.len()
        invariant
            i <= offers@.len(),
            r@.len() == i,
            forall|j: int| 0 <= j < i ==> (#[trigger] r@[j]).model() == Found::Nothing,
        decreases offers@.len() - i,
    {
        r.push(Prepared::Nothing);
        i += 1;
    }
    assert(models(r@) =~= nothing_for(models(offers@)));
    r
}

// ---------------------------------------------------------------------------
// Choosing upstreams
// ---------------------------------------------------------------------------

/// How an upstream is spoken of.
pub open spec fn spoken(branch: RemoteBranch<Seq<char>>) -> Seq<char> {
    branch.remote + "/"@ + branch.branch
}

fn speak(branch: &RemoteBranch) -> (r: String)
    ensures
        r@ == spoken(branch.model()),
{
    text::joined3(&branch.remote, "/", &branch.branch)
}

/// The upstreams that could go.
pub open spec fn candidates(found: Seq<Found>) -> Seq<RemoteBranch<Seq<char>>> {
    rows::keep_map(found, candidate())
}

pub open spec fn candidate() -> spec_fn(Found) -> Option<RemoteBranch<Seq<char>>> {
    |one: Found|
        match one {
            Prepared::Candidate(b) => Some(b),
            _ => None,
        }
}

fn candidates_among(found: &[Prepared]) -> (r: Vec<RemoteBranch>)
    ensures
        models(r@) == candidates(models(found@)),
{
    let ghost all = models(found@);
    let mut r: Vec<RemoteBranch> = Vec::new();
    let mut i: usize = 0;
    proof {
        rows::lemma_take_all(all);
        assert(models(r@) =~= Seq::empty());
    }
    while i < found.len()
        invariant
            i <= found@.len(),
            all == models(found@),
            models(r@) == rows::keep_map(all.take(i as int), candidate()),
        decreases found@.len() - i,
    {
        broadcast use crate::model::lemma_models_push;

        proof {
            rows::lemma_take_one_more(all, i as int);
        }
        if let Prepared::Candidate(b) = &found[i] {
            r.push(b.clone());
        }
        i += 1;
    }
    r
}

pub open spec fn upstream_rows(branches: Seq<RemoteBranch<Seq<char>>>, ticked: bool) -> Seq<
    Row<Seq<char>>,
> {
    Seq::new(
        branches.len(),
        |i: int|
            Row { name: spoken(branches[i]), detail: Seq::empty(), selectable: true, ticked },
    )
}

fn rows_for(branches: &[RemoteBranch], ticked: bool) -> (r: Vec<Row>)
    ensures
        models(r@) == upstream_rows(models(branches@), ticked),
{
    let ghost all = upstream_rows(models(branches@), ticked);
    let mut r: Vec<Row> = Vec::new();
    let mut i: usize = 0;
    proof {
        rows::lemma_take_all(all);
        assert(models(r@) =~= Seq::empty());
    }
    while i < branches.len()
        invariant
            i <= branches@.len(),
            all == upstream_rows(models(branches@), ticked),
            models(r@) == all.take(i as int),
        decreases branches@.len() - i,
    {
        broadcast use crate::model::lemma_models_push;

        proof {
            rows::lemma_take_one_more(all, i as int);
        }
        let detail: String = String::new();
        assert(detail@ =~= Seq::empty());
        let line: Row = Row { name: speak(&branches[i]), detail, selectable: true, ticked };
        assert(line.model() == all[i as int]);
        r.push(line);
        i += 1;
    }
    assert(all.take(i as int) =~= all);
    r
}

/// What the user says of the one upstream that goes with a named branch. It
/// always has to be asked about: it may be the last name of the branch's
/// commits.
pub open spec fn ask_one_spec(
    rest: Seq<Answer>,
    branch: RemoteBranch<Seq<char>>,
    default_yes: bool,
) -> Progress<Meant<Option<Seq<RemoteBranch<Seq<char>>>>>> {
    match tell_asked(
        rest,
        Mark::Warning,
        "deleting "@ + spoken(branch) + " removes a shared upstream ref"@,
    ) {
        Progress::Waiting(q) => Progress::Waiting(q),
        Progress::Finished(_, rest) => match confirm_spec(
            rest,
            "Delete upstream "@ + spoken(branch) + " too?"@,
            default_yes,
        ) {
            Progress::Waiting(q) => Progress::Waiting(q),
            Progress::Finished(Err(e), rest) => Progress::Finished(Err(e), rest),
            Progress::Finished(Ok(Confirmation::Accepted), rest) => Progress::Finished(
                Ok(Some(Seq::empty().push(branch))),
                rest,
            ),
            Progress::Finished(Ok(Confirmation::Declined), rest) => Progress::Finished(
                Ok(Some(Seq::empty())),
                rest,
            ),
            Progress::Finished(Ok(Confirmation::Cancelled), rest) => Progress::Finished(
                Ok(None),
                rest,
            ),
        },
    }
}

fn ask_one(talk: &mut Talk, branch: &RemoteBranch, default_yes: bool) -> (r: Option<
    AppResult<Option<Vec<RemoteBranch>>>,
>)
    ensures
        heard(r, *final(talk)) == ask_one_spec(old(talk).rest(), branch.model(), default_yes),
{
    let shown: String = speak(branch);
    tell(
        talk,
        Mark::Warning,
        text::joined3("deleting ", &shown, " removes a shared upstream ref"),
    )?;
    let question: String = text::joined3("Delete upstream ", &shown, " too?");
    match confirm(talk, &question, default_yes)? {
        Err(e) => Some(Err(e)),
        Ok(Confirmation::Cancelled) => Some(Ok(None)),
        Ok(Confirmation::Declined) => {
            let none: Vec<RemoteBranch> = Vec::new();
            assert(models(none@) =~= Seq::empty());
            Some(Ok(Some(none)))
        },
        Ok(Confirmation::Accepted) => {
            let mut one: Vec<RemoteBranch> = Vec::new();
            one.push(branch.clone());
            assert(models(one@) =~= Seq::empty().push(branch.model()));
            Some(Ok(Some(one)))
        },
    }
}

pub open spec fn at_row(branches: Seq<RemoteBranch<Seq<char>>>) -> spec_fn(usize) -> Option<
    RemoteBranch<Seq<char>>,
> {
    |row: usize|
        if row < branches.len() {
            Some(branches[row as int])
        } else {
            None
        }
}

/// What the user ticks among the upstreams of several branches.
pub open spec fn ask_several_spec(
    rest: Seq<Answer>,
    branches: Seq<RemoteBranch<Seq<char>>>,
    ticked: bool,
) -> Progress<Meant<Option<Seq<RemoteBranch<Seq<char>>>>>> {
    match asked(
        rest,
        Asked::PickRows {
            prompt: "Also delete upstream branches?"@,
            legend: Seq::empty(),
            rows: upstream_rows(branches, ticked),
        },
    ) {
        Progress::Waiting(q) => Progress::Waiting(q),
        Progress::Finished(a, rest) => Progress::Finished(
            match a {
                Answer::Ticked(Ok(None)) => Ok(None),
                Answer::Ticked(Ok(Some(ticks))) => Ok(
                    Some(rows::keep_map(ticks, at_row(branches))),
                ),
                Answer::Ticked(Err(e)) => Err(e),
                _ => Err(Error::Io(unanswered())),
            },
            rest,
        ),
    }
}

fn branches_at(branches: &[RemoteBranch], ticks: &[usize]) -> (r: Vec<RemoteBranch>)
    ensures
        models(r@) == rows::keep_map(ticks@, at_row(models(branches@))),
{
    let ghost all = models(branches@);
    let ghost f = at_row(all);
    let mut r: Vec<RemoteBranch> = Vec::new();
    let mut i: usize = 0;
    proof {
        rows::lemma_take_all(ticks@);
        assert(models(r@) =~= Seq::empty());
    }
    while i < ticks.len()
        invariant
            i <= ticks@.len(),
            all == models(branches@),
            f == at_row(all),
            models(r@) == rows::keep_map(ticks@.take(i as int), f),
        decreases ticks@.len() - i,
    {
        broadcast use crate::model::lemma_models_push;

        proof {
            rows::lemma_take_one_more(ticks@, i as int);
        }
        let row: usize = ticks[i];
        if row < branches.len() {
            r.push(branches[row].clone());
        }
        i += 1;
    }
    r
}

fn ask_several(talk: &mut Talk, branches: &[RemoteBranch], ticked: bool) -> (r: Option<
    AppResult<Option<Vec<RemoteBranch>>>,
>)
    ensures
        heard(r, *final(talk)) == ask_several_spec(old(talk).rest(), models(branches@), ticked),
{
    let legend: Vec<String> = Vec::new();
    assert(models(legend@) =~= Seq::empty());
    let request: Request = Request::PickRows {
        prompt: "Also delete upstream branches?".to_owned(),
        legend,
        rows: rows_for(branches, ticked),
    };
    match talk.ask(request)? {
        Reply::Ticked(Ok(None)) => Some(Ok(None)),
        Reply::Ticked(Ok(Some(ticks))) => {
            assert(models(ticks@) =~= ticks@);
            Some(Ok(Some(branches_at(branches, &ticks))))
        },
        Reply::Ticked(Err(e)) => Some(Err(e)),
        _ => Some(
            Err(Error::Io(IoError { kind: IoKind::Other, message: "no answer".to_owned() })),
        ),
    }
}

/// Which upstreams go too; none where the whole removal was called off. They
/// are asked about unless force was given for them outright, and where nobody
/// can be asked only that lets them go.
pub open spec fn choose_upstreams_spec(
    rest: Seq<Answer>,
    options: BranchRemoval<Seq<char>>,
    interactive: bool,
    found: Seq<Found>,
) -> Progress<Meant<Option<Seq<RemoteBranch<Seq<char>>>>>> {
    let branches = candidates(found);
    if branches.len() == 0 {
        Progress::Finished(Ok(Some(Seq::empty())), rest)
    } else if options.force {
        Progress::Finished(Ok(Some(branches)), rest)
    } else if !interactive {
        Progress::Finished(
            Err(
                Error::Unconfirmed(
                    "deleting an upstream has to be confirmed; pass --force to delete it anyway"@,
                ),
            ),
            rest,
        )
    } else if options.target is Some {
        ask_one_spec(rest, branches[0], options.upstream)
    } else {
        ask_several_spec(rest, branches, options.upstream)
    }
}

fn choose_upstreams(
    talk: &mut Talk,
    options: &BranchRemoval,
    interactive: bool,
    found: &[Prepared],
) -> (r: Option<AppResult<Option<Vec<RemoteBranch>>>>)
    ensures
        heard(r, *final(talk)) == choose_upstreams_spec(
            old(talk).rest(),
            options.model(),
            interactive,
            models(found@),
        ),
{
    let branches: Vec<RemoteBranch> = candidates_among(found);
    if branches.len() == 0 {
        assert(models(branches@) =~= Seq::empty());
        return Some(Ok(Some(branches)));
    }
    if options.force() {
        return Some(Ok(Some(branches)));
    }
    if !interactive {
        return Some(
            Err(
                Error::Unconfirmed(
                    "deleting an upstream has to be confirmed; pass --force to delete it anyway".to_owned(),
                ),
            ),
        );
    }
    if options.target().is_some() {
        assert(models(branches@)[0] == branches@[0].model());
        ask_one(talk, &branches[0], options.upstream())
    } else {
        ask_several(talk, &branches, options.upstream())
    }
}

// ---------------------------------------------------------------------------
// Removing a branch and its upstream
// ---------------------------------------------------------------------------

/// What came of an upstream, in words; whether it is a failure comes first.
pub open spec fn upstream_line(
    branch: RemoteBranch<Seq<char>>,
    outcome: Meant<RemoteBranchDeleteOutcome<Seq<char>>>,
) -> (bool, Seq<char>) {
    let shown = spoken(branch);
    match outcome {
        Ok(RemoteBranchDeleteOutcome::Deleted) => (false, "deleted upstream "@ + shown),
        Ok(RemoteBranchDeleteOutcome::AlreadyAbsent) => (
            false,
            "upstream "@ + shown + " is already absent"@,
        ),
        Ok(RemoteBranchDeleteOutcome::Moved { expected, now }) => (
            true,
            "kept upstream "@ + shown + " because it moved from "@ + expected + " to "@ + now,
        ),
        Ok(RemoteBranchDeleteOutcome::Failed(why)) => (
            true,
            "could not delete upstream "@ + shown + ": "@ + why,
        ),
        Err(e) => (true, "could not delete upstream "@ + shown + ": "@ + e.message()),
    }
}

/// Deletes an upstream, while it stands where it was shown to.
pub open spec fn remove_upstream_spec(
    rest: Seq<Answer>,
    branch: RemoteBranch<Seq<char>>,
) -> Progress<bool> {
    match delete_remote_branch_spec(rest, branch) {
        Progress::Waiting(q) => Progress::Waiting(q),
        Progress::Finished(outcome, rest) => {
            let (failed, line) = upstream_line(branch, outcome);
            match tell_asked(
                rest,
                if failed {
                    Mark::Warning
                } else {
                    Mark::Check
                },
                line,
            ) {
                Progress::Waiting(q) => Progress::Waiting(q),
                Progress::Finished(_, rest) => Progress::Finished(!failed, rest),
            }
        },
    }
}

fn line_for(branch: &RemoteBranch, outcome: AppResult<RemoteBranchDeleteOutcome>) -> (r: (
    bool,
    String,
))
    ensures
        r.model() == upstream_line(branch.model(), outcome.model()),
{
    let shown: String = speak(branch);
    match outcome {
        Ok(RemoteBranchDeleteOutcome::Deleted) => (
            false,
            text::joined("deleted upstream ", &shown),
        ),
        Ok(RemoteBranchDeleteOutcome::AlreadyAbsent) => (
            false,
            text::joined3("upstream ", &shown, " is already absent"),
        ),
        Ok(RemoteBranchDeleteOutcome::Moved { expected, now }) => {
            let mut line: String = text::joined3("kept upstream ", &shown, " because it moved from ");
            line.append(&expected);
            line.append(" to ");
            line.append(&now);
            (true, line)
        },
        Ok(RemoteBranchDeleteOutcome::Failed(why)) => {
            let mut line: String = text::joined3("could not delete upstream ", &shown, ": ");
            line.append(&why);
            (true, line)
        },
        Err(e) => {
            let mut line: String = text::joined3("could not delete upstream ", &shown, ": ");
            line.append(&e.to_string());
            (true, line)
        },
    }
}

fn remove_upstream(talk: &mut Talk, branch: &RemoteBranch) -> (r: Option<bool>)
    ensures
        heard(r, *final(talk)) == remove_upstream_spec(old(talk).rest(), branch.model()),
{
    let outcome: AppResult<RemoteBranchDeleteOutcome> = git::delete_remote_branch(talk, branch)?;
    let said: (bool, String) = line_for(branch, outcome);
    tell(
        talk,
        if said.0 {
            Mark::Warning
        } else {
            Mark::Check
        },
        said.1,
    )?;
    Some(!said.0)
}

/// What follows a local branch: the upstream that was chosen with it, and only
/// once the local branch is gone.
pub open spec fn follow_spec(
    rest: Seq<Answer>,
    found: Found,
    chosen: Seq<RemoteBranch<Seq<char>>>,
    upstream: bool,
    gone: bool,
) -> Progress<bool> {
    match found {
        Prepared::Candidate(branch) => if !chosen.contains(branch) {
            Progress::Finished(gone, rest)
        } else if gone {
            remove_upstream_spec(rest, branch)
        } else {
            match tell_asked(
                rest,
                Mark::Warning,
                "kept upstream "@ + spoken(branch) + " because the local branch still exists"@,
            ) {
                Progress::Waiting(q) => Progress::Waiting(q),
                Progress::Finished(_, rest) => Progress::Finished(false, rest),
            }
        },
        Prepared::Absent(u) => if gone && upstream {
            match tell_asked(
                rest,
                Mark::Check,
                "upstream "@ + u.remote + "/"@ + u.branch + " is already absent"@,
            ) {
                Progress::Waiting(q) => Progress::Waiting(q),
                Progress::Finished(_, rest) => Progress::Finished(true, rest),
            }
        } else {
            Progress::Finished(gone, rest)
        },
        _ => Progress::Finished(gone, rest),
    }
}

fn is_same(a: &RemoteBranch, b: &RemoteBranch) -> (r: bool)
    ensures
        r == (a.model() == b.model()),
{
    text::same(&a.remote, &b.remote) && text::same(&a.branch, &b.branch) && text::same(
        &a.tip,
        &b.tip,
    )
}

fn is_chosen(chosen: &[RemoteBranch], branch: &RemoteBranch) -> (r: bool)
    ensures
        r == models(chosen@).contains(branch.model()),
{
    let ghost all = models(chosen@);
    let mut i: usize = 0;
    while i < chosen.len()
        invariant
            i <= chosen@.len(),
            all == models(chosen@),
            forall|j: int| 0 <= j < i ==> #[trigger] all[j] != branch.model(),
        decreases chosen@.len() - i,
    {
        assert(all[i as int] == chosen@[i as int].model());
        if is_same(&chosen[i], branch) {
            return true;
        }
        i += 1;
    }
    false
}

fn follow(
    talk: &mut Talk,
    found: &Prepared,
    chosen: &[RemoteBranch],
    upstream: bool,
    gone: bool,
) -> (r: Option<bool>)
    ensures
        heard(r, *final(talk)) == follow_spec(
            old(talk).rest(),
            found.model(),
            models(chosen@),
            upstream,
            gone,
        ),
{
    match found {
        Prepared::Candidate(branch) => {
            if !is_chosen(chosen, branch) {
                return Some(gone);
            }
            if gone {
                return remove_upstream(talk, branch);
            }
            tell(
                talk,
                Mark::Warning,
                text::joined3(
                    "kept upstream ",
                    &speak(branch),
                    " because the local branch still exists",
                ),
            )?;
            Some(false)
        },
        Prepared::Absent(u) => {
            if gone && upstream {
                let mut line: String = text::joined3("upstream ", &u.remote, "/");
                line.append(&u.branch);
                line.append(" is already absent");
                tell(talk, Mark::Check, line)?;
            }
            Some(gone)
        },
        _ => Some(gone),
    }
}

/// Removes one branch, and what of its upstream was chosen with it. Where the
/// upstream was wanted and could not be looked at, neither goes.
pub open spec fn remove_pair_spec(
    rest: Seq<Answer>,
    offer: Meaning,
    found: Found,
    chosen: Seq<RemoteBranch<Seq<char>>>,
    options: BranchRemoval<Seq<char>>,
    dir: Option<Seq<char>>,
) -> Progress<Meant<bool>> {
    if options.upstream && found is Failed {
        match tell_asked(
            rest,
            Mark::Warning,
            "could not prepare upstream removal for "@ + offer.name + ": "@
                + found->Failed_0.message(),
        ) {
            Progress::Waiting(q) => Progress::Waiting(q),
            Progress::Finished(_, rest) => Progress::Finished(Ok(false), rest),
        }
    } else {
        match remove_branch_spec(rest, offer, options.force, dir) {
            Progress::Waiting(q) => Progress::Waiting(q),
            Progress::Finished(Err(e), rest) => Progress::Finished(Err(e), rest),
            Progress::Finished(Ok(gone), rest) => match follow_spec(
                rest,
                found,
                chosen,
                options.upstream,
                gone,
            ) {
                Progress::Waiting(q) => Progress::Waiting(q),
                Progress::Finished(done, rest) => Progress::Finished(Ok(done), rest),
            },
        }
    }
}

fn remove_pair(
    talk: &mut Talk,
    offer: &Offer,
    found: &Prepared,
    chosen: &[RemoteBranch],
    options: &BranchRemoval,
    dir: Option<&str>,
) -> (r: Option<AppResult<bool>>)
    ensures
        heard(r, *final(talk)) == remove_pair_spec(
            old(talk).rest(),
            offer.model(),
            found.model(),
            models(chosen@),
            options.model(),
            borrowed(dir),
        ),
{
    if options.upstream() {
        if let Prepared::Failed(e) = found {
            let mut line: String = text::joined3(
                "could not prepare upstream removal for ",
                &offer.name,
                ": ",
            );
            line.append(&e.to_string());
            tell(talk, Mark::Warning, line)?;
            return Some(Ok(false));
        }
    }
    match remove_branch(talk, offer, options.force(), dir)? {
        Err(e) => Some(Err(e)),
        Ok(gone) => {
            let done: bool = follow(talk, found, chosen, options.upstream(), gone)?;
            Some(Ok(done))
        },
    }
}

/// Branches removed one after the other, each with its upstream; one that
/// fails stops none of the others.
pub open spec fn remove_pairs(
    rest: Seq<Answer>,
    offers: Seq<Meaning>,
    found: Seq<Found>,
    chosen: Seq<RemoteBranch<Seq<char>>>,
    options: BranchRemoval<Seq<char>>,
    dir: Option<Seq<char>>,
    all: bool,
) -> Progress<Meant<bool>>
    decreases offers.len(),
{
    if offers.len() == 0 {
        Progress::Finished(Ok(all), rest)
    } else {
        match remove_pair_spec(rest, offers[0], found[0], chosen, options, dir) {
            Progress::Waiting(q) => Progress::Waiting(q),
            Progress::Finished(Err(e), rest) => Progress::Finished(Err(e), rest),
            Progress::Finished(Ok(done), rest) => remove_pairs(
                rest,
                offers.drop_first(),
                found.drop_first(),
                chosen,
                options,
                dir,
                all && done,
            ),
        }
    }
}

fn remove_all(
    talk: &mut Talk,
    offers: &[Offer],
    found: &[Prepared],
    chosen: &[RemoteBranch],
    options: &BranchRemoval,
    dir: Option<&str>,
) -> (r: Option<AppResult<bool>>)
    requires
        offers@.len() == found@.len(),
    ensures
        heard(r, *final(talk)) == remove_pairs(
            old(talk).rest(),
            models(offers@),
            models(found@),
            models(chosen@),
            options.model(),
            borrowed(dir),
            true,
        ),
{
    let ghost every = models(offers@);
    let ghost each = models(found@);
    let mut all: bool = true;
    let mut i: usize = 0;
    proof {
        rows::lemma_take_all(every);
        rows::lemma_take_all(each);
    }
    while i < offers.len()
        invariant
            i <= offers@.len(),
            offers@.len() == found@.len(),
            every == models(offers@),
            each == models(found@),
            remove_pairs(
                old(talk).rest(),
                every,
                each,
                models(chosen@),
                options.model(),
                borrowed(dir),
                true,
            ) == remove_pairs(
                talk.rest(),
                every.skip(i as int),
                each.skip(i as int),
                models(chosen@),
                options.model(),
                borrowed(dir),
                all,
            ),
        decreases offers@.len() - i,
    {
        proof {
            rows::lemma_take_one_more(every, i as int);
            rows::lemma_take_one_more(each, i as int);
        }
        match remove_pair(talk, &offers[i], &found[i], chosen, options, dir)? {
            Ok(done) => {
                all = all && done;
            },
            Err(e) => return Some(Err(e)),
        }
        i += 1;
    }
    Some(Ok(all))
}

// ---------------------------------------------------------------------------
// `br rm`
// ---------------------------------------------------------------------------

/// The upstreams are looked at where they are wanted or can be asked about.
/// Force alone concerns the local branches, and leaves the upstreams be.
pub open spec fn looks_at_upstreams(options: BranchRemoval<Seq<char>>, interactive: bool) -> bool {
    options.upstream || (interactive && !options.force)
}

pub open spec fn prepared_spec(
    rest: Seq<Answer>,
    offers: Seq<Meaning>,
    options: BranchRemoval<Seq<char>>,
    interactive: bool,
) -> Progress<Meant<Seq<Found>>> {
    if looks_at_upstreams(options, interactive) {
        prepare_each(rest, offers, options.upstream && options.target is Some, Seq::empty())
    } else {
        Progress::Finished(Ok(nothing_for(offers)), rest)
    }
}

/// Removes what was selected. Everything is looked at and asked about before
/// anything goes, and calling off the upstreams calls off the whole.
pub open spec fn remove_selected_spec(
    rest: Seq<Answer>,
    offers: Seq<Meaning>,
    options: BranchRemoval<Seq<char>>,
    dir: Option<Seq<char>>,
) -> Progress<Meant<()>> {
    match flag_asked(rest, Asked::Interactive) {
        Progress::Waiting(q) => Progress::Waiting(q),
        Progress::Finished(interactive, rest) => match prepared_spec(
            rest,
            offers,
            options,
            interactive,
        ) {
            Progress::Waiting(q) => Progress::Waiting(q),
            Progress::Finished(Err(e), rest) => Progress::Finished(Err(e), rest),
            Progress::Finished(Ok(found), rest) => match choose_upstreams_spec(
                rest,
                options,
                interactive,
                found,
            ) {
                Progress::Waiting(q) => Progress::Waiting(q),
                Progress::Finished(Err(e), rest) => Progress::Finished(Err(e), rest),
                Progress::Finished(Ok(None), rest) => Progress::Finished(Ok(()), rest),
                Progress::Finished(Ok(Some(chosen)), rest) => match remove_pairs(
                    rest,
                    offers,
                    found,
                    chosen,
                    options,
                    dir,
                    true,
                ) {
                    Progress::Waiting(q) => Progress::Waiting(q),
                    Progress::Finished(Err(e), rest) => Progress::Finished(Err(e), rest),
                    Progress::Finished(Ok(all), rest) => Progress::Finished(
                        if all {
                            Ok(())
                        } else {
                            Err(Error::RemovalFailed)
                        },
                        rest,
                    ),
                },
            },
        },
    }
}

fn remove_selected(talk: &mut Talk, offers: &[Offer], options: &BranchRemoval, dir: Option<&str>) -> (r:
    Option<AppResult<()>>)
    ensures
        heard(r, *final(talk)) == remove_selected_spec(
            old(talk).rest(),
            models(offers@),
            options.model(),
            borrowed(dir),
        ),
{
    let interactive: bool = is_interactive(talk)?;
    let found: Vec<Prepared> = if options.upstream() || (interactive && !options.force()) {
        match prepare_all(talk, offers, options.upstream() && options.target().is_some())? {
            Ok(found) => found,
            Err(e) => return Some(Err(e)),
        }
    } else {
        let found: Vec<Prepared> = find_nothing(offers);
        assert(models(found@).len() == offers@.len());
        found
    };
    let chosen: Vec<RemoteBranch> = match choose_upstreams(talk, options, interactive, &found)? {
        Ok(Some(chosen)) => chosen,
        Ok(None) => return Some(Ok(())),
        Err(e) => return Some(Err(e)),
    };
    match remove_all(talk, offers, &found, &chosen, options, dir)? {
        Err(e) => Some(Err(e)),
        Ok(all) => Some(
            if all {
                Ok(())
            } else {
                Err(Error::RemovalFailed)
            },
        ),
    }
}

/// `br rm`: removes local branches, by name or as the user picks.
pub open spec fn run_rm_spec(rest: Seq<Answer>, options: BranchRemoval<Seq<char>>) -> Progress<
    Meant<()>,
> {
    match git::local_branches_spec(rest) {
        Progress::Waiting(q) => Progress::Waiting(q),
        Progress::Finished(Err(e), rest) => Progress::Finished(Err(e), rest),
        Progress::Finished(Ok(names), rest) => match worktree_list_in_spec(rest, None) {
            Progress::Waiting(q) => Progress::Waiting(q),
            Progress::Finished(Err(e), rest) => Progress::Finished(Err(e), rest),
            Progress::Finished(Ok(trees), rest) => match assess_branches_spec(rest, names, trees) {
                Progress::Waiting(q) => Progress::Waiting(q),
                Progress::Finished(Err(e), rest) => Progress::Finished(Err(e), rest),
                Progress::Finished(Ok(assessment), rest) => match select_removal_locals_spec(
                    rest,
                    assessment,
                    options.target,
                    options.force,
                    "Remove branches (space to toggle, →/← all/none)"@,
                ) {
                    Progress::Waiting(q) => Progress::Waiting(q),
                    Progress::Finished(Err(e), rest) => Progress::Finished(Err(e), rest),
                    Progress::Finished(Ok(None), rest) => Progress::Finished(Ok(()), rest),
                    Progress::Finished(Ok(Some(selection)), rest) => remove_selected_spec(
                        rest,
                        selection.offers,
                        options,
                        assessment.dir,
                    ),
                },
            },
        },
    }
}

pub fn run_rm(talk: &mut Talk, options: &BranchRemoval) -> (r: Option<AppResult<()>>)
    ensures
        heard(r, *final(talk)) == run_rm_spec(old(talk).rest(), options.model()),
{
    let names: Vec<String> = match git::local_branches(talk)? {
        Ok(names) => names,
        Err(e) => return Some(Err(e)),
    };
    let trees: Vec<Worktree> = match git::worktree_list(talk)? {
        Ok(trees) => trees,
        Err(e) => return Some(Err(e)),
    };
    let assessment: Assessment = match assess_branches(talk, &names, &trees)? {
        Ok(assessment) => assessment,
        Err(e) => return Some(Err(e)),
    };
    let selection: RemovalSelection = match select_removal_locals(
        talk,
        &assessment,
        options.target(),
        options.force(),
        "Remove branches (space to toggle, →/← all/none)",
    )? {
        Ok(Some(selection)) => selection,
        Ok(None) => return Some(Ok(())),
        Err(e) => return Some(Err(e)),
    };
    remove_selected(talk, selection.offers(), options, lent(&assessment.dir))
}

} // verus!
