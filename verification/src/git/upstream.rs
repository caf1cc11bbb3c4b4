//! The upstream of a branch, as its remote has it.
use vstd::prelude::*;
use vstd::string::*;

use crate::ask::{args3, args5, args6, ask_git, git, git_asked, words3, words5, words6};
use crate::error::{AppResult, Error, Meant};
use crate::grammar::Words;
use crate::model::{models, Modelled};
use crate::rows::{self, first_of, last_of};
use crate::talk::{heard, Answer, Output, Progress, Talk};
use crate::text;

use super::{run, run_in_spec};

verus! {

/// The configured upstream of a local branch that is published under its own
/// name.
#[derive(Debug, PartialEq, Eq)]
pub struct UpstreamRef<S = String> {
    pub remote: S,
    pub branch: S,
}

impl Modelled for UpstreamRef {
    type Model = UpstreamRef<Seq<char>>;

    open spec fn model(&self) -> UpstreamRef<Seq<char>> {
        UpstreamRef { remote: self.remote@, branch: self.branch@ }
    }
}

impl Clone for UpstreamRef {
    fn clone(&self) -> (r: Self)
        ensures
            r.model() == self.model(),
    {
        UpstreamRef { remote: self.remote.clone(), branch: self.branch.clone() }
    }
}

/// A live upstream, with the server's tip that a deletion must still find.
#[derive(Debug, PartialEq, Eq)]
pub struct RemoteBranch<S = String> {
    pub remote: S,
    pub branch: S,
    pub tip: S,
}

impl Modelled for RemoteBranch {
    type Model = RemoteBranch<Seq<char>>;

    open spec fn model(&self) -> RemoteBranch<Seq<char>> {
        RemoteBranch { remote: self.remote@, branch: self.branch@, tip: self.tip@ }
    }
}

impl Clone for RemoteBranch {
    fn clone(&self) -> (r: Self)
        ensures
            r.model() == self.model(),
    {
        RemoteBranch {
            remote: self.remote.clone(),
            branch: self.branch.clone(),
            tip: self.tip.clone(),
        }
    }
}

/// What the server says of an upstream.
#[derive(Debug, PartialEq, Eq)]
pub enum UpstreamInspection<S = String> {
    Absent(UpstreamRef<S>),
    Default(UpstreamRef<S>),
    DefaultUnknown(UpstreamRef<S>),
    Removable(RemoteBranch<S>),
}

impl Modelled for UpstreamInspection {
    type Model = UpstreamInspection<Seq<char>>;

    open spec fn model(&self) -> UpstreamInspection<Seq<char>> {
        match self {
            UpstreamInspection::Absent(u) => UpstreamInspection::Absent(u.model()),
            UpstreamInspection::Default(u) => UpstreamInspection::Default(u.model()),
            UpstreamInspection::DefaultUnknown(u) => UpstreamInspection::DefaultUnknown(u.model()),
            UpstreamInspection::Removable(b) => UpstreamInspection::Removable(b.model()),
        }
    }
}

/// The full name of a branch's ref.
pub open spec fn head_ref(branch: Seq<char>) -> Seq<char> {
    "refs/heads/"@ + branch
}

/// The upstream that a line names, if it is that of `branch` and under the
/// same name: a branch that tracks another as its base has none of its own.
pub open spec fn same_named(branch: Seq<char>) -> spec_fn(Seq<char>) -> Option<
    UpstreamRef<Seq<char>>,
> {
    |line: Seq<char>|
        {
            let fields = text::split(line, '\t');
            if fields.len() >= 3 && fields[0] == branch && fields[1].len() > 0 && fields[1] != "."@
                && fields[2] == head_ref(branch) {
                Some(UpstreamRef { remote: fields[1], branch })
            } else {
                None
            }
        }
}

pub open spec fn same_named_upstream_spec(rest: Seq<Answer>, branch: Seq<char>) -> Progress<
    Meant<Option<UpstreamRef<Seq<char>>>>,
> {
    match run_in_spec(
        rest,
        None,
        args3(
            "for-each-ref"@,
            "--format=%(refname:short)%09%(upstream:remotename)%09%(upstream:remoteref)"@,
            head_ref(branch),
        ),
    ) {
        Progress::Waiting(q) => Progress::Waiting(q),
        Progress::Finished(Err(e), rest) => Progress::Finished(Err(e), rest),
        Progress::Finished(Ok(output), rest) => Progress::Finished(
            Ok(first_of(text::lines(output), same_named(branch))),
            rest,
        ),
    }
}

/// The rule half of [`same_named_upstream`].
pub fn same_named_from(output: &str, branch: &str) -> (r: Option<UpstreamRef>)
    ensures
        r.model() == first_of(text::lines(output@), same_named(branch@)),
{
    let expected: String = text::joined("refs/heads/", branch);
    let lines: Vec<String> = text::lines_of(output);
    let ghost all = text::lines(output@);
    let ghost f = same_named(branch@);
    let mut i: usize = 0;
    proof {
        rows::lemma_take_all(all);
    }
    while i < lines.len()
        invariant
            i <= lines@.len(),
            all == models(lines@),
            all == text::lines(output@),
            expected@ == head_ref(branch@),
            f == same_named(branch@),
            first_of(all, f) == first_of(all.skip(i as int), f),
        decreases lines@.len() - i,
    {
        proof {
            rows::lemma_take_one_more(all, i as int);
        }
        let fields: Vec<String> = text::split_at_each(&lines[i], '\t');
        let ghost fs = text::split(lines@[i as int]@, '\t');
        if fields.len() >= 3 {
            assert(fs[0] == fields@[0].model() && fs[1] == fields@[1].model() && fs[2]
                == fields@[2].model());
            if text::same(&fields[0], branch) && !fields[1].as_str().is_empty() && !text::same(
                &fields[1],
                ".",
            ) && text::same(&fields[2], &expected) {
                return Some(UpstreamRef { remote: fields[1].clone(), branch: branch.to_owned() });
            }
        }
        i += 1;
    }
    None
}

/// The same-named, configured upstream of `branch`. No remote is guessed: a
/// default to fetch from is no authority to delete a shared ref.
pub fn same_named_upstream(talk: &mut Talk, branch: &str) -> (r: Option<
    AppResult<Option<UpstreamRef>>,
>)
    ensures
        heard(r, *final(talk)) == same_named_upstream_spec(old(talk).rest(), branch@),
{
    let local_ref: String = text::joined("refs/heads/", branch);
    match run(
        talk,
        words3(
            "for-each-ref",
            "--format=%(refname:short)%09%(upstream:remotename)%09%(upstream:remoteref)",
            &local_ref,
        ),
    )? {
        Err(e) => Some(Err(e)),
        Ok(output) => Some(Ok(same_named_from(&output, branch))),
    }
}

/// The ref that the server's HEAD stands for, where a line says so.
pub open spec fn symref_line(line: Seq<char>) -> Option<Seq<char>> {
    match text::strip_prefix(line, "ref: "@) {
        None => None,
        Some(rest) => match text::split_once(rest, '\t') {
            Some((target, name)) => if name == "HEAD"@ {
                Some(target)
            } else {
                None
            },
            None => None,
        },
    }
}

/// The object that a line gives for `refname`.
pub open spec fn tip_line(line: Seq<char>, refname: Seq<char>) -> Option<Seq<char>> {
    match text::split_once(line, '\t') {
        Some((oid, name)) => if name == refname {
            Some(oid)
        } else {
            None
        },
        None => None,
    }
}

pub open spec fn symref_in() -> spec_fn(Seq<char>) -> Option<Seq<char>> {
    |line: Seq<char>| symref_line(line)
}

pub open spec fn tip_of(refname: Seq<char>) -> spec_fn(Seq<char>) -> Option<Seq<char>> {
    |line: Seq<char>|
        if symref_line(line) is Some {
            None
        } else {
            tip_line(line, refname)
        }
}

/// What a listing of the server's refs says of an upstream. One without a tip
/// is absent; the server's default branch is never removable, and neither is
/// anything where the default is not known.
pub open spec fn inspected(output: Seq<char>, upstream: UpstreamRef<Seq<char>>) -> UpstreamInspection<
    Seq<char>,
> {
    let refname = head_ref(upstream.branch);
    let lines = text::lines(output);
    match last_of(lines, tip_of(refname)) {
        None => UpstreamInspection::Absent(upstream),
        Some(tip) => match last_of(lines, symref_in()) {
            None => UpstreamInspection::DefaultUnknown(upstream),
            Some(default) => if default == refname {
                UpstreamInspection::Default(upstream)
            } else {
                UpstreamInspection::Removable(
                    RemoteBranch { remote: upstream.remote, branch: upstream.branch, tip },
                )
            },
        },
    }
}

/// Nothing that the server names as its default is ever removable, and what is
/// removable is the upstream that was asked about, at the tip the server gave.
pub proof fn default_branch_is_never_removable(output: Seq<char>, upstream: UpstreamRef<Seq<char>>)
    ensures
        inspected(output, upstream) matches UpstreamInspection::Removable(found) ==> {
            &&& found.remote == upstream.remote
            &&& found.branch == upstream.branch
            &&& last_of(text::lines(output), tip_of(head_ref(upstream.branch))) == Some(found.tip)
            &&& last_of(text::lines(output), symref_in()) matches Some(default) && default
                != head_ref(upstream.branch)
        },
{
}

pub open spec fn inspect_upstream_spec(
    rest: Seq<Answer>,
    upstream: UpstreamRef<Seq<char>>,
) -> Progress<Meant<UpstreamInspection<Seq<char>>>> {
    match run_in_spec(
        rest,
        None,
        args6(
            "ls-remote"@,
            "--symref"@,
            "--"@,
            upstream.remote,
            "HEAD"@,
            head_ref(upstream.branch),
        ),
    ) {
        Progress::Waiting(q) => Progress::Waiting(q),
        Progress::Finished(Err(e), rest) => Progress::Finished(Err(e), rest),
        Progress::Finished(Ok(output), rest) => Progress::Finished(
            Ok(inspected(output, upstream)),
            rest,
        ),
    }
}

fn read_symref(line: &str) -> (r: Option<String>)
    ensures
        r.model() == symref_line(line@),
{
    match text::stripped(line, "ref: ") {
        None => None,
        Some(rest) => match text::parted(&rest, '\t') {
            Some((target, name)) => {
                if text::same(&name, "HEAD") {
                    Some(target)
                } else {
                    None
                }
            },
            None => None,
        },
    }
}

fn read_tip(line: &str, refname: &str) -> (r: Option<String>)
    ensures
        r.model() == tip_line(line@, refname@),
{
    match text::parted(line, '\t') {
        Some((oid, name)) => {
            if text::same(&name, refname) {
                Some(oid)
            } else {
                None
            }
        },
        None => None,
    }
}

/// The rule half of [`inspect_upstream`].
pub fn inspect_listing(output: &str, upstream: &UpstreamRef) -> (r: UpstreamInspection)
    ensures
        r.model() == inspected(output@, upstream.model()),
{
    let refname: String = text::joined("refs/heads/", &upstream.branch);
    let lines: Vec<String> = text::lines_of(output);
    let ghost all = text::lines(output@);
    let mut default: Option<String> = None;
    let mut tip: Option<String> = None;
    let mut i: usize = 0;
    proof {
        rows::lemma_take_all(all);
    }
    while i < lines.len()
        invariant
            i <= lines@.len(),
            all == models(lines@),
            default.model() == last_of(all.take(i as int), symref_in()),
            tip.model() == last_of(all.take(i as int), tip_of(refname@)),
        decreases lines@.len() - i,
    {
        proof {
            rows::lemma_take_one_more(all, i as int);
        }
        match read_symref(&lines[i]) {
            Some(target) => {
                default = Some(target);
            },
            None => match read_tip(&lines[i], &refname) {
                Some(oid) => {
                    tip = Some(oid);
                },
                None => {},
            },
        }
        i += 1;
    }
    let tip: String = match tip {
        Some(tip) => tip,
        None => return UpstreamInspection::Absent(upstream.clone()),
    };
    match default {
        None => UpstreamInspection::DefaultUnknown(upstream.clone()),
        Some(default) => {
            if text::same(&default, &refname) {
                UpstreamInspection::Default(upstream.clone())
            } else {
                UpstreamInspection::Removable(
                    RemoteBranch {
                        remote: upstream.remote.clone(),
                        branch: upstream.branch.clone(),
                        tip,
                    },
                )
            }
        },
    }
}

/// Reads an upstream from the server rather than from a remote-tracking ref,
/// which may be stale, and the server's default branch with it.
pub fn inspect_upstream(talk: &mut Talk, upstream: &UpstreamRef) -> (r: Option<
    AppResult<UpstreamInspection>,
>)
    ensures
        heard(r, *final(talk)) == inspect_upstream_spec(old(talk).rest(), upstream.model()),
{
    let refname: String = text::joined("refs/heads/", &upstream.branch);
    match run(
        talk,
        words6("ls-remote", "--symref", "--", &upstream.remote, "HEAD", &refname),
    )? {
        Err(e) => Some(Err(e)),
        Ok(output) => Some(Ok(inspect_listing(&output, upstream))),
    }
}

/// What became of an upstream's deletion. A ref that moved is told apart from
/// a refusal: it must be inspected before anything tries again.
#[derive(Debug, PartialEq, Eq)]
pub enum RemoteBranchDeleteOutcome<S = String> {
    Deleted,
    AlreadyAbsent,
    Moved { expected: S, now: S },
    Failed(S),
}

impl Modelled for RemoteBranchDeleteOutcome {
    type Model = RemoteBranchDeleteOutcome<Seq<char>>;

    open spec fn model(&self) -> RemoteBranchDeleteOutcome<Seq<char>> {
        match self {
            RemoteBranchDeleteOutcome::Deleted => RemoteBranchDeleteOutcome::Deleted,
            RemoteBranchDeleteOutcome::AlreadyAbsent => RemoteBranchDeleteOutcome::AlreadyAbsent,
            RemoteBranchDeleteOutcome::Moved { expected, now } => RemoteBranchDeleteOutcome::Moved {
                expected: expected@,
                now: now@,
            },
            RemoteBranchDeleteOutcome::Failed(why) => RemoteBranchDeleteOutcome::Failed(why@),
        }
    }
}

/// The push that deletes an upstream, only while the server still has the tip
/// that was shown.
pub open spec fn leased_delete(upstream: RemoteBranch<Seq<char>>) -> Words {
    args6(
        "push"@,
        "--quiet"@,
        "--force-with-lease="@ + head_ref(upstream.branch) + ":"@ + upstream.tip,
        "--"@,
        upstream.remote,
        ":"@ + head_ref(upstream.branch),
    )
}

pub open spec fn listed_tip(refname: Seq<char>) -> spec_fn(Seq<char>) -> Option<Seq<char>> {
    |line: Seq<char>| tip_line(line, refname)
}

/// What a refused deletion amounts to, once the server's refs were read again.
pub open spec fn after_refusal(
    read: Meant<Seq<char>>,
    upstream: RemoteBranch<Seq<char>>,
    detail: Seq<char>,
) -> RemoteBranchDeleteOutcome<Seq<char>> {
    match read {
        Err(_) => RemoteBranchDeleteOutcome::Failed(detail),
        Ok(output) => match first_of(
            text::lines(output),
            listed_tip(head_ref(upstream.branch)),
        ) {
            None => RemoteBranchDeleteOutcome::AlreadyAbsent,
            Some(now) => if now != upstream.tip {
                RemoteBranchDeleteOutcome::Moved { expected: upstream.tip, now }
            } else {
                RemoteBranchDeleteOutcome::Failed(detail)
            },
        },
    }
}

pub open spec fn delete_remote_branch_spec(
    rest: Seq<Answer>,
    upstream: RemoteBranch<Seq<char>>,
) -> Progress<Meant<RemoteBranchDeleteOutcome<Seq<char>>>> {
    match git_asked(rest, None, leased_delete(upstream)) {
        Progress::Waiting(q) => Progress::Waiting(q),
        Progress::Finished(Err(e), rest) => Progress::Finished(Err(Error::Io(e)), rest),
        Progress::Finished(Ok(output), rest) => if output.succeeded() {
            Progress::Finished(Ok(RemoteBranchDeleteOutcome::Deleted), rest)
        } else {
            match run_in_spec(
                rest,
                None,
                args5(
                    "ls-remote"@,
                    "--heads"@,
                    "--"@,
                    upstream.remote,
                    head_ref(upstream.branch),
                ),
            ) {
                Progress::Waiting(q) => Progress::Waiting(q),
                Progress::Finished(read, rest) => Progress::Finished(
                    Ok(after_refusal(read, upstream, text::trim(output.stderr))),
                    rest,
                ),
            }
        },
    }
}

/// The only request that could change the server is the leased push: whatever
/// the replies, nothing else is asked but one read of its refs. A moved ref is
/// reported with the tip that was shown and another that the server has now.
pub proof fn upstream_is_deleted_under_lease_alone(
    rest: Seq<Answer>,
    upstream: RemoteBranch<Seq<char>>,
)
    ensures
        delete_remote_branch_spec(rest, upstream) matches Progress::Waiting(q) ==> q == git(
            None,
            leased_delete(upstream),
        ) || q == git(
            None,
            args5("ls-remote"@, "--heads"@, "--"@, upstream.remote, head_ref(upstream.branch)),
        ),
        delete_remote_branch_spec(rest, upstream) matches Progress::Finished(
            Ok(RemoteBranchDeleteOutcome::Moved { expected, now }),
            _,
        ) ==> expected == upstream.tip && now != upstream.tip,
{
}

fn tip_listed(output: &str, refname: &str) -> (r: Option<String>)
    ensures
        r.model() == first_of(text::lines(output@), listed_tip(refname@)),
{
    let lines: Vec<String> = text::lines_of(output);
    let ghost all = text::lines(output@);
    let ghost f = listed_tip(refname@);
    let mut i: usize = 0;
    proof {
        rows::lemma_take_all(all);
    }
    while i < lines.len()
        invariant
            i <= lines@.len(),
            all == models(lines@),
            all == text::lines(output@),
            f == listed_tip(refname@),
            first_of(all, f) == first_of(all.skip(i as int), f),
        decreases lines@.len() - i,
    {
        proof {
            rows::lemma_take_one_more(all, i as int);
        }
        match read_tip(&lines[i], refname) {
            Some(oid) => return Some(oid),
            None => {},
        }
        i += 1;
    }
    None
}

/// Deletes `upstream` only while the server still has the tip shown to the
/// user. A failed push is followed by one live read, so that a lost lease and
/// a deletion that already happened are not reported as a failure to connect.
pub fn delete_remote_branch(talk: &mut Talk, upstream: &RemoteBranch) -> (r: Option<
    AppResult<RemoteBranchDeleteOutcome>,
>)
    ensures
        heard(r, *final(talk)) == delete_remote_branch_spec(old(talk).rest(), upstream.model()),
{
    let refname: String = text::joined("refs/heads/", &upstream.branch);
    let mut lease: String = text::joined3("--force-with-lease=", &refname, ":");
    lease.append(&upstream.tip);
    let delete: String = text::joined(":", &refname);
    let output: Output = match ask_git(
        talk,
        None,
        words6("push", "--quiet", &lease, "--", &upstream.remote, &delete),
    )? {
        Ok(output) => output,
        Err(e) => return Some(Err(Error::Io(e))),
    };
    if output.success() {
        return Some(Ok(RemoteBranchDeleteOutcome::Deleted));
    }
    let detail: String = text::trimmed(&output.stderr);
    let read: String = match run(
        talk,
        words5("ls-remote", "--heads", "--", &upstream.remote, &refname),
    )? {
        Ok(read) => read,
        Err(_) => return Some(Ok(RemoteBranchDeleteOutcome::Failed(detail))),
    };
    match tip_listed(&read, &refname) {
        None => Some(Ok(RemoteBranchDeleteOutcome::AlreadyAbsent)),
        Some(now) => {
            if text::same(&now, &upstream.tip) {
                Some(Ok(RemoteBranchDeleteOutcome::Failed(detail)))
            } else {
                Some(
                    Ok(
                        RemoteBranchDeleteOutcome::Moved { expected: upstream.tip.clone(), now },
                    ),
                )
            }
        },
    }
}

} // verus!
