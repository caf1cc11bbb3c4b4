//! What the refs say of branches: which are stale, and which hold work that a
//! plain delete would refuse to lose.
use vstd::prelude::*;
use vstd::string::*;

use crate::ask::{args3, args4, lent, words3, words4};
use crate::error::{AppResult, Meant};
use crate::grammar::Words;
use crate::model::{borrowed, models, Modelled};
use crate::rows::{self, keep_map, last_of};
use crate::table::{self, Table};
use crate::talk::{heard, Answer, Progress, Talk};
use crate::text;

use super::{
    current_branch, current_branch_spec, default_branch, default_branch_spec, is_among, rev_parse,
    rev_parse_spec, run, run_in, run_in_spec, Ground, StaleBranch,
};

verus! {

// ---------------------------------------------------------------------------
// How a branch stands to its upstream
// ---------------------------------------------------------------------------

/// The number behind `word` in one part of a track summary; one that cannot be
/// read is zero.
pub open spec fn count_behind(word: Seq<char>) -> spec_fn(Seq<char>) -> Option<u32> {
    |part: Seq<char>|
        match text::strip_prefix(text::trim(part), word) {
            None => None,
            Some(n) => match text::parse_u32(n) {
                Ok(n) => Some(n),
                Err(_) => Some(0u32),
            },
        }
}

pub open spec fn or_zero(n: Option<u32>) -> u32 {
    match n {
        Some(n) => n,
        None => 0,
    }
}

/// Git's summary of how far a branch is ahead of its upstream and behind it,
/// such as `ahead 2, behind 1`.
pub open spec fn track_spec(track: Seq<char>) -> (u32, u32) {
    let parts = text::split(track, ',');
    (or_zero(last_of(parts, count_behind("ahead "@))), or_zero(last_of(parts, count_behind("behind "@))))
}

/// Reads git's summary of a branch and its upstream.
pub fn parse_track(track: &str) -> (r: (u32, u32))
    ensures
        r == track_spec(track@),
{
    let parts: Vec<String> = text::split_at_each(track, ',');
    let ghost all = text::split(track@, ',');
    let mut ahead: u32 = 0;
    let mut behind: u32 = 0;
    let mut i: usize = 0;
    proof {
        rows::lemma_take_all(all);
    }
    while i < parts.len()
        invariant
            i <= parts@.len(),
            all == models(parts@),
            ahead == or_zero(last_of(all.take(i as int), count_behind("ahead "@))),
            behind == or_zero(last_of(all.take(i as int), count_behind("behind "@))),
        decreases parts@.len() - i,
    {
        proof {
            rows::lemma_take_one_more(all, i as int);
        }
        let part: String = text::trimmed(&parts[i]);
        match text::stripped(&part, "ahead ") {
            Some(n) => {
                ahead =
                match text::number_of(&n) {
                    Ok(n) => n,
                    Err(_) => 0,
                };
            },
            None => {},
        }
        match text::stripped(&part, "behind ") {
            Some(n) => {
                behind =
                match text::number_of(&n) {
                    Ok(n) => n,
                    Err(_) => 0,
                };
            },
            None => {},
        }
        i += 1;
    }
    (ahead, behind)
}

// ---------------------------------------------------------------------------
// The refs
// ---------------------------------------------------------------------------

/// What staleness is measured against: the default branch and the commit it
/// points at.
pub struct Anchor<S = String> {
    pub branch: S,
    pub tip: S,
}

impl Modelled for Anchor {
    type Model = Anchor<Seq<char>>;

    open spec fn model(&self) -> Anchor<Seq<char>> {
        Anchor { branch: self.branch@, tip: self.tip@ }
    }
}

/// Where a local branch points and what it tracks.
#[derive(Debug, PartialEq, Eq)]
pub struct BranchRef<S = String> {
    pub tip: S,
    /// The branch this one tracks, as named on the remote, empty when it
    /// tracks none.
    pub upstream_branch: S,
    /// Git's summary of how it stands to its upstream: `gone` where that no
    /// longer exists.
    pub track: S,
}

impl Modelled for BranchRef {
    type Model = BranchRef<Seq<char>>;

    open spec fn model(&self) -> BranchRef<Seq<char>> {
        BranchRef {
            tip: self.tip@,
            upstream_branch: self.upstream_branch@,
            track: self.track@,
        }
    }
}

impl BranchRef<Seq<char>> {
    /// The upstream was configured and no longer exists on the remote.
    pub open spec fn is_gone(self) -> bool {
        self.track == "gone"@
    }

    /// It tracks the branch called `name`, on any remote.
    pub open spec fn follows(self, name: Seq<char>) -> bool {
        text::strip_prefix(self.upstream_branch, "refs/heads/"@) == Some(name)
    }

    /// For a branch that is reachable from the anchor, the fact that makes it
    /// stale. Cut from the anchor, it is ahead of the anchor's counterpart by
    /// work of its own; published under a name of its own, no local ref tells;
    /// tracking nothing, the anchor has moved past it.
    pub open spec fn ground_in(self, anchor: Anchor<Seq<char>>) -> Option<Ground> {
        if self.follows(anchor.branch) {
            if track_spec(self.track).0 > 0 {
                Some(Ground::TracksAnchorAhead)
            } else {
                None
            }
        } else if self.upstream_branch.len() > 0 {
            None
        } else if self.tip != anchor.tip {
            Some(Ground::UntrackedTipInAnchor)
        } else {
            None
        }
    }
}

impl BranchRef {
    pub fn gone(&self) -> (r: bool)
        ensures
            r == self.model().is_gone(),
    {
        text::same(&self.track, "gone")
    }

    pub fn tracks(&self, name: &str) -> (r: bool)
        ensures
            r == self.model().follows(name@),
    {
        match text::stripped(&self.upstream_branch, "refs/heads/") {
            Some(branch) => text::same(&branch, name),
            None => false,
        }
    }

    pub fn ground_on(&self, anchor: &Anchor) -> (r: Option<Ground>)
        ensures
            r == self.model().ground_in(anchor.model()),
    {
        if self.tracks(&anchor.branch) {
            if parse_track(&self.track).0 > 0 {
                Some(Ground::TracksAnchorAhead)
            } else {
                None
            }
        } else if !self.upstream_branch.as_str().is_empty() {
            None
        } else if !text::same(&self.tip, &anchor.tip) {
            Some(Ground::UntrackedTipInAnchor)
        } else {
            None
        }
    }
}

/// Branches by name.
pub type Refs = Seq<(Seq<char>, BranchRef<Seq<char>>)>;

/// A branch and its ref, in one line of git's listing: four fields, of which
/// the last may be missing.
pub open spec fn ref_line(line: Seq<char>) -> Option<(Seq<char>, BranchRef<Seq<char>>)> {
    let fields = text::split(line, '\t');
    if fields.len() < 3 {
        None
    } else {
        Some(
            (
                fields[0],
                BranchRef {
                    tip: fields[1],
                    upstream_branch: fields[2],
                    track: if fields.len() > 3 {
                        fields[3]
                    } else {
                        Seq::empty()
                    },
                },
            ),
        )
    }
}

/// The branches that a listing names; a later line stands for an earlier one
/// of the same name.
pub open spec fn refs_in(lines: Words) -> Refs
    decreases lines.len(),
{
    if lines.len() == 0 {
        Seq::empty()
    } else {
        match ref_line(lines.last()) {
            Some((name, r)) => table::put(refs_in(lines.drop_last()), name, r),
            None => refs_in(lines.drop_last()),
        }
    }
}

/// A listing names every branch once.
pub proof fn refs_are_distinct(lines: Words)
    ensures
        table::distinct(refs_in(lines)),
    decreases lines.len(),
{
    if lines.len() > 0 {
        refs_are_distinct(lines.drop_last());
        if let Some((name, r)) = ref_line(lines.last()) {
            table::put_and_get(refs_in(lines.drop_last()), name, r);
        }
    }
}

fn read_ref_line(line: &str) -> (r: Option<(String, BranchRef)>)
    ensures
        r.model() == ref_line(line@),
{
    let fields: Vec<String> = text::split_at_each(line, '\t');
    let ghost fs = text::split(line@, '\t');
    if fields.len() < 3 {
        return None;
    }
    assert(fs[0] == fields@[0].model() && fs[1] == fields@[1].model() && fs[2]
        == fields@[2].model());
    let track: String = if fields.len() > 3 {
        assert(fs[3] == fields@[3].model());
        fields[3].clone()
    } else {
        let none: String = String::new();
        assert(none@ =~= Seq::empty());
        none
    };
    Some(
        (
            fields[0].clone(),
            BranchRef { tip: fields[1].clone(), upstream_branch: fields[2].clone(), track },
        ),
    )
}

/// The branches that git's listing names.
pub fn branch_refs(refs_output: &str) -> (r: Table<BranchRef>)
    ensures
        r.model() == refs_in(text::lines(refs_output@)),
        table::distinct(r.model()),
{
    let lines: Vec<String> = text::lines_of(refs_output);
    let ghost all = text::lines(refs_output@);
    let mut refs: Table<BranchRef> = Table::new();
    let mut i: usize = 0;
    proof {
        rows::lemma_take_all(all);
    }
    while i < lines.len()
        invariant
            i <= lines@.len(),
            all == models(lines@),
            refs.model() == refs_in(all.take(i as int)),
            table::distinct(refs.model()),
        decreases lines@.len() - i,
    {
        proof {
            rows::lemma_take_one_more(all, i as int);
        }
        match read_ref_line(&lines[i]) {
            Some((name, r)) => refs.put(name, r),
            None => {},
        }
        i += 1;
    }
    refs
}

/// Git, asked for every local branch's ref.
pub open spec fn read_branch_refs_spec(rest: Seq<Answer>) -> Progress<Meant<Seq<char>>> {
    run_in_spec(
        rest,
        None,
        args3(
            "for-each-ref"@,
            "--format=%(refname:short)%09%(objectname)%09%(upstream:remoteref)%09%(upstream:track,nobracket)"@,
            "refs/heads/"@,
        ),
    )
}

pub fn read_branch_refs(talk: &mut Talk) -> (r: Option<AppResult<String>>)
    ensures
        heard(r, *final(talk)) == read_branch_refs_spec(old(talk).rest()),
{
    run(
        talk,
        words3(
            "for-each-ref",
            "--format=%(refname:short)%09%(objectname)%09%(upstream:remoteref)%09%(upstream:track,nobracket)",
            "refs/heads/",
        ),
    )
}

// ---------------------------------------------------------------------------
// Staleness
// ---------------------------------------------------------------------------

/// The ground on which a branch is stale, if it is. A deleted upstream speaks
/// for itself; only where the upstream is not gone is the branch held against
/// the anchor, and then only if the anchor's merged list names it.
pub open spec fn stale_ground(
    refs: Refs,
    merged: Words,
    anchor: Option<Anchor<Seq<char>>>,
    name: Seq<char>,
) -> Option<Ground> {
    match table::get(refs, name) {
        None => None,
        Some(r) => if r.is_gone() {
            Some(Ground::Gone)
        } else {
            match anchor {
                Some(anchor) if merged.contains(name) => r.ground_in(anchor),
                _ => None,
            }
        },
    }
}

pub open spec fn gone_row() -> spec_fn((Seq<char>, BranchRef<Seq<char>>)) -> Option<
    StaleBranch<Seq<char>>,
> {
    |row: (Seq<char>, BranchRef<Seq<char>>)|
        if row.1.is_gone() {
            Some(StaleBranch { ground: Ground::Gone, name: row.0 })
        } else {
            None
        }
}

pub open spec fn merged_name(refs: Refs, anchor: Anchor<Seq<char>>) -> spec_fn(
    Seq<char>,
) -> Option<StaleBranch<Seq<char>>> {
    |name: Seq<char>|
        match table::get(refs, name) {
            None => None,
            Some(r) => if r.is_gone() {
                None
            } else {
                match r.ground_in(anchor) {
                    Some(ground) => Some(StaleBranch { ground, name }),
                    None => None,
                }
            },
        }
}

/// The stale branches: first those whose upstream is gone, and then, in the
/// merged list's order, those that the anchor speaks for.
pub open spec fn stale_from_spec(
    refs: Refs,
    merged: Words,
    anchor: Option<Anchor<Seq<char>>>,
) -> Seq<StaleBranch<Seq<char>>> {
    let gone = keep_map(refs, gone_row());
    match anchor {
        None => gone,
        Some(anchor) => gone + keep_map(merged, merged_name(refs, anchor)),
    }
}

/// A branch is among the stale ones on a ground exactly if that is its
/// ground. So the facts never overlap: none is stale on two of them.
pub proof fn stale_on_its_ground_alone(
    refs: Refs,
    merged: Words,
    anchor: Option<Anchor<Seq<char>>>,
    branch: StaleBranch<Seq<char>>,
)
    requires
        table::distinct(refs),
    ensures
        stale_from_spec(refs, merged, anchor).contains(branch) <==> stale_ground(
            refs,
            merged,
            anchor,
            branch.name,
        ) == Some(branch.ground),
{
    let gone = keep_map(refs, gone_row());
    let all = stale_from_spec(refs, merged, anchor);
    rows::lemma_keep_map_from(refs, gone_row(), branch);
    let name = branch.name;
    text::lemma_least(0, refs.len() as int, table::named(refs, name));
    let at = table::row_of(refs, name);
    if gone.contains(branch) {
        let i = choose|i: int|
            0 <= i < refs.len() && gone_row()(#[trigger] refs[i]) == Some(branch);
        table::lemma_get_row(refs, i);
    }
    if at < refs.len() {
        assert(refs[at].0 == name);
        if refs[at].1.is_gone() && branch.ground == Ground::Gone {
            assert(gone_row()(refs[at]) == Some(branch));
            assert(gone.contains(branch));
        }
    }
    match anchor {
        None => {},
        Some(a) => {
            let f = merged_name(refs, a);
            let kept = keep_map(merged, f);
            rows::lemma_keep_map_from(merged, f, branch);
            if kept.contains(branch) {
                let i = choose|i: int| 0 <= i < merged.len() && f(#[trigger] merged[i]) == Some(branch);
                assert(merged.contains(name));
            }
            if merged.contains(name) {
                let i = choose|i: int| 0 <= i < merged.len() && merged[i] == name;
                assert(f(merged[i]) == f(name));
            }
            if gone.contains(branch) {
                let k = choose|k: int| 0 <= k < gone.len() && gone[k] == branch;
                assert(all[k] == branch);
            }
            if kept.contains(branch) {
                let k = choose|k: int| 0 <= k < kept.len() && kept[k] == branch;
                assert(all[gone.len() + k] == branch);
            }
            if all.contains(branch) {
                let k = choose|k: int| 0 <= k < all.len() && all[k] == branch;
                if k < gone.len() {
                    assert(gone[k] == branch);
                } else {
                    assert(kept[k - gone.len()] == branch);
                }
            }
        },
    }
}

/// Without an anchor, only a deleted upstream makes a branch stale.
pub proof fn without_an_anchor_only_gone_is_stale(refs: Refs, merged: Words, name: Seq<char>)
    ensures
        stale_ground(refs, merged, None, name) matches Some(ground) ==> ground == Ground::Gone,
{
}

/// A branch published under a name of its own is never held against the
/// anchor: it waits for its upstream to be deleted.
pub proof fn published_branch_waits_for_its_upstream(
    refs: Refs,
    merged: Words,
    anchor: Anchor<Seq<char>>,
    name: Seq<char>,
)
    requires
        table::get(refs, name) matches Some(r) && r.upstream_branch.len() > 0 && !r.follows(
            anchor.branch,
        ),
    ensures
        stale_ground(refs, merged, Some(anchor), name) matches Some(ground) ==> ground
            == Ground::Gone,
{
}

/// The rule half of [`stale_branches`]. `merged` is the anchor's merged list;
/// no anchor stands the merged rule down.
pub fn stale_from(refs: &Table<BranchRef>, merged: &str, anchor: Option<&Anchor>) -> (r: Vec<
    StaleBranch,
>)
    ensures
        models(r@) == stale_from_spec(
            refs.model(),
            text::lines(merged@),
            match anchor {
                Some(a) => Some(a.model()),
                None => None,
            },
        ),
{
    let ghost all = refs.model();
    let mut stale: Vec<StaleBranch> = Vec::new();
    let mut i: usize = 0;
    proof {
        rows::lemma_take_all(all);
        assert(models(stale@) =~= Seq::empty());
    }
    while i < refs.rows.len()
        invariant
            i <= refs.rows@.len(),
            all == models(refs.rows@),
            models(stale@) == keep_map(all.take(i as int), gone_row()),
        decreases refs.rows@.len() - i,
    {
        broadcast use crate::model::lemma_models_push;

        proof {
            rows::lemma_take_one_more(all, i as int);
            assert(all[i as int] == refs.rows@[i as int].model());
        }
        if refs.rows[i].1.gone() {
            stale.push(StaleBranch { ground: Ground::Gone, name: refs.rows[i].0.clone() });
        }
        i += 1;
    }
    let anchor: &Anchor = match anchor {
        Some(anchor) => anchor,
        None => return stale,
    };
    let ghost gone = models(stale@);
    let lines: Vec<String> = text::lines_of(merged);
    let ghost names = text::lines(merged@);
    let ghost f = merged_name(all, anchor.model());
    let mut i: usize = 0;
    proof {
        rows::lemma_take_all(names);
        assert(gone + keep_map(names.take(0), f) =~= gone);
    }
    while i < lines.len()
        invariant
            i <= lines@.len(),
            all == refs.model(),
            names == models(lines@),
            f == merged_name(all, anchor.model()),
            models(stale@) == gone + keep_map(names.take(i as int), f),
        decreases lines@.len() - i,
    {
        broadcast use crate::model::lemma_models_push;

        proof {
            rows::lemma_take_one_more(names, i as int);
        }
        let ghost had = keep_map(names.take(i as int), f);
        match refs.get(&lines[i]) {
            None => {},
            Some(r) => {
                if !r.gone() {
                    match r.ground_on(anchor) {
                        Some(ground) => {
                            let found: StaleBranch = StaleBranch { ground, name: lines[i].clone() };
                            assert(gone + had.push(found.model()) =~= (gone + had).push(
                                found.model(),
                            ));
                            stale.push(found);
                        },
                        None => {},
                    }
                }
            },
        }
        i += 1;
    }
    stale
}

/// That the branch at an index does not come before `name`.
pub open spec fn not_before(s: Seq<StaleBranch<Seq<char>>>, name: Seq<char>) -> spec_fn(
    int,
) -> bool {
    |i: int| !text::before(s[i].name, name)
}

/// A row in the order of names with one more in its place, unless a branch of
/// that name is there already.
pub open spec fn placed(
    s: Seq<StaleBranch<Seq<char>>>,
    branch: StaleBranch<Seq<char>>,
) -> Seq<StaleBranch<Seq<char>>> {
    let i = text::least(0, s.len() as int, not_before(s, branch.name));
    if 0 <= i < s.len() && s[i].name == branch.name {
        s
    } else {
        s.insert(i, branch)
    }
}

/// The stale branches that the sweep offers, in the order of their names: the
/// current branch and the kept ones are held back.
pub open spec fn swept(
    stale: Seq<StaleBranch<Seq<char>>>,
    current: Option<Seq<char>>,
    keep: Words,
) -> Seq<StaleBranch<Seq<char>>>
    decreases stale.len(),
{
    if stale.len() == 0 {
        stale
    } else {
        let before = swept(stale.drop_last(), current, keep);
        let branch = stale.last();
        if current == Some(branch.name) || keep.contains(branch.name) {
            before
        } else {
            placed(before, branch)
        }
    }
}

/// In the order of names, without one of them twice.
pub open spec fn ascending(s: Seq<StaleBranch<Seq<char>>>) -> bool {
    forall|i: int, j: int|
        0 <= i < j < s.len() ==> text::before((#[trigger] s[i]).name, (#[trigger] s[j]).name)
}

proof fn lemma_placed(s: Seq<StaleBranch<Seq<char>>>, branch: StaleBranch<Seq<char>>)
    requires
        ascending(s),
    ensures
        ascending(placed(s, branch)),
        forall|b: StaleBranch<Seq<char>>|
            placed(s, branch).contains(b) ==> s.contains(b) || b == branch,
        forall|b: StaleBranch<Seq<char>>| s.contains(b) ==> placed(s, branch).contains(b),
        exists|k: int|
            0 <= k < placed(s, branch).len() && (#[trigger] placed(s, branch)[k]).name
                == branch.name,
{
    let p = not_before(s, branch.name);
    let i = text::least(0, s.len() as int, p);
    text::lemma_least(0, s.len() as int, p);
    let after = placed(s, branch);
    if i < s.len() && s[i].name == branch.name {
        assert(after[i].name == branch.name);
    } else {
        assert(after[i] == branch);
        assert forall|j: int, k: int| 0 <= j < k < after.len() implies text::before(
            (#[trigger] after[j]).name,
            (#[trigger] after[k]).name,
        ) by {
            if j < i && k == i {
                assert(!p(j));
            } else if j == i {
                assert(p(i));
                text::lemma_before_total(s[i].name, branch.name);
                if k - 1 > i {
                    text::lemma_before_transitive(branch.name, s[i].name, s[k - 1].name);
                }
            }
        }
        assert forall|b: StaleBranch<Seq<char>>| s.contains(b) implies after.contains(b) by {
            let k = choose|k: int| 0 <= k < s.len() && s[k] == b;
            if k < i {
                assert(after[k] == b);
            } else {
                assert(after[k + 1] == b);
            }
        }
        assert forall|b: StaleBranch<Seq<char>>| after.contains(b) implies s.contains(b) || b
            == branch by {
            let k = choose|k: int| 0 <= k < after.len() && after[k] == b;
            if k < i {
                assert(s[k] == b);
            } else if k > i {
                assert(s[k - 1] == b);
            }
        }
    }
}

pub proof fn lemma_swept(
    stale: Seq<StaleBranch<Seq<char>>>,
    current: Option<Seq<char>>,
    keep: Words,
    b: StaleBranch<Seq<char>>,
)
    ensures
        ascending(swept(stale, current, keep)),
        swept(stale, current, keep).contains(b) ==> stale.contains(b) && current != Some(b.name)
            && !keep.contains(b.name),
        stale.contains(b) && current != Some(b.name) && !keep.contains(b.name) ==> exists|k: int|
            0 <= k < swept(stale, current, keep).len() && (#[trigger] swept(
                stale,
                current,
                keep,
            )[k]).name == b.name,
    decreases stale.len(),
{
    if stale.len() > 0 {
        let rest = stale.drop_last();
        let last = stale.last();
        let before = swept(rest, current, keep);
        let after = swept(stale, current, keep);
        lemma_swept(rest, current, keep, b);
        if current == Some(last.name) || keep.contains(last.name) {
        } else {
            lemma_placed(before, last);
        }
        if after.contains(b) {
            if before.contains(b) {
                let k = choose|k: int| 0 <= k < rest.len() && rest[k] == b;
                assert(stale[k] == b);
            } else {
                assert(stale[stale.len() - 1] == b);
            }
        }
        if stale.contains(b) && current != Some(b.name) && !keep.contains(b.name) {
            let k = choose|k: int| 0 <= k < stale.len() && stale[k] == b;
            if k < rest.len() {
                assert(rest[k] == b);
                assert(rest.contains(b));
                let j = choose|j: int|
                    0 <= j < before.len() && (#[trigger] before[j]).name == b.name;
                assert(before.contains(before[j]));
                assert(after.contains(before[j]));
                let n = choose|n: int| 0 <= n < after.len() && after[n] == before[j];
                assert(after[n].name == b.name);
            }
        }
    }
}

/// The sweep offers a branch exactly if the refs put it on a ground and it is
/// neither current nor kept, and it offers each once, in the order of names.
pub proof fn sweep_offers_the_stale_and_nothing_kept(
    refs: Refs,
    merged: Words,
    anchor: Option<Anchor<Seq<char>>>,
    current: Option<Seq<char>>,
    keep: Words,
    branch: StaleBranch<Seq<char>>,
)
    requires
        table::distinct(refs),
    ensures
        ascending(swept(stale_from_spec(refs, merged, anchor), current, keep)),
        swept(stale_from_spec(refs, merged, anchor), current, keep).contains(branch) <==> {
            &&& stale_ground(refs, merged, anchor, branch.name) == Some(branch.ground)
            &&& current != Some(branch.name)
            &&& !keep.contains(branch.name)
        },
{
    let stale = stale_from_spec(refs, merged, anchor);
    let offered = swept(stale, current, keep);
    stale_on_its_ground_alone(refs, merged, anchor, branch);
    lemma_swept(stale, current, keep, branch);
    if stale.contains(branch) && current != Some(branch.name) && !keep.contains(branch.name) {
        let k = choose|k: int|
            0 <= k < offered.len() && (#[trigger] offered[k]).name == branch.name;
        let other = offered[k];
        assert(offered.contains(other));
        lemma_swept(stale, current, keep, other);
        stale_on_its_ground_alone(refs, merged, anchor, other);
        assert(other == branch);
    }
}

/// Orders the stale branches by name and holds back the current and the kept.
pub fn sweep(stale: &[StaleBranch], current: Option<&str>, keep: &[String]) -> (r: Vec<
    StaleBranch,
>)
    ensures
        models(r@) == swept(models(stale@), borrowed(current), models(keep@)),
{
    let ghost all = models(stale@);
    let mut r: Vec<StaleBranch> = Vec::new();
    let mut n: usize = 0;
    proof {
        rows::lemma_take_all(all);
        assert(models(r@) =~= Seq::empty());
    }
    while n < stale.len()
        invariant
            n <= stale@.len(),
            all == models(stale@),
            models(r@) == swept(all.take(n as int), borrowed(current), models(keep@)),
        decreases stale@.len() - n,
    {
        proof {
            rows::lemma_take_one_more(all, n as int);
        }
        let branch: &StaleBranch = &stale[n];
        let is_current: bool = match current {
            Some(name) => text::same(name, &branch.name),
            None => false,
        };
        if !is_current && !is_among(keep, &branch.name) {
            let ghost had = models(r@);
            let ghost p = not_before(had, branch.name@);
            let mut i: usize = 0;
            while i < r.len() && text::precedes(&r[i].name, &branch.name)
                invariant
                    i <= r@.len(),
                    had == models(r@),
                    p == not_before(had, branch.name@),
                    forall|j: int| 0 <= j < i ==> !#[trigger] p(j),
                decreases r@.len() - i,
            {
                assert(!p(i as int));
                i += 1;
            }
            proof {
                if i < r@.len() {
                    assert(p(i as int));
                }
                text::lemma_least_is(0, had.len() as int, p, i as int);
            }
            if i < r.len() && text::same(&r[i].name, &branch.name) {
            } else {
                let copy: StaleBranch = branch.clone();
                r.insert(i, copy);
                assert(models(r@) =~= had.insert(i as int, copy.model()));
            }
        }
        n += 1;
    }
    r
}

/// The branches held back from the sweep: those that the configuration keeps,
/// and the remote's default branch.
pub open spec fn kept_branches_spec(rest: Seq<Answer>, remote: Seq<char>) -> Progress<Words> {
    match run_in_spec(rest, None, args3("config"@, "--get-all"@, "perch.keep"@)) {
        Progress::Waiting(q) => Progress::Waiting(q),
        Progress::Finished(configured, rest) => {
            let kept = match configured {
                Ok(output) => text::lines(output),
                Err(_) => Seq::empty(),
            };
            match default_branch_spec(rest, remote) {
                Progress::Waiting(q) => Progress::Waiting(q),
                Progress::Finished(Some(default), rest) => Progress::Finished(
                    kept.push(default),
                    rest,
                ),
                Progress::Finished(None, rest) => Progress::Finished(kept, rest),
            }
        },
    }
}

pub fn kept_branches(talk: &mut Talk, remote: &str) -> (r: Option<Vec<String>>)
    ensures
        heard(r, *final(talk)) == kept_branches_spec(old(talk).rest(), remote@),
{
    broadcast use crate::model::lemma_models_push;

    let mut kept: Vec<String> = match run(talk, words3("config", "--get-all", "perch.keep"))? {
        Ok(output) => text::lines_of(&output),
        Err(_) => {
            let none: Vec<String> = Vec::new();
            assert(models(none@) =~= Seq::empty());
            none
        },
    };
    match default_branch(talk, remote)? {
        Some(default) => kept.push(default),
        None => {},
    }
    Some(kept)
}

/// The ref that staleness is judged against, and the default branch's name:
/// the local copy, which is what work is merged into, or else its remote
/// counterpart. Where neither resolves there is nothing to judge against.
pub open spec fn merged_anchor_spec(rest: Seq<Answer>, remote: Seq<char>) -> Progress<
    Option<(Seq<char>, Seq<char>)>,
> {
    match default_branch_spec(rest, remote) {
        Progress::Waiting(q) => Progress::Waiting(q),
        Progress::Finished(None, rest) => Progress::Finished(None, rest),
        Progress::Finished(Some(default), rest) => {
            let local = "refs/heads/"@ + default;
            let remote_ref = "refs/remotes/"@ + remote + "/"@ + default;
            match rev_parse_spec(rest, None, local) {
                Progress::Waiting(q) => Progress::Waiting(q),
                Progress::Finished(Ok(_), rest) => Progress::Finished(Some((local, default)), rest),
                Progress::Finished(Err(_), rest) => match rev_parse_spec(rest, None, remote_ref) {
                    Progress::Waiting(q) => Progress::Waiting(q),
                    Progress::Finished(Ok(_), rest) => Progress::Finished(
                        Some((remote_ref, default)),
                        rest,
                    ),
                    Progress::Finished(Err(_), rest) => Progress::Finished(None, rest),
                },
            }
        },
    }
}

pub fn merged_anchor(talk: &mut Talk, remote: &str) -> (r: Option<Option<(String, String)>>)
    ensures
        heard(r, *final(talk)) == merged_anchor_spec(old(talk).rest(), remote@),
{
    let default: String = match default_branch(talk, remote)? {
        Some(default) => default,
        None => return Some(None),
    };
    let local: String = text::joined("refs/heads/", &default);
    match rev_parse(talk, None, &local)? {
        Ok(_) => return Some(Some((local, default))),
        Err(_) => {},
    }
    let mut remote_ref: String = text::joined3("refs/remotes/", remote, "/");
    remote_ref.append(&default);
    match rev_parse(talk, None, &remote_ref)? {
        Ok(_) => Some(Some((remote_ref, default))),
        Err(_) => Some(None),
    }
}

/// The anchor's merged list and its tip, where there is an anchor.
pub open spec fn anchor_facts_spec(
    rest: Seq<Answer>,
    anchor: Option<(Seq<char>, Seq<char>)>,
) -> Progress<Meant<(Seq<char>, Option<Anchor<Seq<char>>>)>> {
    match anchor {
        None => Progress::Finished(Ok((Seq::empty(), None)), rest),
        Some((anchor_ref, branch)) => match run_in_spec(
            rest,
            None,
            args4("branch"@, "--format=%(refname:short)"@, "--merged"@, anchor_ref),
        ) {
            Progress::Waiting(q) => Progress::Waiting(q),
            Progress::Finished(Err(e), rest) => Progress::Finished(Err(e), rest),
            Progress::Finished(Ok(merged), rest) => match rev_parse_spec(rest, None, anchor_ref) {
                Progress::Waiting(q) => Progress::Waiting(q),
                Progress::Finished(Err(e), rest) => Progress::Finished(Err(e), rest),
                Progress::Finished(Ok(tip), rest) => Progress::Finished(
                    Ok((merged, Some(Anchor { branch, tip }))),
                    rest,
                ),
            },
        },
    }
}

fn anchor_facts(talk: &mut Talk, anchor: Option<(String, String)>) -> (r: Option<
    AppResult<(String, Option<Anchor>)>,
>)
    ensures
        heard(r, *final(talk)) == anchor_facts_spec(old(talk).rest(), anchor.model()),
{
    match anchor {
        None => {
            let none: String = String::new();
            assert(none@ =~= Seq::empty());
            Some(Ok((none, None)))
        },
        Some((anchor_ref, branch)) => {
            let merged: String = match run(
                talk,
                words4("branch", "--format=%(refname:short)", "--merged", &anchor_ref),
            )? {
                Ok(output) => output,
                Err(e) => return Some(Err(e)),
            };
            match rev_parse(talk, None, &anchor_ref)? {
                Ok(tip) => Some(Ok((merged, Some(Anchor { branch, tip })))),
                Err(e) => Some(Err(e)),
            }
        },
    }
}

/// The stale branches once the refs have been read.
pub open spec fn stale_given_refs_spec(
    rest: Seq<Answer>,
    remote: Seq<char>,
    current: Option<Seq<char>>,
    keep: Words,
    refs: Refs,
) -> Progress<Meant<Seq<StaleBranch<Seq<char>>>>> {
    match merged_anchor_spec(rest, remote) {
        Progress::Waiting(q) => Progress::Waiting(q),
        Progress::Finished(anchor, rest) => match anchor_facts_spec(rest, anchor) {
            Progress::Waiting(q) => Progress::Waiting(q),
            Progress::Finished(Err(e), rest) => Progress::Finished(Err(e), rest),
            Progress::Finished(Ok((merged, anchor)), rest) => Progress::Finished(
                Ok(swept(stale_from_spec(refs, text::lines(merged), anchor), current, keep)),
                rest,
            ),
        },
    }
}

/// The branches that the cleanup prompt offers.
pub open spec fn stale_branches_spec(rest: Seq<Answer>, remote: Seq<char>) -> Progress<
    Meant<Seq<StaleBranch<Seq<char>>>>,
> {
    match current_branch_spec(rest) {
        Progress::Waiting(q) => Progress::Waiting(q),
        Progress::Finished(Err(e), rest) => Progress::Finished(Err(e), rest),
        Progress::Finished(Ok(current), rest) => match kept_branches_spec(rest, remote) {
            Progress::Waiting(q) => Progress::Waiting(q),
            Progress::Finished(keep, rest) => match read_branch_refs_spec(rest) {
                Progress::Waiting(q) => Progress::Waiting(q),
                Progress::Finished(Err(e), rest) => Progress::Finished(Err(e), rest),
                Progress::Finished(Ok(output), rest) => stale_given_refs_spec(
                    rest,
                    remote,
                    current,
                    keep,
                    refs_in(text::lines(output)),
                ),
            },
        },
    }
}

/// Branches whose refs qualify them for the cleanup prompt.
///
/// That the anchor contains a branch does not settle it: one freshly cut from
/// the anchor is contained just as one that was merged is. Only what a branch
/// tracks is evidence. Three facts qualify one: its upstream was deleted; it
/// tracks the anchor's counterpart and is ahead of it; it tracks nothing, and
/// its tip is reachable from the anchor's tip but not equal to it.
pub fn stale_branches(talk: &mut Talk, remote: &str) -> (r: Option<AppResult<Vec<StaleBranch>>>)
    ensures
        heard(r, *final(talk)) == stale_branches_spec(old(talk).rest(), remote@),
{
    let current: Option<String> = match current_branch(talk)? {
        Ok(current) => current,
        Err(e) => return Some(Err(e)),
    };
    let keep: Vec<String> = kept_branches(talk, remote)?;
    let refs_output: String = match read_branch_refs(talk)? {
        Ok(output) => output,
        Err(e) => return Some(Err(e)),
    };
    let refs: Table<BranchRef> = branch_refs(&refs_output);
    let resolved: Option<(String, String)> = merged_anchor(talk, remote)?;
    let facts: (String, Option<Anchor>) = match anchor_facts(talk, resolved)? {
        Ok(facts) => facts,
        Err(e) => return Some(Err(e)),
    };
    let stale: Vec<StaleBranch> = stale_from(&refs, &facts.0, facts.1.as_ref());
    Some(Ok(sweep(&stale, lent(&current), &keep)))
}

// ---------------------------------------------------------------------------
// What a plain delete would refuse
// ---------------------------------------------------------------------------

/// Why `git branch -d` would refuse to delete a branch.
#[derive(Clone, Copy, Debug, PartialEq, Eq, Structural)]
pub enum Unmerged {
    /// Ahead of a live upstream by this many commits.
    Ahead(u32),
    /// No upstream, or one that is gone, so there is nothing to count against.
    NoUpstream,
}

impl Modelled for Unmerged {
    type Model = Unmerged;

    open spec fn model(&self) -> Unmerged {
        *self
    }
}

/// Git's own rule: a branch must be merged into its upstream, or into HEAD if
/// it has none. Where an upstream exists it alone decides; one that is gone
/// counts as absent.
pub open spec fn refused(merged: Words, name: Seq<char>, r: BranchRef<Seq<char>>) -> Option<
    Unmerged,
> {
    if r.upstream_branch.len() == 0 || r.is_gone() {
        if merged.contains(name) {
            None
        } else {
            Some(Unmerged::NoUpstream)
        }
    } else if track_spec(r.track).0 > 0 {
        Some(Unmerged::Ahead(track_spec(r.track).0))
    } else {
        None
    }
}

pub open spec fn unmerged_row(merged: Words) -> spec_fn(
    (Seq<char>, BranchRef<Seq<char>>),
) -> Option<(Seq<char>, Unmerged)> {
    |row: (Seq<char>, BranchRef<Seq<char>>)|
        match refused(merged, row.0, row.1) {
            Some(u) => Some((row.0, u)),
            None => None,
        }
}

/// The branches that a plain delete would refuse, each with its reason.
pub open spec fn unmerged_from_spec(merged: Words, refs: Refs) -> Seq<(Seq<char>, Unmerged)> {
    keep_map(refs, unmerged_row(merged))
}

proof fn lemma_unmerged_rows(merged: Words, refs: Refs)
    requires
        table::distinct(refs),
    ensures
        table::distinct(unmerged_from_spec(merged, refs)),
        forall|k: int|
            0 <= k < unmerged_from_spec(merged, refs).len() ==> exists|i: int|
                0 <= i < refs.len() && (#[trigger] refs[i]).0 == (#[trigger] unmerged_from_spec(
                    merged,
                    refs,
                )[k]).0,
    decreases refs.len(),
{
    if refs.len() > 0 {
        let rest = refs.drop_last();
        lemma_unmerged_rows(merged, rest);
        let before = unmerged_from_spec(merged, rest);
        let after = unmerged_from_spec(merged, refs);
        assert forall|k: int| 0 <= k < after.len() implies exists|i: int|
            0 <= i < refs.len() && (#[trigger] refs[i]).0 == (#[trigger] after[k]).0 by {
            if k < before.len() {
                assert(after[k] == before[k]);
                let i = choose|i: int|
                    0 <= i < rest.len() && (#[trigger] rest[i]).0 == before[k].0;
                assert(refs[i].0 == after[k].0);
            } else {
                assert(refs[refs.len() - 1].0 == after[k].0);
            }
        }
        assert forall|k: int, l: int| 0 <= k < l < after.len() implies (#[trigger] after[k]).0 != (
        #[trigger] after[l]).0 by {
            if l == before.len() {
                assert(after[k] == before[k]);
                let i = choose|i: int|
                    0 <= i < rest.len() && (#[trigger] rest[i]).0 == before[k].0;
                assert(refs[i].0 != refs[refs.len() - 1].0);
            }
        }
    }
}

/// What is found under a branch's name is what git's own rule says of it: the
/// marks shown and the deletion performed agree.
pub proof fn unmerged_mirrors_the_plain_delete(merged: Words, refs: Refs, name: Seq<char>)
    requires
        table::distinct(refs),
    ensures
        table::get(unmerged_from_spec(merged, refs), name) == (match table::get(refs, name) {
            Some(r) => refused(merged, name, r),
            None => None,
        }),
{
    let f = unmerged_row(merged);
    let out = unmerged_from_spec(merged, refs);
    lemma_unmerged_rows(merged, refs);
    text::lemma_least(0, refs.len() as int, table::named(refs, name));
    text::lemma_least(0, out.len() as int, table::named(out, name));
    let k = table::row_of(out, name);
    let i = table::row_of(refs, name);
    if k < out.len() {
        assert(out[k].0 == name);
        rows::lemma_keep_map_from(refs, f, out[k]);
        assert(out.contains(out[k]));
        let j = choose|j: int| 0 <= j < refs.len() && f(#[trigger] refs[j]) == Some(out[k]);
        table::lemma_get_row(refs, j);
    } else if i < refs.len() {
        assert(refs[i].0 == name);
        match f(refs[i]) {
            Some(row) => {
                rows::lemma_keep_map_from(refs, f, row);
                assert(out.contains(row));
                let m = choose|m: int| 0 <= m < out.len() && out[m] == row;
                assert(table::named(out, name)(m));
            },
            None => {},
        }
    }
}

/// The rule half of [`unmerged_branches`].
pub fn unmerged_from(merged_output: &str, refs: &Table<BranchRef>) -> (r: Table<Unmerged>)
    ensures
        r.model() == unmerged_from_spec(text::lines(merged_output@), refs.model()),
        table::distinct(refs.model()) ==> table::distinct(r.model()),
{
    broadcast use crate::model::lemma_models_push;

    let merged: Vec<String> = text::lines_of(merged_output);
    let ghost all = refs.model();
    let ghost f = unmerged_row(text::lines(merged_output@));
    let mut r: Table<Unmerged> = Table::new();
    let mut i: usize = 0;
    proof {
        rows::lemma_take_all(all);
    }
    while i < refs.rows.len()
        invariant
            i <= refs.rows@.len(),
            all == models(refs.rows@),
            models(merged@) == text::lines(merged_output@),
            f == unmerged_row(text::lines(merged_output@)),
            r.model() == keep_map(all.take(i as int), f),
        decreases refs.rows@.len() - i,
    {
        proof {
            rows::lemma_take_one_more(all, i as int);
            assert(all[i as int] == refs.rows@[i as int].model());
        }
        let name: &String = &refs.rows[i].0;
        let branch: &BranchRef = &refs.rows[i].1;
        let mut found: Option<Unmerged> = None;
        if branch.upstream_branch.as_str().is_empty() || branch.gone() {
            if !is_among(&merged, name) {
                found = Some(Unmerged::NoUpstream);
            }
        } else {
            let ahead: u32 = parse_track(&branch.track).0;
            if ahead > 0 {
                found = Some(Unmerged::Ahead(ahead));
            }
        }
        assert(found == refused(text::lines(merged_output@), name@, branch.model()));
        match found {
            Some(u) => {
                let row: (String, Unmerged) = (name.clone(), u);
                r.rows.push(row);
            },
            None => {},
        }
        i += 1;
    }
    proof {
        if table::distinct(refs.model()) {
            lemma_unmerged_rows(text::lines(merged_output@), refs.model());
        }
    }
    r
}

/// The branches that `git branch -d` would refuse, asked from the worktree
/// whose HEAD will be current when the delete runs.
pub open spec fn unmerged_branches_spec(rest: Seq<Answer>, dir: Option<Seq<char>>) -> Progress<
    Meant<Seq<(Seq<char>, Unmerged)>>,
> {
    match run_in_spec(rest, dir, args3("branch"@, "--format=%(refname:short)"@, "--merged"@)) {
        Progress::Waiting(q) => Progress::Waiting(q),
        Progress::Finished(Err(e), rest) => Progress::Finished(Err(e), rest),
        Progress::Finished(Ok(merged), rest) => match read_branch_refs_spec(rest) {
            Progress::Waiting(q) => Progress::Waiting(q),
            Progress::Finished(Err(e), rest) => Progress::Finished(Err(e), rest),
            Progress::Finished(Ok(output), rest) => Progress::Finished(
                Ok(unmerged_from_spec(text::lines(merged), refs_in(text::lines(output)))),
                rest,
            ),
        },
    }
}

pub fn unmerged_branches(talk: &mut Talk, dir: Option<&str>) -> (r: Option<
    AppResult<Table<Unmerged>>,
>)
    ensures
        heard(r, *final(talk)) == unmerged_branches_spec(old(talk).rest(), borrowed(dir)),
        r matches Some(Ok(refusals)) ==> table::distinct(refusals.model()),
{
    let merged: String = match run_in(
        talk,
        dir,
        words3("branch", "--format=%(refname:short)", "--merged"),
    )? {
        Ok(output) => output,
        Err(e) => return Some(Err(e)),
    };
    let refs_output: String = match read_branch_refs(talk)? {
        Ok(output) => output,
        Err(e) => return Some(Err(e)),
    };
    Some(Ok(unmerged_from(&merged, &branch_refs(&refs_output))))
}

/// How far each branch is ahead of its upstream and behind it, where it is
/// either.
pub open spec fn tracks_in(lines: Words) -> Seq<(Seq<char>, (u32, u32))>
    decreases lines.len(),
{
    if lines.len() == 0 {
        Seq::empty()
    } else {
        let before = tracks_in(lines.drop_last());
        match text::split_once(lines.last(), '\t') {
            None => before,
            Some((name, track)) => if track_spec(track) == (0u32, 0u32) {
                before
            } else {
                table::put(before, name, track_spec(track))
            },
        }
    }
}

pub open spec fn ahead_behind_map_spec(rest: Seq<Answer>) -> Progress<
    Seq<(Seq<char>, (u32, u32))>,
> {
    match run_in_spec(
        rest,
        None,
        args3(
            "for-each-ref"@,
            "--format=%(refname:short)%09%(upstream:track,nobracket)"@,
            "refs/heads/"@,
        ),
    ) {
        Progress::Waiting(q) => Progress::Waiting(q),
        Progress::Finished(Err(_), rest) => Progress::Finished(Seq::empty(), rest),
        Progress::Finished(Ok(output), rest) => Progress::Finished(
            tracks_in(text::lines(output)),
            rest,
        ),
    }
}

/// A listing counts every branch once.
pub proof fn tracks_are_distinct(lines: Words)
    ensures
        table::distinct(tracks_in(lines)),
    decreases lines.len(),
{
    if lines.len() > 0 {
        tracks_are_distinct(lines.drop_last());
        if let Some((name, track)) = text::split_once(lines.last(), '\t') {
            table::put_and_get(tracks_in(lines.drop_last()), name, track_spec(track));
        }
    }
}

/// The rule half of [`ahead_behind_map`].
pub fn tracks_from(output: &str) -> (r: Table<(u32, u32)>)
    ensures
        r.model() == tracks_in(text::lines(output@)),
        table::distinct(r.model()),
{
    let lines: Vec<String> = text::lines_of(output);
    let ghost all = text::lines(output@);
    let mut r: Table<(u32, u32)> = Table::new();
    let mut i: usize = 0;
    proof {
        rows::lemma_take_all(all);
    }
    while i < lines.len()
        invariant
            i <= lines@.len(),
            all == models(lines@),
            r.model() == tracks_in(all.take(i as int)),
            table::distinct(r.model()),
        decreases lines@.len() - i,
    {
        proof {
            rows::lemma_take_one_more(all, i as int);
        }
        match text::parted(&lines[i], '\t') {
            None => {},
            Some((name, track)) => {
                let counts: (u32, u32) = parse_track(&track);
                if counts.0 != 0 || counts.1 != 0 {
                    r.put(name, counts);
                }
            },
        }
        i += 1;
    }
    r
}

/// Each local branch's distance from its upstream. Branches without one, or
/// level with it, are absent.
pub fn ahead_behind_map(talk: &mut Talk) -> (r: Option<Table<(u32, u32)>>)
    ensures
        heard(r, *final(talk)) == ahead_behind_map_spec(old(talk).rest()),
        r matches Some(tracks) ==> table::distinct(tracks.model()),
{
    match run(
        talk,
        words3(
            "for-each-ref",
            "--format=%(refname:short)%09%(upstream:track,nobracket)",
            "refs/heads/",
        ),
    )? {
        Err(_) => Some(Table::new()),
        Ok(output) => Some(tracks_from(&output)),
    }
}

} // verus!
