//! Whether a branch's work is in the anchor already, under other commits.
use vstd::prelude::*;
use vstd::string::*;

use crate::ask::{
    args2, args3, args5, args6, args8, ask_run, run_asked, words2, words3, words5, words6, words8,
};
use crate::error::{AppResult, Meant};
use crate::grammar::{said, Words};
use crate::model::{borrowed, models, Modelled};
use crate::rows::{self, keep_map};
use crate::table::{self, Table};
use crate::talk::{heard, Answer, Asked, Progress, Request, Talk};
use crate::text;

use super::refs::{merged_anchor, merged_anchor_spec};
use super::upstream::head_ref;
use super::{or_none, printed, read_output, resolve, resolve_spec, run_in, run_in_spec};

verus! {

/// What was established when a branch was proven equivalent: where the branch
/// stood, and the anchor it was proven against. Both are read again before a
/// delete that rests on it.
#[derive(Debug, PartialEq, Eq)]
pub struct Proof<S = String> {
    /// The ref that the proof was made against, to be resolved again.
    pub anchor_ref: S,
    pub anchor_tip: S,
    pub tip: S,
}

impl Modelled for Proof {
    type Model = Proof<Seq<char>>;

    open spec fn model(&self) -> Proof<Seq<char>> {
        Proof { anchor_ref: self.anchor_ref@, anchor_tip: self.anchor_tip@, tip: self.tip@ }
    }
}

impl Clone for Proof {
    fn clone(&self) -> (r: Self)
        ensures
            r.model() == self.model(),
    {
        Proof {
            anchor_ref: self.anchor_ref.clone(),
            anchor_tip: self.anchor_tip.clone(),
            tip: self.tip.clone(),
        }
    }
}

// ---------------------------------------------------------------------------
// The patch
// ---------------------------------------------------------------------------

/// The request for the patch id of a diff, whitespace and all.
pub open spec fn patch_id_request(dir: Option<Seq<char>>, diff: Seq<char>) -> Asked {
    Asked::Git { dir, args: args2("patch-id"@, "--verbatim"@), input: Some(diff), shown: false }
}

pub open spec fn first_word(output: Meant<Seq<char>>) -> Option<Seq<char>> {
    match output {
        Ok(output) => if text::split_white(output).len() > 0 {
            Some(text::split_white(output)[0])
        } else {
            None
        },
        Err(_) => None,
    }
}

/// The patch id of the diff that a command prints: the first of the two words
/// that git answers with.
pub open spec fn verbatim_patch_id_spec(
    rest: Seq<Answer>,
    dir: Option<Seq<char>>,
    args: Words,
) -> Progress<Option<Seq<char>>> {
    match run_in_spec(rest, dir, args) {
        Progress::Waiting(q) => Progress::Waiting(q),
        Progress::Finished(Err(_), rest) => Progress::Finished(None, rest),
        Progress::Finished(Ok(diff), rest) => match run_asked(rest, patch_id_request(dir, diff)) {
            Progress::Waiting(q) => Progress::Waiting(q),
            Progress::Finished(ran, rest) => Progress::Finished(
                first_word(printed("patch-id"@, ran)),
                rest,
            ),
        },
    }
}

/// Runs git with `input` on its standard input.
pub fn run_with_stdin(
    talk: &mut Talk,
    dir: Option<&str>,
    command: &str,
    args: Vec<String>,
    input: String,
) -> (r: Option<AppResult<String>>)
    ensures
        heard(r, *final(talk)) == (match run_asked(
            old(talk).rest(),
            Asked::Git {
                dir: borrowed(dir),
                args: args.model(),
                input: Some(input@),
                shown: false,
            },
        ) {
            Progress::Waiting(q) => Progress::Waiting(q),
            Progress::Finished(ran, rest) => Progress::Finished(printed(command@, ran), rest),
        }),
{
    let request: Request = Request::Git {
        dir: crate::ask::owned(dir),
        args,
        input: Some(input),
        shown: false,
    };
    let ran: Result<crate::talk::Output, crate::error::IoError> = ask_run(talk, request)?;
    Some(read_output(command, ran))
}

pub fn verbatim_patch_id(talk: &mut Talk, dir: Option<&str>, args: Vec<String>) -> (r: Option<
    Option<String>,
>)
    ensures
        heard(r, *final(talk)) == verbatim_patch_id_spec(
            old(talk).rest(),
            borrowed(dir),
            args.model(),
        ),
{
    let diff: String = match run_in(talk, dir, args)? {
        Ok(diff) => diff,
        Err(_) => return Some(None),
    };
    match run_with_stdin(talk, dir, "patch-id", words2("patch-id", "--verbatim"), diff)? {
        Err(_) => Some(None),
        Ok(output) => {
            let words: Vec<String> = text::words_of(&output);
            if words.len() > 0 {
                assert(words@[0].model() == text::split_white(output@)[0]);
                Some(Some(words[0].clone()))
            } else {
                Some(None)
            }
        },
    }
}

/// The diff of a branch against its base, in terms that no configuration can
/// shrink: a changed gitlink that is not shown, or two files that a driver
/// renders alike, would prove a branch on what is left.
pub open spec fn whole_diff(base: Seq<char>, tip: Seq<char>) -> Words {
    args6("diff"@, "--ignore-submodules=none"@, "--no-textconv"@, "--no-ext-diff"@, base, tip)
}

/// The diff of one commit, in the same terms.
pub open spec fn commit_diff(commit: Seq<char>) -> Words {
    args5("show"@, "--ignore-submodules=none"@, "--no-textconv"@, "--no-ext-diff"@, commit)
}

/// A line of `git cherry` that names a commit whose patch is there already.
pub open spec fn landed_line(line: Seq<char>) -> Option<Seq<char>> {
    text::strip_prefix(line, "- "@)
}

pub open spec fn landed_commits(output: Seq<char>) -> Words {
    keep_map(text::lines(output), |l: Seq<char>| landed_line(l))
}

/// Whether any of the commits carries exactly the patch that is wanted.
pub open spec fn any_exact(
    rest: Seq<Answer>,
    dir: Option<Seq<char>>,
    commits: Words,
    wanted: Seq<char>,
) -> Progress<bool>
    decreases commits.len(),
{
    if commits.len() == 0 {
        Progress::Finished(false, rest)
    } else {
        match verbatim_patch_id_spec(rest, dir, commit_diff(commits[0])) {
            Progress::Waiting(q) => Progress::Waiting(q),
            Progress::Finished(id, rest) => if id == Some(wanted) {
                Progress::Finished(true, rest)
            } else {
                any_exact(rest, dir, commits.drop_first(), wanted)
            },
        }
    }
}

pub open spec fn marks_landed(output: Seq<char>) -> bool {
    let ls = text::lines(output);
    ls.len() > 0 && text::starts_with(ls[0], "-"@)
}

/// Once the anchor is known to carry the branch's patch in git's own
/// normalised reckoning: whether a commit there carries it verbatim.
pub open spec fn landed_exactly_spec(
    rest: Seq<Answer>,
    dir: Option<Seq<char>>,
    anchor: Seq<char>,
    tip: Seq<char>,
    base: Seq<char>,
    probe: Seq<char>,
) -> Progress<bool> {
    match run_in_spec(rest, dir, args3("cherry"@, probe, anchor)) {
        Progress::Waiting(q) => Progress::Waiting(q),
        Progress::Finished(Err(_), rest) => Progress::Finished(false, rest),
        Progress::Finished(Ok(matches), rest) => match verbatim_patch_id_spec(
            rest,
            dir,
            whole_diff(base, tip),
        ) {
            Progress::Waiting(q) => Progress::Waiting(q),
            Progress::Finished(None, rest) => Progress::Finished(false, rest),
            Progress::Finished(Some(wanted), rest) => any_exact(
                rest,
                dir,
                landed_commits(matches),
                wanted,
            ),
        },
    }
}

/// Whether the anchor already carries the branch's whole diff as one patch.
/// The diff is made one commit on the merge base, so that git can compare it
/// by patch id, and what git finds is compared again verbatim: its patch ids
/// ignore whitespace, which a delete must not.
pub open spec fn patch_landed_spec(
    rest: Seq<Answer>,
    dir: Option<Seq<char>>,
    anchor: Seq<char>,
    tip: Seq<char>,
    base: Seq<char>,
) -> Progress<bool> {
    match run_in_spec(
        rest,
        dir,
        args6("commit-tree"@, tip + "^{tree}"@, "-p"@, base, "-m"@, "perch: equivalence probe"@),
    ) {
        Progress::Waiting(q) => Progress::Waiting(q),
        Progress::Finished(Err(_), rest) => Progress::Finished(false, rest),
        Progress::Finished(Ok(output), rest) => {
            let probe = text::trim(output);
            match run_in_spec(rest, dir, args3("cherry"@, anchor, probe)) {
                Progress::Waiting(q) => Progress::Waiting(q),
                Progress::Finished(Err(_), rest) => Progress::Finished(false, rest),
                Progress::Finished(Ok(answer), rest) => if marks_landed(answer) {
                    landed_exactly_spec(rest, dir, anchor, tip, base, probe)
                } else {
                    Progress::Finished(false, rest)
                },
            }
        },
    }
}

fn read_landed_commits(output: &str) -> (r: Vec<String>)
    ensures
        models(r@) == landed_commits(output@),
{
    let lines: Vec<String> = text::lines_of(output);
    let ghost all = text::lines(output@);
    let ghost f = |l: Seq<char>| landed_line(l);
    let mut r: Vec<String> = Vec::new();
    let mut i: usize = 0;
    proof {
        rows::lemma_take_all(all);
        assert(models(r@) =~= Seq::empty());
    }
    while i < lines.len()
        invariant
            i <= lines@.len(),
            all == models(lines@),
            f == (|l: Seq<char>| landed_line(l)),
            models(r@) == keep_map(all.take(i as int), f),
        decreases lines@.len() - i,
    {
        broadcast use crate::model::lemma_models_push;

        proof {
            rows::lemma_take_one_more(all, i as int);
        }
        match text::stripped(&lines[i], "- ") {
            Some(commit) => r.push(commit),
            None => {},
        }
        i += 1;
    }
    r
}

fn any_exact_among(talk: &mut Talk, dir: Option<&str>, commits: &[String], wanted: &str) -> (r:
    Option<bool>)
    ensures
        heard(r, *final(talk)) == any_exact(
            old(talk).rest(),
            borrowed(dir),
            models(commits@),
            wanted@,
        ),
{
    let ghost all = models(commits@);
    let mut i: usize = 0;
    proof {
        rows::lemma_take_all(all);
    }
    while i < commits.len()
        invariant
            i <= commits@.len(),
            all == models(commits@),
            any_exact(old(talk).rest(), borrowed(dir), all, wanted@) == any_exact(
                talk.rest(),
                borrowed(dir),
                all.skip(i as int),
                wanted@,
            ),
        decreases commits@.len() - i,
    {
        proof {
            rows::lemma_take_one_more(all, i as int);
        }
        match verbatim_patch_id(
            talk,
            dir,
            words5(
                "show",
                "--ignore-submodules=none",
                "--no-textconv",
                "--no-ext-diff",
                &commits[i],
            ),
        )? {
            Some(id) => {
                if text::same(&id, wanted) {
                    return Some(true);
                }
            },
            None => {},
        }
        i += 1;
    }
    Some(false)
}

/// Whether the anchor already carries the branch's patch.
pub fn patch_landed(talk: &mut Talk, dir: Option<&str>, anchor: &str, tip: &str, base: &str) -> (r:
    Option<bool>)
    ensures
        heard(r, *final(talk)) == patch_landed_spec(
            old(talk).rest(),
            borrowed(dir),
            anchor@,
            tip@,
            base@,
        ),
{
    let tree: String = text::joined(tip, "^{tree}");
    let probe: String = match run_in(
        talk,
        dir,
        words6("commit-tree", &tree, "-p", base, "-m", "perch: equivalence probe"),
    )? {
        Ok(output) => text::trimmed(&output),
        Err(_) => return Some(false),
    };
    let answer: Vec<String> = match run_in(talk, dir, words3("cherry", anchor, &probe))? {
        Ok(output) => text::lines_of(&output),
        Err(_) => return Some(false),
    };
    if answer.len() == 0 {
        return Some(false);
    }
    assert(answer@[0].model() == models(answer@)[0]);
    if !text::begins(&answer[0], "-") {
        return Some(false);
    }
    // Asked this way round, the commits marked are those of the anchor.
    let matches: String = match run_in(talk, dir, words3("cherry", &probe, anchor))? {
        Ok(output) => output,
        Err(_) => return Some(false),
    };
    let wanted: String = match verbatim_patch_id(
        talk,
        dir,
        words6("diff", "--ignore-submodules=none", "--no-textconv", "--no-ext-diff", base, tip),
    )? {
        Some(id) => id,
        None => return Some(false),
    };
    any_exact_among(talk, dir, &read_landed_commits(&matches), &wanted)
}

// ---------------------------------------------------------------------------
// The content
// ---------------------------------------------------------------------------

/// The listing of the paths that a branch touched, each as it is, with both
/// ends of a rename.
pub open spec fn listing_args(base: Seq<char>, tip: Seq<char>) -> Words {
    args8(
        "diff"@,
        "--ignore-submodules=none"@,
        "--no-textconv"@,
        "--no-ext-diff"@,
        "--name-only"@,
        "--no-renames"@,
        "-z"@,
        base,
    ).push(tip)
}

/// The paths in a listing.
pub open spec fn touched_paths(listing: Seq<char>) -> Words {
    keep_map(text::split(listing, '\0'), |p: Seq<char>| or_none(p))
}

/// The comparison of those paths, as names and not as patterns.
pub open spec fn comparison_args(tip: Seq<char>, anchor: Seq<char>, touched: Words) -> Words {
    args8(
        "--literal-pathspecs"@,
        "diff"@,
        "--ignore-submodules=none"@,
        "--no-textconv"@,
        "--no-ext-diff"@,
        "--quiet"@,
        tip,
        anchor,
    ).push("--"@) + touched
}

/// Whether every path that the branch touched reads the same in the anchor. A
/// branch that touched nothing proves nothing, and neither does one with a
/// path that cannot be read.
pub open spec fn content_present_spec(
    rest: Seq<Answer>,
    dir: Option<Seq<char>>,
    anchor: Seq<char>,
    tip: Seq<char>,
    base: Seq<char>,
) -> Progress<bool> {
    match run_in_spec(rest, dir, listing_args(base, tip)) {
        Progress::Waiting(q) => Progress::Waiting(q),
        Progress::Finished(Err(_), rest) => Progress::Finished(false, rest),
        Progress::Finished(Ok(listing), rest) => {
            let touched = touched_paths(listing);
            if listing.contains('\u{fffd}') || touched.len() == 0 {
                Progress::Finished(false, rest)
            } else {
                match run_in_spec(rest, dir, comparison_args(tip, anchor, touched)) {
                    Progress::Waiting(q) => Progress::Waiting(q),
                    Progress::Finished(r, rest) => Progress::Finished(r is Ok, rest),
                }
            }
        },
    }
}

fn read_touched_paths(listing: &str) -> (r: Vec<String>)
    ensures
        models(r@) == touched_paths(listing@),
{
    let pieces: Vec<String> = text::split_at_each(listing, '\0');
    let ghost all = text::split(listing@, '\0');
    let ghost f = |p: Seq<char>| or_none(p);
    let mut r: Vec<String> = Vec::new();
    let mut i: usize = 0;
    proof {
        rows::lemma_take_all(all);
        assert(models(r@) =~= Seq::empty());
    }
    while i < pieces.len()
        invariant
            i <= pieces@.len(),
            all == models(pieces@),
            f == (|p: Seq<char>| or_none(p)),
            models(r@) == keep_map(all.take(i as int), f),
        decreases pieces@.len() - i,
    {
        broadcast use crate::model::lemma_models_push;

        proof {
            rows::lemma_take_one_more(all, i as int);
        }
        if !pieces[i].as_str().is_empty() {
            r.push(pieces[i].clone());
        }
        i += 1;
    }
    r
}

/// Whether every path that the branch touched reads the same in the anchor.
pub fn content_present(
    talk: &mut Talk,
    dir: Option<&str>,
    anchor: &str,
    tip: &str,
    base: &str,
) -> (r: Option<bool>)
    ensures
        heard(r, *final(talk)) == content_present_spec(
            old(talk).rest(),
            borrowed(dir),
            anchor@,
            tip@,
            base@,
        ),
{
    broadcast use crate::model::lemma_models_push;

    let mut args: Vec<String> = words8(
        "diff",
        "--ignore-submodules=none",
        "--no-textconv",
        "--no-ext-diff",
        "--name-only",
        "--no-renames",
        "-z",
        base,
    );
    args.push(tip.to_owned());
    let listing: String = match run_in(talk, dir, args)? {
        Ok(listing) => listing,
        Err(_) => return Some(false),
    };
    // A path that could not be decoded would match nothing, which reads as no
    // difference.
    if text::holds_char(&listing, '\u{fffd}') {
        return Some(false);
    }
    let mut touched: Vec<String> = read_touched_paths(&listing);
    if touched.len() == 0 {
        assert(touched_paths(listing@).len() == 0);
        return Some(false);
    }
    let mut args: Vec<String> = words8(
        "--literal-pathspecs",
        "diff",
        "--ignore-submodules=none",
        "--no-textconv",
        "--no-ext-diff",
        "--quiet",
        tip,
        anchor,
    );
    args.push("--".to_owned());
    let ghost front = models(args@);
    let ghost paths = models(touched@);
    args.append(&mut touched);
    assert(models(args@) =~= front + paths);
    match run_in(talk, dir, args)? {
        Ok(_) => Some(true),
        Err(_) => Some(false),
    }
}

/// A branch that touched no path proves nothing by its content, whatever the
/// anchor holds, and no comparison is run without paths.
pub proof fn nothing_touched_proves_nothing(
    rest: Seq<Answer>,
    dir: Option<Seq<char>>,
    anchor: Seq<char>,
    tip: Seq<char>,
    base: Seq<char>,
    listing: Seq<char>,
    after: Seq<Answer>,
)
    requires
        run_in_spec(rest, dir, listing_args(base, tip)) == Progress::Finished::<
            Meant<Seq<char>>,
        >(Ok(listing), after),
        touched_paths(listing).len() == 0,
    ensures
        content_present_spec(rest, dir, anchor, tip, base) == Progress::Finished(false, after),
{
}

// ---------------------------------------------------------------------------
// Equivalence
// ---------------------------------------------------------------------------

/// Whether everything a branch adds over its merge base with the anchor is in
/// the anchor: either route proves it, since work can land in two shapes and
/// neither sees both.
pub open spec fn equivalent_to_spec(
    rest: Seq<Answer>,
    dir: Option<Seq<char>>,
    anchor: Seq<char>,
    tip: Seq<char>,
) -> Progress<bool> {
    match run_in_spec(rest, dir, args3("merge-base"@, anchor, tip)) {
        Progress::Waiting(q) => Progress::Waiting(q),
        Progress::Finished(Err(_), rest) => Progress::Finished(false, rest),
        Progress::Finished(Ok(output), rest) => {
            let base = text::trim(output);
            match patch_landed_spec(rest, dir, anchor, tip, base) {
                Progress::Waiting(q) => Progress::Waiting(q),
                Progress::Finished(true, rest) => Progress::Finished(true, rest),
                Progress::Finished(false, rest) => content_present_spec(
                    rest,
                    dir,
                    anchor,
                    tip,
                    base,
                ),
            }
        },
    }
}

pub fn equivalent_to(talk: &mut Talk, dir: Option<&str>, anchor: &str, tip: &str) -> (r: Option<
    bool,
>)
    ensures
        heard(r, *final(talk)) == equivalent_to_spec(
            old(talk).rest(),
            borrowed(dir),
            anchor@,
            tip@,
        ),
{
    let base: String = match run_in(talk, dir, words3("merge-base", anchor, tip))? {
        Ok(output) => text::trimmed(&output),
        Err(_) => return Some(false),
    };
    if patch_landed(talk, dir, anchor, tip, &base)? {
        return Some(true);
    }
    content_present(talk, dir, anchor, tip, &base)
}

/// The proofs of some candidates, with those found already: each is asked of
/// the resolved anchor, so that all rest on the same commit.
pub open spec fn proofs_spec(
    rest: Seq<Answer>,
    dir: Option<Seq<char>>,
    anchor_ref: Seq<char>,
    anchor_tip: Seq<char>,
    candidates: Words,
    found: Seq<(Seq<char>, Proof<Seq<char>>)>,
) -> Progress<Seq<(Seq<char>, Proof<Seq<char>>)>>
    decreases candidates.len(),
{
    if candidates.len() == 0 {
        Progress::Finished(found, rest)
    } else {
        let name = candidates[0];
        let others = candidates.drop_first();
        match resolve_spec(rest, dir, head_ref(name)) {
            Progress::Waiting(q) => Progress::Waiting(q),
            Progress::Finished(None, rest) => proofs_spec(
                rest,
                dir,
                anchor_ref,
                anchor_tip,
                others,
                found,
            ),
            Progress::Finished(Some(tip), rest) => match equivalent_to_spec(
                rest,
                dir,
                anchor_tip,
                tip,
            ) {
                Progress::Waiting(q) => Progress::Waiting(q),
                Progress::Finished(false, rest) => proofs_spec(
                    rest,
                    dir,
                    anchor_ref,
                    anchor_tip,
                    others,
                    found,
                ),
                Progress::Finished(true, rest) => proofs_spec(
                    rest,
                    dir,
                    anchor_ref,
                    anchor_tip,
                    others,
                    table::put(found, name, Proof { anchor_ref, anchor_tip, tip }),
                ),
            },
        }
    }
}

/// The candidates whose whole diff is in the anchor already, each with its
/// proof; none where there is no anchor to prove it against.
pub open spec fn equivalent_branches_spec(
    rest: Seq<Answer>,
    dir: Option<Seq<char>>,
    remote: Seq<char>,
    candidates: Words,
) -> Progress<Seq<(Seq<char>, Proof<Seq<char>>)>> {
    match merged_anchor_spec(rest, remote) {
        Progress::Waiting(q) => Progress::Waiting(q),
        Progress::Finished(None, rest) => Progress::Finished(Seq::empty(), rest),
        Progress::Finished(Some((anchor_ref, _)), rest) => match resolve_spec(
            rest,
            dir,
            anchor_ref,
        ) {
            Progress::Waiting(q) => Progress::Waiting(q),
            Progress::Finished(None, rest) => Progress::Finished(Seq::empty(), rest),
            Progress::Finished(Some(anchor_tip), rest) => proofs_spec(
                rest,
                dir,
                anchor_ref,
                anchor_tip,
                candidates,
                Seq::empty(),
            ),
        },
    }
}

/// Branches whose whole diff against the anchor is in the anchor already under
/// some other commit. Equivalence is positive evidence: anything that cannot
/// be established leaves a branch treated as holding work of its own.
pub fn equivalent_branches(
    talk: &mut Talk,
    dir: Option<&str>,
    remote: &str,
    candidates: &[&str],
) -> (r: Option<Table<Proof>>)
    ensures
        heard(r, *final(talk)) == equivalent_branches_spec(
            old(talk).rest(),
            borrowed(dir),
            remote@,
            said(candidates@),
        ),
        r matches Some(found) ==> table::distinct(found.model()),
{
    let anchor_ref: String = match merged_anchor(talk, remote)? {
        Some((anchor_ref, _branch)) => anchor_ref,
        None => return Some(Table::new()),
    };
    let anchor_tip: String = match resolve(talk, dir, &anchor_ref)? {
        Some(tip) => tip,
        None => return Some(Table::new()),
    };
    let ghost all = said(candidates@);
    let ghost start = talk.rest();
    let mut found: Table<Proof> = Table::new();
    let mut i: usize = 0;
    proof {
        rows::lemma_take_all(all);
    }
    while i < candidates.len()
        invariant
            i <= candidates@.len(),
            all == said(candidates@),
            equivalent_branches_spec(old(talk).rest(), borrowed(dir), remote@, said(candidates@))
                == proofs_spec(
                start,
                borrowed(dir),
                anchor_ref@,
                anchor_tip@,
                all,
                Seq::empty(),
            ),
            proofs_spec(start, borrowed(dir), anchor_ref@, anchor_tip@, all, Seq::empty())
                == proofs_spec(
                talk.rest(),
                borrowed(dir),
                anchor_ref@,
                anchor_tip@,
                all.skip(i as int),
                found.model(),
            ),
            table::distinct(found.model()),
        decreases candidates@.len() - i,
    {
        proof {
            rows::lemma_take_one_more(all, i as int);
        }
        let name: &str = candidates[i];
        let refname: String = text::joined("refs/heads/", name);
        match resolve(talk, dir, &refname)? {
            None => {},
            Some(tip) => {
                if equivalent_to(talk, dir, &anchor_tip, &tip)? {
                    found.put(
                        name.to_owned(),
                        Proof {
                            anchor_ref: anchor_ref.clone(),
                            anchor_tip: anchor_tip.clone(),
                            tip,
                        },
                    );
                }
            },
        }
        i += 1;
    }
    Some(found)
}

/// What a candidate is found to be: where it stands, if it resolves and is
/// equivalent to the anchor, and the replies left after it was looked at.
pub open spec fn verdict(
    rest: Seq<Answer>,
    dir: Option<Seq<char>>,
    anchor_tip: Seq<char>,
    name: Seq<char>,
) -> (Option<Seq<char>>, Seq<Answer>) {
    match resolve_spec(rest, dir, head_ref(name)) {
        Progress::Finished(Some(tip), rest) => match equivalent_to_spec(
            rest,
            dir,
            anchor_tip,
            tip,
        ) {
            Progress::Finished(true, rest) => (Some(tip), rest),
            Progress::Finished(false, rest) => (None, rest),
            Progress::Waiting(_) => (None, Seq::empty()),
        },
        Progress::Finished(None, rest) => (None, rest),
        Progress::Waiting(_) => (None, Seq::empty()),
    }
}

/// The replies left once the first `n` candidates have been looked at.
pub open spec fn left_after(
    rest: Seq<Answer>,
    dir: Option<Seq<char>>,
    anchor_tip: Seq<char>,
    candidates: Words,
    n: nat,
) -> Seq<Answer>
    decreases n,
{
    if n == 0 || candidates.len() == 0 {
        rest
    } else {
        left_after(
            verdict(rest, dir, anchor_tip, candidates[0]).1,
            dir,
            anchor_tip,
            candidates.drop_first(),
            (n - 1) as nat,
        )
    }
}

/// Where the candidate at an index stands, if it was found to be equivalent
/// when its turn came.
pub open spec fn proven_at(
    rest: Seq<Answer>,
    dir: Option<Seq<char>>,
    anchor_tip: Seq<char>,
    candidates: Words,
    i: int,
) -> Option<Seq<char>> {
    verdict(
        left_after(rest, dir, anchor_tip, candidates, i as nat),
        dir,
        anchor_tip,
        candidates[i],
    ).0
}

/// That a proof is one of a candidate, of where it stood and against the
/// anchor.
pub open spec fn rests_on(
    rest: Seq<Answer>,
    dir: Option<Seq<char>>,
    anchor_ref: Seq<char>,
    anchor_tip: Seq<char>,
    candidates: Words,
    name: Seq<char>,
    proven: Proof<Seq<char>>,
) -> bool {
    &&& proven.anchor_ref == anchor_ref
    &&& proven.anchor_tip == anchor_tip
    &&& exists|i: int|
        0 <= i < candidates.len() && candidates[i] == name && #[trigger] proven_at(
            rest,
            dir,
            anchor_tip,
            candidates,
            i,
        ) == Some(proven.tip)
}

proof fn lemma_proofs(
    rest: Seq<Answer>,
    dir: Option<Seq<char>>,
    anchor_ref: Seq<char>,
    anchor_tip: Seq<char>,
    candidates: Words,
    found: Seq<(Seq<char>, Proof<Seq<char>>)>,
    name: Seq<char>,
)
    requires
        table::distinct(found),
    ensures
        proofs_spec(rest, dir, anchor_ref, anchor_tip, candidates, found)
            matches Progress::Finished(proofs, _) ==> {
            &&& table::distinct(proofs)
            &&& table::get(proofs, name) matches Some(p) ==> table::get(found, name) == Some(p)
                || rests_on(rest, dir, anchor_ref, anchor_tip, candidates, name, p)
            &&& table::get(found, name) is Some ==> table::get(proofs, name) is Some
            &&& (exists|i: int|
                0 <= i < candidates.len() && candidates[i] == name && #[trigger] proven_at(
                    rest,
                    dir,
                    anchor_tip,
                    candidates,
                    i,
                ) is Some) ==> table::get(proofs, name) is Some
        },
    decreases candidates.len(),
{
    if candidates.len() > 0 {
        let first = candidates[0];
        let others = candidates.drop_first();
        let (standing, after) = verdict(rest, dir, anchor_tip, first);
        let more = match standing {
            Some(tip) => table::put(found, first, Proof { anchor_ref, anchor_tip, tip }),
            None => found,
        };
        if let Some(tip) = standing {
            table::put_and_get(found, first, Proof { anchor_ref, anchor_tip, tip });
        }
        lemma_proofs(after, dir, anchor_ref, anchor_tip, others, more, name);
        assert(left_after(rest, dir, anchor_tip, candidates, 0) == rest);
        assert(proven_at(rest, dir, anchor_tip, candidates, 0) == standing);
        assert forall|i: int| 0 < i < candidates.len() implies #[trigger] proven_at(
            rest,
            dir,
            anchor_tip,
            candidates,
            i,
        ) == proven_at(after, dir, anchor_tip, others, i - 1) by {
            assert(candidates[i] == others[i - 1]);
            assert(left_after(rest, dir, anchor_tip, candidates, i as nat) == left_after(
                after,
                dir,
                anchor_tip,
                others,
                (i - 1) as nat,
            ));
        }
        if let Progress::Finished(proofs, _) = proofs_spec(
            rest,
            dir,
            anchor_ref,
            anchor_tip,
            candidates,
            found,
        ) {
            assert(proofs_spec(after, dir, anchor_ref, anchor_tip, others, more)
                matches Progress::Finished(same, _) && same == proofs);
            if let Some(p) = table::get(proofs, name) {
                if rests_on(after, dir, anchor_ref, anchor_tip, others, name, p) {
                    let i = choose|i: int|
                        0 <= i < others.len() && others[i] == name && #[trigger] proven_at(
                            after,
                            dir,
                            anchor_tip,
                            others,
                            i,
                        ) == Some(p.tip);
                    assert(candidates[i + 1] == name);
                    assert(proven_at(rest, dir, anchor_tip, candidates, i + 1) == Some(p.tip));
                }
            }
            if exists|i: int|
                0 <= i < candidates.len() && candidates[i] == name && #[trigger] proven_at(
                    rest,
                    dir,
                    anchor_tip,
                    candidates,
                    i,
                ) is Some {
                let i = choose|i: int|
                    0 <= i < candidates.len() && candidates[i] == name && #[trigger] proven_at(
                        rest,
                        dir,
                        anchor_tip,
                        candidates,
                        i,
                    ) is Some;
                if i > 0 {
                    assert(others[i - 1] == name);
                    assert(proven_at(after, dir, anchor_tip, others, i - 1) is Some);
                }
            }
        }
    }
}

/// The anchor that proofs are made against: its ref, the commit it resolved to
/// and the replies left after that.
pub open spec fn anchor_resolved(
    rest: Seq<Answer>,
    dir: Option<Seq<char>>,
    remote: Seq<char>,
) -> Option<(Seq<char>, Seq<char>, Seq<Answer>)> {
    match merged_anchor_spec(rest, remote) {
        Progress::Finished(Some((anchor_ref, _)), rest) => match resolve_spec(
            rest,
            dir,
            anchor_ref,
        ) {
            Progress::Finished(Some(anchor_tip), rest) => Some((anchor_ref, anchor_tip, rest)),
            _ => None,
        },
        _ => None,
    }
}

/// Exactly the candidates that resolved and were equivalent to the anchor when
/// their turn came are proven, each once. A proof names the anchor as it was
/// resolved and the commit that the candidate stood at. Without an anchor
/// nothing is proven.
pub proof fn exactly_the_equivalent_candidates_are_proven(
    rest: Seq<Answer>,
    dir: Option<Seq<char>>,
    remote: Seq<char>,
    candidates: Words,
    name: Seq<char>,
)
    ensures
        equivalent_branches_spec(rest, dir, remote, candidates) matches Progress::Finished(
            proofs,
            _,
        ) ==> {
            &&& table::distinct(proofs)
            &&& match anchor_resolved(rest, dir, remote) {
                None => proofs.len() == 0,
                Some((anchor_ref, anchor_tip, left)) => {
                    &&& table::get(proofs, name) matches Some(p) ==> rests_on(
                        left,
                        dir,
                        anchor_ref,
                        anchor_tip,
                        candidates,
                        name,
                        p,
                    )
                    &&& (exists|i: int|
                        0 <= i < candidates.len() && candidates[i] == name
                            && #[trigger] proven_at(left, dir, anchor_tip, candidates, i) is Some)
                        ==> table::get(proofs, name) is Some
                },
            }
        },
{
    let none = Seq::<(Seq<char>, Proof<Seq<char>>)>::empty();
    assert(table::get(none, name) is None);
    if let Some((anchor_ref, anchor_tip, left)) = anchor_resolved(rest, dir, remote) {
        lemma_proofs(left, dir, anchor_ref, anchor_tip, candidates, none, name);
    }
}

} // verus!
