//! What the user is told.
use vstd::prelude::*;
use vstd::string::*;

use crate::ask::{
    ask_done, ask_flag, ask_text, done_asked, flag_asked, lent, tell, tell_asked, text_asked,
};

use crate::git::{self, FetchOutcome, MergeReport, StashPopOutcome};
use crate::grammar::{Verb, Words};
use crate::model::{models, Modelled};
use crate::path;
use crate::rows;
use crate::talk::{heard, Answer, Asked, Mark, Progress, Request, Talk};
use crate::text;

use super::quoting::{shell_quote, shell_word};

verus! {

impl Verb {
    /// The prompt of the branch list. All three verbs draw the same list, so
    /// it alone says what picking a row will do.
    pub open spec fn prompt_spec(self) -> Seq<char> {
        match self {
            Verb::Go => "Switch to"@,
            Verb::Here => "Check out here"@,
            Verb::Worktree => "Worktree"@,
        }
    }

    pub fn prompt(self) -> (r: &'static str)
        ensures
            r@ == self.prompt_spec(),
    {
        match self {
            Verb::Go => "Switch to",
            Verb::Here => "Check out here",
            Verb::Worktree => "Worktree",
        }
    }
}

/// `word` for one, and with an `s` otherwise.
pub open spec fn plural_spec(n: u32, word: Seq<char>) -> Seq<char> {
    if n == 1 {
        word
    } else {
        word + "s"@
    }
}

pub fn plural(n: u32, word: &str) -> (r: String)
    ensures
        r@ == plural_spec(n, word@),
{
    if n == 1 {
        word.to_owned()
    } else {
        text::joined(word, "s")
    }
}

pub open spec fn reconcile_hint_spec(remote_ref: Seq<char>) -> Seq<char> {
    "Run `git rebase -- "@ + shell_word(remote_ref) + "` or `git merge -- "@ + shell_word(
        remote_ref,
    ) + "` to reconcile."@
}

/// What is left to do by hand when a rebase was declined.
pub fn reconcile_hint(remote_ref: &str) -> (r: String)
    ensures
        r@ == reconcile_hint_spec(remote_ref@),
{
    let quoted: String = shell_quote(remote_ref);
    let mut r: String = text::joined3("Run `git rebase -- ", &quoted, "` or `git merge -- ");
    r.append(&quoted);
    r.append("` to reconcile.");
    r
}

pub open spec fn aborted_rebase_hint_spec(remote_ref: Seq<char>) -> Seq<char> {
    "Rebase aborted due to conflicts. Run `git rebase -- "@ + shell_word(remote_ref)
        + "` manually to reconcile."@
}

/// What is left to do by hand when a rebase conflicted.
pub fn aborted_rebase_hint(remote_ref: &str) -> (r: String)
    ensures
        r@ == aborted_rebase_hint_spec(remote_ref@),
{
    text::joined3(
        "Rebase aborted due to conflicts. Run `git rebase -- ",
        &shell_quote(remote_ref),
        "` manually to reconcile.",
    )
}

pub open spec fn update_line(report: MergeReport) -> Seq<char> {
    match report {
        MergeReport::UpToDate => "Already up to date."@,
        MergeReport::Pulled(n) => if n == 1 {
            "Pulled 1 commit."@
        } else {
            "Pulled "@ + text::decimal(n as nat) + " commits."@
        },
        MergeReport::NoRemote => "No remote tracking branch."@,
    }
}

pub open spec fn report_update_spec(rest: Seq<Answer>, report: MergeReport) -> Progress<()> {
    tell_asked(rest, Mark::Plain, update_line(report))
}

/// Says what a merge brought.
pub fn report_update(talk: &mut Talk, report: MergeReport) -> (r: Option<()>)
    ensures
        heard(r, *final(talk)) == report_update_spec(old(talk).rest(), report),
{
    let line: String = match report {
        MergeReport::UpToDate => "Already up to date.".to_owned(),
        MergeReport::Pulled(n) => {
            if n == 1 {
                "Pulled 1 commit.".to_owned()
            } else {
                text::joined3("Pulled ", &text::decimal_of(n as u128), " commits.")
            }
        },
        MergeReport::NoRemote => "No remote tracking branch.".to_owned(),
    };
    tell(talk, Mark::Plain, line)
}

/// Lines told one after the other, each behind two spaces.
pub open spec fn indented(rest: Seq<Answer>, lines: Words) -> Progress<()>
    decreases lines.len(),
{
    if lines.len() == 0 {
        Progress::Finished((), rest)
    } else {
        match tell_asked(rest, Mark::Plain, "  "@ + lines[0]) {
            Progress::Waiting(q) => Progress::Waiting(q),
            Progress::Finished(_, rest) => indented(rest, lines.drop_first()),
        }
    }
}

/// Lines that are shown ask for nothing else.
pub broadcast proof fn lemma_indented_only_tells(rest: Seq<Answer>, lines: Words)
    ensures
        #[trigger] indented(rest, lines) matches Progress::Waiting(request) ==> request is Tell,
    decreases lines.len(),
{
    if lines.len() > 0 && rest.len() > 0 {
        lemma_indented_only_tells(rest.drop_first(), lines.drop_first());
    }
}

/// That a fetch failed, with git's own words, so that what follows may be
/// stale. Nothing is said of one that did not.
pub open spec fn report_fetch_failure_spec(
    rest: Seq<Answer>,
    outcome: FetchOutcome<Seq<char>>,
) -> Progress<()> {
    match outcome {
        FetchOutcome::Fetched => Progress::Finished((), rest),
        FetchOutcome::Failed(detail) => match tell_asked(
            rest,
            Mark::Warning,
            "fetch failed; results may be stale"@,
        ) {
            Progress::Waiting(q) => Progress::Waiting(q),
            Progress::Finished(_, rest) => indented(rest, text::lines(detail)),
        },
    }
}

pub fn report_fetch_failure(talk: &mut Talk, outcome: &FetchOutcome) -> (r: Option<()>)
    ensures
        heard(r, *final(talk)) == report_fetch_failure_spec(old(talk).rest(), outcome.model()),
{
    let detail: &String = match outcome {
        FetchOutcome::Fetched => return Some(()),
        FetchOutcome::Failed(detail) => detail,
    };
    tell(talk, Mark::Warning, "fetch failed; results may be stale".to_owned())?;
    let lines: Vec<String> = text::lines_of(detail);
    let ghost all = text::lines(detail@);
    let ghost start = talk.rest();
    let mut i: usize = 0;
    proof {
        rows::lemma_take_all(all);
    }
    while i < lines.len()
        invariant
            i <= lines@.len(),
            all == models(lines@),
            report_fetch_failure_spec(old(talk).rest(), outcome.model()) == indented(start, all),
            indented(start, all) == indented(talk.rest(), all.skip(i as int)),
        decreases lines@.len() - i,
    {
        proof {
            rows::lemma_take_one_more(all, i as int);
        }
        tell(talk, Mark::Plain, text::joined("  ", &lines[i]))?;
        i += 1;
    }
    Some(())
}

/// Pops the stash and says what came of it: nothing of a clean restore, a
/// conflict to resolve, or a failure to look into.
pub open spec fn report_stash_pop_spec(rest: Seq<Answer>) -> Progress<()> {
    match git::stash_pop_spec(rest) {
        Progress::Waiting(q) => Progress::Waiting(q),
        Progress::Finished(Ok(StashPopOutcome::Clean), rest) => Progress::Finished((), rest),
        Progress::Finished(Ok(StashPopOutcome::Conflict), rest) => tell_asked(
            rest,
            Mark::Plain,
            "Conflicts detected restoring stashed changes. Resolve them, then run `git stash drop` to clean up the stash entry."@,
        ),
        Progress::Finished(Err(e), rest) => match tell_asked(
            rest,
            Mark::Plain,
            "error: "@ + e.message(),
        ) {
            Progress::Waiting(q) => Progress::Waiting(q),
            Progress::Finished(_, rest) => tell_asked(
                rest,
                Mark::Plain,
                "Stash pop failed. Inspect `git status` and `git stash list` to recover manually."@,
            ),
        },
    }
}

pub fn report_stash_pop(talk: &mut Talk) -> (r: Option<()>)
    ensures
        heard(r, *final(talk)) == report_stash_pop_spec(old(talk).rest()),
{
    match git::stash_pop(talk)? {
        Ok(StashPopOutcome::Clean) => Some(()),
        Ok(StashPopOutcome::Conflict) => tell(
            talk,
            Mark::Plain,
            "Conflicts detected restoring stashed changes. Resolve them, then run `git stash drop` to clean up the stash entry.".to_owned(),
        ),
        Err(e) => {
            tell(talk, Mark::Plain, text::joined("error: ", &e.to_string()))?;
            tell(
                talk,
                Mark::Plain,
                "Stash pop failed. Inspect `git status` and `git stash list` to recover manually.".to_owned(),
            )
        },
    }
}

/// A path as it is shown, with the home directory written as `~`.
pub open spec fn display_path_spec(rest: Seq<Answer>, path: Seq<char>) -> Progress<Seq<char>> {
    match text_asked(rest, Asked::Home) {
        Progress::Waiting(q) => Progress::Waiting(q),
        Progress::Finished(home, rest) => Progress::Finished(path::displayed(path, home), rest),
    }
}

pub fn display_path(talk: &mut Talk, path: &str) -> (r: Option<String>)
    ensures
        heard(r, *final(talk)) == display_path_spec(old(talk).rest(), path@),
{
    let home: Option<String> = ask_text(talk, Request::Home)?;
    Some(path::display(path, lent(&home)))
}

/// Whether there is a terminal to warn on and to read an answer from.
pub fn is_interactive(talk: &mut Talk) -> (r: Option<bool>)
    ensures
        heard(r, *final(talk)) == flag_asked(old(talk).rest(), Asked::Interactive),
{
    ask_flag(talk, Request::Interactive)
}

/// Hands a directory to the shell: on standard output, where a wrapper reads
/// it. Where standard output is a terminal there is no wrapper, and the user
/// is told what to run instead.
pub open spec fn handoff_cd_spec(rest: Seq<Answer>, path: Seq<char>) -> Progress<()> {
    match flag_asked(rest, Asked::StdoutIsTerminal) {
        Progress::Waiting(q) => Progress::Waiting(q),
        Progress::Finished(false, rest) => done_asked(rest, Asked::Print(path + "\n"@)),
        Progress::Finished(true, rest) => match tell_asked(
            rest,
            Mark::Warning,
            "shell integration not active — can't cd for you. Run:"@,
        ) {
            Progress::Waiting(q) => Progress::Waiting(q),
            Progress::Finished(_, rest) => match tell_asked(rest, Mark::Plain, "  cd "@ + path) {
                Progress::Waiting(q) => Progress::Waiting(q),
                Progress::Finished(_, rest) => tell_asked(
                    rest,
                    Mark::Plain,
                    "  (enable auto-cd: see README \"Shell integration\")"@,
                ),
            },
        },
    }
}

pub fn handoff_cd(talk: &mut Talk, path: &str) -> (r: Option<()>)
    ensures
        heard(r, *final(talk)) == handoff_cd_spec(old(talk).rest(), path@),
{
    if ask_flag(talk, Request::StdoutIsTerminal)? {
        tell(
            talk,
            Mark::Warning,
            "shell integration not active — can't cd for you. Run:".to_owned(),
        )?;
        tell(talk, Mark::Plain, text::joined("  cd ", path))?;
        tell(
            talk,
            Mark::Plain,
            "  (enable auto-cd: see README \"Shell integration\")".to_owned(),
        )
    } else {
        ask_done(talk, Request::Print(text::joined(path, "\n")))
    }
}

} // verus!
