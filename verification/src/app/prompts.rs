//! Questions that a key answers.
use vstd::prelude::*;
use vstd::string::*;

use crate::ask::{ask_done, ask_key, done_asked, flag_asked, key_asked, tell, tell_asked};
use crate::error::{AppResult, Error, Meant};
use crate::model::Modelled;
use crate::talk::{heard, Answer, Asked, Key, Mark, Progress, Request, Talk};
use crate::text;

use super::reports::{is_interactive, plural, plural_spec};

verus! {

/// How a yes/no question ended. Escape is told apart from a no, so that a
/// destructive caller can take it for a cancellation.
#[derive(Clone, Copy, Debug, PartialEq, Eq, Structural)]
pub enum Confirmation {
    Accepted,
    Cancelled,
    Declined,
}

impl Modelled for Confirmation {
    type Model = Confirmation;

    open spec fn model(&self) -> Confirmation {
        *self
    }
}

pub open spec fn default_answer(default_yes: bool) -> Confirmation {
    if default_yes {
        Confirmation::Accepted
    } else {
        Confirmation::Declined
    }
}

/// The answer that a key gives, if it gives one.
pub open spec fn confirms(key: Key, default_yes: bool) -> Option<Confirmation> {
    match key {
        Key::Char(c) => if c == 'y' || c == 'Y' {
            Some(Confirmation::Accepted)
        } else if c == 'n' || c == 'N' {
            Some(Confirmation::Declined)
        } else {
            None
        },
        Key::Escape => Some(Confirmation::Cancelled),
        Key::Enter => Some(default_answer(default_yes)),
        Key::Other => None,
    }
}

pub open spec fn confirmation_echo(answer: Confirmation) -> Seq<char> {
    match answer {
        Confirmation::Accepted => "y"@,
        Confirmation::Cancelled => "cancel"@,
        Confirmation::Declined => "n"@,
    }
}

/// Keys are read until one answers, and the answer is written out.
pub open spec fn confirm_keys(rest: Seq<Answer>, default_yes: bool) -> Progress<
    Meant<Confirmation>,
>
    decreases rest.len(),
{
    match key_asked(rest) {
        Progress::Waiting(q) => Progress::Waiting(q),
        Progress::Finished(Err(e), rest) => Progress::Finished(Err(Error::Io(e)), rest),
        Progress::Finished(Ok(key), rest) => match confirms(key, default_yes) {
            None => confirm_keys(rest, default_yes),
            Some(answer) => match tell_asked(rest, Mark::Plain, confirmation_echo(answer)) {
                Progress::Waiting(q) => Progress::Waiting(q),
                Progress::Finished(_, rest) => Progress::Finished(Ok(answer), rest),
            },
        },
    }
}

/// Asks a yes/no question. Where nobody can be asked, the default answers.
pub open spec fn confirm_spec(rest: Seq<Answer>, question: Seq<char>, default_yes: bool) -> Progress<
    Meant<Confirmation>,
> {
    match flag_asked(rest, Asked::Interactive) {
        Progress::Waiting(q) => Progress::Waiting(q),
        Progress::Finished(false, rest) => Progress::Finished(
            Ok(default_answer(default_yes)),
            rest,
        ),
        Progress::Finished(true, rest) => match done_asked(
            rest,
            Asked::Prompt {
                question,
                hint: if default_yes {
                    "[Y/n] / esc"@
                } else {
                    "[y/N] / esc"@
                },
            },
        ) {
            Progress::Waiting(q) => Progress::Waiting(q),
            Progress::Finished(_, rest) => confirm_keys(rest, default_yes),
        },
    }
}

/// The answer that a key gives, if it gives one.
pub fn confirmation_of(key: Key, default_yes: bool) -> (r: Option<Confirmation>)
    ensures
        r == confirms(key, default_yes),
{
    match key {
        Key::Char(c) => {
            if c == 'y' || c == 'Y' {
                Some(Confirmation::Accepted)
            } else if c == 'n' || c == 'N' {
                Some(Confirmation::Declined)
            } else {
                None
            }
        },
        Key::Escape => Some(Confirmation::Cancelled),
        Key::Enter => {
            if default_yes {
                Some(Confirmation::Accepted)
            } else {
                Some(Confirmation::Declined)
            }
        },
        Key::Other => None,
    }
}

pub fn confirm(talk: &mut Talk, question: &str, default_yes: bool) -> (r: Option<
    AppResult<Confirmation>,
>)
    ensures
        heard(r, *final(talk)) == confirm_spec(old(talk).rest(), question@, default_yes),
{
    if !is_interactive(talk)? {
        return Some(
            Ok(
                if default_yes {
                    Confirmation::Accepted
                } else {
                    Confirmation::Declined
                },
            ),
        );
    }
    let hint: &str = if default_yes {
        "[Y/n] / esc"
    } else {
        "[y/N] / esc"
    };
    ask_done(
        talk,
        Request::Prompt { question: question.to_owned(), hint: hint.to_owned() },
    )?;
    let ghost start = talk.rest();
    loop
        invariant
            confirm_spec(old(talk).rest(), question@, default_yes) == confirm_keys(
                start,
                default_yes,
            ),
            confirm_keys(start, default_yes) == confirm_keys(talk.rest(), default_yes),
        decreases talk.rest().len(),
    {
        let key: Key = match ask_key(talk)? {
            Ok(key) => key,
            Err(e) => return Some(Err(Error::Io(e))),
        };
        match confirmation_of(key, default_yes) {
            None => {},
            Some(answer) => {
                let echo: &str = match answer {
                    Confirmation::Accepted => "y",
                    Confirmation::Cancelled => "cancel",
                    Confirmation::Declined => "n",
                };
                tell(talk, Mark::Plain, echo.to_owned())?;
                return Some(Ok(answer));
            },
        }
    }
}

/// Whether to keep uncommitted work through a refresh, or to discard it.
#[derive(Clone, Copy, Debug, PartialEq, Eq, Structural)]
pub enum RefreshChoice {
    /// Rebase local commits onto the remote and restore the stashed edits.
    Keep,
    /// Reset to the remote.
    Discard,
}

impl Modelled for RefreshChoice {
    type Model = RefreshChoice;

    open spec fn model(&self) -> RefreshChoice {
        *self
    }
}

/// What a key says to keeping or discarding: nothing, a choice, or neither.
pub open spec fn refresh_choice(key: Key) -> Option<Option<RefreshChoice>> {
    match key {
        Key::Char(c) => if c == 'k' || c == 'K' {
            Some(Some(RefreshChoice::Keep))
        } else if c == 'd' || c == 'D' {
            Some(Some(RefreshChoice::Discard))
        } else if c == 'n' || c == 'N' {
            Some(None)
        } else {
            None
        },
        Key::Escape => Some(None),
        _ => None,
    }
}

pub open spec fn refresh_echo(choice: Option<RefreshChoice>) -> Seq<char> {
    match choice {
        Some(RefreshChoice::Keep) => "keep"@,
        Some(RefreshChoice::Discard) => "discard"@,
        None => "cancel"@,
    }
}

pub open spec fn refresh_keys(rest: Seq<Answer>) -> Progress<Meant<Option<RefreshChoice>>>
    decreases rest.len(),
{
    match key_asked(rest) {
        Progress::Waiting(q) => Progress::Waiting(q),
        Progress::Finished(Err(e), rest) => Progress::Finished(Err(Error::Io(e)), rest),
        Progress::Finished(Ok(key), rest) => match refresh_choice(key) {
            None => refresh_keys(rest),
            Some(choice) => match tell_asked(rest, Mark::Plain, refresh_echo(choice)) {
                Progress::Waiting(q) => Progress::Waiting(q),
                Progress::Finished(_, rest) => Progress::Finished(Ok(choice), rest),
            },
        },
    }
}

/// How the remote's work stands to the local branch.
pub open spec fn incoming_line(
    branch: Seq<char>,
    remote_ref: Seq<char>,
    ahead: u32,
    behind: u32,
) -> Seq<char> {
    if ahead > 0 {
        branch + " has diverged from "@ + remote_ref + ": "@ + text::decimal(ahead as nat)
            + " local "@ + plural_spec(ahead, "commit"@) + " not on the remote, "@ + text::decimal(
            behind as nat,
        ) + " on the remote not yet local."@
    } else {
        remote_ref + " has "@ + text::decimal(behind as nat) + " new "@ + plural_spec(
            behind,
            "commit"@,
        ) + "."@
    }
}

/// Describes the incoming work beside the uncommitted changes, and asks
/// whether to keep or to discard those. Nothing is chosen where nobody can be
/// asked: acting on its own would be unsafe.
pub open spec fn prompt_keep_discard_spec(
    rest: Seq<Answer>,
    branch: Seq<char>,
    remote_ref: Seq<char>,
    ahead: u32,
    behind: u32,
) -> Progress<Meant<Option<RefreshChoice>>> {
    match tell_asked(rest, Mark::Plain, incoming_line(branch, remote_ref, ahead, behind)) {
        Progress::Waiting(q) => Progress::Waiting(q),
        Progress::Finished(_, rest) => match tell_asked(
            rest,
            Mark::Plain,
            "Working tree has uncommitted changes."@,
        ) {
            Progress::Waiting(q) => Progress::Waiting(q),
            Progress::Finished(_, rest) => match flag_asked(rest, Asked::Interactive) {
                Progress::Waiting(q) => Progress::Waiting(q),
                Progress::Finished(false, rest) => Progress::Finished(Ok(None), rest),
                Progress::Finished(true, rest) => match done_asked(
                    rest,
                    Asked::Prompt {
                        question: "Refresh to "@ + remote_ref + "?"@,
                        hint: "[k]eep (stash & rebase) / [d]iscard (hard reset) / esc"@,
                    },
                ) {
                    Progress::Waiting(q) => Progress::Waiting(q),
                    Progress::Finished(_, rest) => refresh_keys(rest),
                },
            },
        },
    }
}

fn incoming(branch: &str, remote_ref: &str, ahead: u32, behind: u32) -> (r: String)
    ensures
        r@ == incoming_line(branch@, remote_ref@, ahead, behind),
{
    if ahead > 0 {
        let mut r: String = text::joined3(branch, " has diverged from ", remote_ref);
        r.append(": ");
        r.append(&text::decimal_of(ahead as u128));
        r.append(" local ");
        r.append(&plural(ahead, "commit"));
        r.append(" not on the remote, ");
        r.append(&text::decimal_of(behind as u128));
        r.append(" on the remote not yet local.");
        r
    } else {
        let mut r: String = text::joined3(remote_ref, " has ", &text::decimal_of(behind as u128));
        r.append(" new ");
        r.append(&plural(behind, "commit"));
        r.append(".");
        r
    }
}

/// What a key says to keeping or discarding.
pub fn refresh_choice_of(key: Key) -> (r: Option<Option<RefreshChoice>>)
    ensures
        r == refresh_choice(key),
{
    match key {
        Key::Char(c) => {
            if c == 'k' || c == 'K' {
                Some(Some(RefreshChoice::Keep))
            } else if c == 'd' || c == 'D' {
                Some(Some(RefreshChoice::Discard))
            } else if c == 'n' || c == 'N' {
                Some(None)
            } else {
                None
            }
        },
        Key::Escape => Some(None),
        _ => None,
    }
}

pub fn prompt_keep_discard(
    talk: &mut Talk,
    branch: &str,
    remote_ref: &str,
    ahead: u32,
    behind: u32,
) -> (r: Option<AppResult<Option<RefreshChoice>>>)
    ensures
        heard(r, *final(talk)) == prompt_keep_discard_spec(
            old(talk).rest(),
            branch@,
            remote_ref@,
            ahead,
            behind,
        ),
{
    tell(talk, Mark::Plain, incoming(branch, remote_ref, ahead, behind))?;
    tell(talk, Mark::Plain, "Working tree has uncommitted changes.".to_owned())?;
    if !is_interactive(talk)? {
        return Some(Ok(None));
    }
    ask_done(
        talk,
        Request::Prompt {
            question: text::joined3("Refresh to ", remote_ref, "?"),
            hint: "[k]eep (stash & rebase) / [d]iscard (hard reset) / esc".to_owned(),
        },
    )?;
    let ghost start = talk.rest();
    loop
        invariant
            prompt_keep_discard_spec(old(talk).rest(), branch@, remote_ref@, ahead, behind)
                == refresh_keys(start),
            refresh_keys(start) == refresh_keys(talk.rest()),
        decreases talk.rest().len(),
    {
        let key: Key = match ask_key(talk)? {
            Ok(key) => key,
            Err(e) => return Some(Err(Error::Io(e))),
        };
        match refresh_choice_of(key) {
            None => {},
            Some(choice) => {
                let echo: &str = match choice {
                    Some(RefreshChoice::Keep) => "keep",
                    Some(RefreshChoice::Discard) => "discard",
                    None => "cancel",
                };
                tell(talk, Mark::Plain, echo.to_owned())?;
                return Some(Ok(choice));
            },
        }
    }
}

/// Where nobody can be asked, a question changes nothing by itself: the
/// default answers a yes/no question, and neither keeping nor discarding is
/// chosen.
pub proof fn nobody_to_ask_decides_nothing(
    rest: Seq<Answer>,
    question: Seq<char>,
    default_yes: bool,
    branch: Seq<char>,
    remote_ref: Seq<char>,
    ahead: u32,
    behind: u32,
)
    ensures
        rest.len() > 0 && rest[0] == Answer::Flag(false) ==> confirm_spec(
            rest,
            question,
            default_yes,
        ) == Progress::<Meant<Confirmation>>::Finished(
            Ok(default_answer(default_yes)),
            rest.drop_first(),
        ),
        rest.len() > 2 && rest[2] == Answer::Flag(false) ==> prompt_keep_discard_spec(
            rest,
            branch,
            remote_ref,
            ahead,
            behind,
        ) == Progress::<Meant<Option<RefreshChoice>>>::Finished(
            Ok(None),
            rest.drop_first().drop_first().drop_first(),
        ),
{
}

} // verus!
