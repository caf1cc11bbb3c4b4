//! Telling the user's own commands of worktrees.
//!
//! A hook is told what happened and is never asked: whatever comes of it, the
//! command goes on as it would have.
use vstd::prelude::*;
use vstd::string::*;

use crate::ask::{ask_run, run_asked, tell, tell_asked, Ran};
use crate::error::IoError;
use crate::git;
use crate::model::{borrowed, models, Modelled};
use crate::talk::{heard, Answer, Asked, Mark, Output, Progress, Request, Talk};
use crate::text;

use super::prefetch::{ask_environment, environment_asked, Variables};

verus! {

/// What became of a worktree.
#[derive(Clone, Copy, Debug, PartialEq, Eq, Structural)]
pub enum HookEvent {
    Created,
    Removed,
}

impl HookEvent {
    pub open spec fn name_spec(self) -> Seq<char> {
        match self {
            HookEvent::Created => "created"@,
            HookEvent::Removed => "removed"@,
        }
    }

    /// The name that the event is configured under.
    pub fn name(self) -> (r: &'static str)
        ensures
            r@ == self.name_spec(),
    {
        match self {
            HookEvent::Created => "created",
            HookEvent::Removed => "removed",
        }
    }
}

/// Whether hooks are turned off for a run: any value that is not empty does.
pub open spec fn silenced(env: Variables) -> bool {
    exists|i: int|
        0 <= i < env.len() && (#[trigger] env[i]).0 == "PERCH_NO_HOOKS"@ && env[i].1.len() > 0
}

pub fn is_silenced(env: &[(String, String)]) -> (r: bool)
    ensures
        r == silenced(models(env@)),
{
    let ghost all = models(env@);
    let mut i: usize = 0;
    while i < env.len()
        invariant
            i <= env@.len(),
            all == models(env@),
            forall|j: int|
                0 <= j < i ==> !((#[trigger] all[j]).0 == "PERCH_NO_HOOKS"@ && all[j].1.len() > 0),
        decreases env@.len() - i,
    {
        assert(all[i as int] == env@[i as int].model());
        if text::same(&env[i].0, "PERCH_NO_HOOKS") && !env[i].1.as_str().is_empty() {
            return true;
        }
        i += 1;
    }
    false
}

/// What a hook is told.
pub open spec fn payload(
    event: HookEvent,
    worktree: Seq<char>,
    branch: Option<Seq<char>>,
    main: Seq<char>,
) -> Variables {
    Seq::empty().push(
        (
            "PERCH_BRANCH"@,
            match branch {
                Some(branch) => branch,
                None => Seq::empty(),
            },
        ),
    ).push(("PERCH_EVENT"@, event.name_spec())).push(("PERCH_MAIN"@, main)).push(
        ("PERCH_WORKTREE"@, worktree),
    )
}

pub fn payload_of(event: HookEvent, worktree: &str, branch: Option<&str>, main: &str) -> (r: Vec<
    (String, String),
>)
    ensures
        models(r@) == payload(event, worktree@, borrowed(branch), main@),
{
    let held: String = match branch {
        Some(branch) => branch.to_owned(),
        None => {
            let none: String = String::new();
            assert(none@ =~= Seq::empty());
            none
        },
    };
    let mut r: Vec<(String, String)> = Vec::new();
    r.push(("PERCH_BRANCH".to_owned(), held));
    r.push(("PERCH_EVENT".to_owned(), event.name().to_owned()));
    r.push(("PERCH_MAIN".to_owned(), main.to_owned()));
    r.push(("PERCH_WORKTREE".to_owned(), worktree.to_owned()));
    assert(models(r@) =~= payload(event, worktree@, borrowed(branch), main@));
    r
}

/// What is wrong with how a hook ended.
pub open spec fn complaint(event: HookEvent, ran: Ran) -> Option<Seq<char>> {
    match ran {
        Err(e) => Some(event.name_spec() + " hook could not be run: "@ + e.message),
        Ok(output) => match output.code {
            None => Some(event.name_spec() + " hook was ended by a signal"@),
            Some(code) => if code == 0 {
                None
            } else if code > 0 {
                Some(event.name_spec() + " hook exited "@ + text::decimal(code as nat))
            } else {
                Some(event.name_spec() + " hook failed"@)
            },
        },
    }
}

pub fn complain(event: HookEvent, ran: &Result<Output, IoError>) -> (r: Option<String>)
    ensures
        r.model() == complaint(event, ran.model()),
{
    match ran {
        Err(e) => Some(text::joined3(event.name(), " hook could not be run: ", &e.message)),
        Ok(output) => match output.code {
            None => Some(text::joined(event.name(), " hook was ended by a signal")),
            Some(code) => {
                if code == 0 {
                    None
                } else if code > 0 {
                    Some(
                        text::joined3(
                            event.name(),
                            " hook exited ",
                            &text::decimal_of(code as u128),
                        ),
                    )
                } else {
                    Some(text::joined(event.name(), " hook failed"))
                }
            },
        },
    }
}

/// Runs the command configured for an event, if there is one and hooks are not
/// turned off. One that fails is told of, and otherwise ignored.
pub open spec fn fire_spec(
    rest: Seq<Answer>,
    event: HookEvent,
    worktree: Seq<char>,
    branch: Option<Seq<char>>,
    main: Seq<char>,
) -> Progress<()> {
    match environment_asked(rest) {
        Progress::Waiting(q) => Progress::Waiting(q),
        Progress::Finished(env, rest) => if silenced(env) {
            Progress::Finished((), rest)
        } else {
            match git::hook_command_spec(rest, event.name_spec()) {
                Progress::Waiting(q) => Progress::Waiting(q),
                Progress::Finished(None, rest) => Progress::Finished((), rest),
                Progress::Finished(Some(command), rest) => match run_asked(
                    rest,
                    Asked::Shell {
                        dir: main,
                        command,
                        env: payload(event, worktree, branch, main),
                    },
                ) {
                    Progress::Waiting(q) => Progress::Waiting(q),
                    Progress::Finished(ran, rest) => match complaint(event, ran) {
                        None => Progress::Finished((), rest),
                        Some(line) => tell_asked(rest, Mark::Warning, line),
                    },
                },
            }
        },
    }
}

pub fn fire(
    talk: &mut Talk,
    event: HookEvent,
    worktree: &str,
    branch: Option<&str>,
    main: &str,
) -> (r: Option<()>)
    ensures
        heard(r, *final(talk)) == fire_spec(
            old(talk).rest(),
            event,
            worktree@,
            borrowed(branch),
            main@,
        ),
{
    let env: Vec<(String, String)> = ask_environment(talk)?;
    if is_silenced(&env) {
        return Some(());
    }
    let command: String = match git::hook_command(talk, event.name())? {
        Some(command) => command,
        None => return Some(()),
    };
    let ran: Result<Output, IoError> = ask_run(
        talk,
        Request::Shell {
            dir: main.to_owned(),
            command,
            env: payload_of(event, worktree, branch, main),
        },
    )?;
    match complain(event, &ran) {
        Some(line) => tell(talk, Mark::Warning, line),
        None => Some(()),
    }
}

/// Hooks that are turned off are not even looked up.
pub proof fn a_silenced_hook_is_not_run(
    rest: Seq<Answer>,
    event: HookEvent,
    worktree: Seq<char>,
    branch: Option<Seq<char>>,
    main: Seq<char>,
    env: Variables,
)
    requires
        rest.len() > 0,
        rest[0] == Answer::Variables(env),
        silenced(env),
    ensures
        fire_spec(rest, event, worktree, branch, main) == Progress::Finished(
            (),
            rest.drop_first(),
        ),
{
}

} // verus!
