//! What can go wrong, and how it reads.
use vstd::prelude::*;
use vstd::string::*;

use crate::app::quoting;
use crate::grammar::GrammarError;
use crate::model::Modelled;
use crate::text::{self, ParseIntError};

verus! {

/// The failures of the operating system that decisions depend on.
#[derive(Clone, Copy, Debug, PartialEq, Eq, Structural)]
pub enum IoKind {
    Interrupted,
    NotFound,
    WouldBlock,
    Other,
}

/// A failure of the operating system.
#[derive(Debug, PartialEq, Eq)]
pub struct IoError<S = String> {
    pub kind: IoKind,
    pub message: S,
}

impl Modelled for IoError {
    type Model = IoError<Seq<char>>;

    open spec fn model(&self) -> IoError<Seq<char>> {
        IoError { kind: self.kind, message: self.message@ }
    }
}

impl Clone for IoError {
    fn clone(&self) -> (r: Self)
        ensures
            r.model() == self.model(),
    {
        IoError { kind: self.kind, message: self.message.clone() }
    }
}

pub type AppResult<T> = Result<T, Error>;

/// What the library's results mean.
pub type Meant<T> = Result<T, Error<Seq<char>>>;

#[derive(Debug, PartialEq, Eq)]
pub enum Error<S = String> {
    Git { command: S, message: S },
    Reclamation(S),
    Io(IoError<S>),
    Grammar(GrammarError<S>),
    Detached,
    Diverged,
    /// `br` was asked to check out a branch that another worktree holds. The
    /// message names the path and the verb that does reach it.
    HeldByWorktree { branch: S, path: S },
    HeldForRemoval { branch: S, path: S, hint: S },
    LocalBranchNotFound { branch: S },
    NoBranches,
    NoRemovableUpstream { branch: S, reason: S },
    ParseInt(ParseIntError),
    RemovalFailed,
    /// A destructive action was declined because its risk could not be shown:
    /// there was no terminal to warn on or ask in, and no force was given.
    Unconfirmed(S),
    /// A branch picked from a row went away between the list being drawn and
    /// the selection being resolved.
    Vanished { branch: S },
}

impl Modelled for Error {
    type Model = Error<Seq<char>>;

    open spec fn model(&self) -> Error<Seq<char>> {
        match self {
            Error::Git { command, message } => Error::Git { command: command@, message: message@ },
            Error::Reclamation(m) => Error::Reclamation(m@),
            Error::Io(e) => Error::Io(e.model()),
            Error::Grammar(e) => Error::Grammar(e.model()),
            Error::Detached => Error::Detached,
            Error::Diverged => Error::Diverged,
            Error::HeldByWorktree { branch, path } => Error::HeldByWorktree {
                branch: branch@,
                path: path@,
            },
            Error::HeldForRemoval { branch, path, hint } => Error::HeldForRemoval {
                branch: branch@,
                path: path@,
                hint: hint@,
            },
            Error::LocalBranchNotFound { branch } => Error::LocalBranchNotFound { branch: branch@ },
            Error::NoBranches => Error::NoBranches,
            Error::NoRemovableUpstream { branch, reason } => Error::NoRemovableUpstream {
                branch: branch@,
                reason: reason@,
            },
            Error::ParseInt(e) => Error::ParseInt(*e),
            Error::RemovalFailed => Error::RemovalFailed,
            Error::Unconfirmed(m) => Error::Unconfirmed(m@),
            Error::Vanished { branch } => Error::Vanished { branch: branch@ },
        }
    }
}

impl Clone for Error {
    fn clone(&self) -> (r: Self)
        ensures
            r.model() == self.model(),
    {
        match self {
            Error::Git { command, message } => Error::Git {
                command: command.clone(),
                message: message.clone(),
            },
            Error::Reclamation(m) => Error::Reclamation(m.clone()),
            Error::Io(e) => Error::Io(e.clone()),
            Error::Grammar(e) => Error::Grammar(e.clone()),
            Error::Detached => Error::Detached,
            Error::Diverged => Error::Diverged,
            Error::HeldByWorktree { branch, path } => Error::HeldByWorktree {
                branch: branch.clone(),
                path: path.clone(),
            },
            Error::HeldForRemoval { branch, path, hint } => Error::HeldForRemoval {
                branch: branch.clone(),
                path: path.clone(),
                hint: hint.clone(),
            },
            Error::LocalBranchNotFound { branch } => Error::LocalBranchNotFound {
                branch: branch.clone(),
            },
            Error::NoBranches => Error::NoBranches,
            Error::NoRemovableUpstream { branch, reason } => Error::NoRemovableUpstream {
                branch: branch.clone(),
                reason: reason.clone(),
            },
            Error::ParseInt(e) => Error::ParseInt(*e),
            Error::RemovalFailed => Error::RemovalFailed,
            Error::Unconfirmed(m) => Error::Unconfirmed(m.clone()),
            Error::Vanished { branch } => Error::Vanished { branch: branch.clone() },
        }
    }
}

/// How a number that cannot be read is spoken of.
pub open spec fn number_fault(e: ParseIntError) -> Seq<char> {
    match e {
        ParseIntError::Empty => "cannot parse integer from empty string"@,
        ParseIntError::InvalidDigit => "invalid digit found in string"@,
        ParseIntError::PosOverflow => "number too large to fit in target type"@,
    }
}

impl Error<Seq<char>> {
    /// How the failure reads.
    pub open spec fn message(self) -> Seq<char> {
        match self {
            Error::Git { command, message } => "git "@ + command + ": "@ + message,
            Error::Reclamation(m) => "worktree reclamation: "@ + m,
            Error::Io(e) => e.message,
            Error::Grammar(e) => e.0.message(),
            Error::Detached => "not on a branch (detached HEAD); nothing to refresh"@,
            Error::Diverged => "branch diverged from remote"@,
            Error::HeldByWorktree { branch, path } => branch + " is checked out at "@ + path
                + "; run `perch "@ + quoting::go_there(branch) + "` to go there"@,
            Error::HeldForRemoval { branch, path, hint } => branch + " is checked out at "@ + path
                + "; "@ + hint,
            Error::LocalBranchNotFound { branch } => "branch '"@ + branch
                + "' does not exist locally"@,
            Error::NoBranches => "no branches found"@,
            Error::NoRemovableUpstream { branch, reason } => branch
                + " has no removable upstream: "@ + reason,
            Error::ParseInt(e) => "invalid number from git: "@ + number_fault(e),
            Error::RemovalFailed => "one or more requested removals failed"@,
            Error::Unconfirmed(m) => m,
            Error::Vanished { branch } => branch
                + " no longer exists; it was deleted after the list was drawn"@,
        }
    }

    /// The user interrupted a prompt.
    pub open spec fn interrupted(self) -> bool {
        self matches Error::Io(io) && io.kind == IoKind::Interrupted
    }
}

impl Error {
    /// True when this is an interrupt raised by an interactive prompt. Callers
    /// that otherwise swallow a prompt's errors must still honour it.
    pub fn is_interrupt(&self) -> (r: bool)
        ensures
            r == self.model().interrupted(),
    {
        match self {
            Error::Io(io) => match io.kind {
                IoKind::Interrupted => true,
                _ => false,
            },
            _ => false,
        }
    }

    /// The failure in words.
    pub fn to_string(&self) -> (r: String)
        ensures
            r@ == self.model().message(),
    {
        match self {
            Error::Git { command, message } => {
                let mut r: String = text::joined3("git ", command, ": ");
                r.append(message);
                r
            },
            Error::Reclamation(m) => text::joined("worktree reclamation: ", m),
            Error::Io(e) => e.message.clone(),
            Error::Grammar(e) => e.to_string(),
            Error::Detached => "not on a branch (detached HEAD); nothing to refresh".to_owned(),
            Error::Diverged => "branch diverged from remote".to_owned(),
            Error::HeldByWorktree { branch, path } => {
                let mut r: String = text::joined3(branch, " is checked out at ", path);
                r.append("; run `perch ");
                r.append(&quoting::go_there_argument(branch));
                r.append("` to go there");
                r
            },
            Error::HeldForRemoval { branch, path, hint } => {
                let mut r: String = text::joined3(branch, " is checked out at ", path);
                r.append("; ");
                r.append(hint);
                r
            },
            Error::LocalBranchNotFound { branch } => text::joined3(
                "branch '",
                branch,
                "' does not exist locally",
            ),
            Error::NoBranches => "no branches found".to_owned(),
            Error::NoRemovableUpstream { branch, reason } => text::joined3(
                branch,
                " has no removable upstream: ",
                reason,
            ),
            Error::ParseInt(e) => text::joined(
                "invalid number from git: ",
                match e {
                    ParseIntError::Empty => "cannot parse integer from empty string",
                    ParseIntError::InvalidDigit => "invalid digit found in string",
                    ParseIntError::PosOverflow => "number too large to fit in target type",
                },
            ),
            Error::RemovalFailed => "one or more requested removals failed".to_owned(),
            Error::Unconfirmed(m) => m.clone(),
            Error::Vanished { branch } => text::joined(
                branch,
                " no longer exists; it was deleted after the list was drawn",
            ),
        }
    }
}

} // verus!
