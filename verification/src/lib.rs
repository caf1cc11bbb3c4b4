//! Walking between the branches and worktrees of a git repository.
//!
//! The library decides; it does nothing itself. Every function that needs git,
//! a terminal or the file system says what it wants through a [`talk::Talk`]
//! and is told what came of it.
use vstd::prelude::*;

use crate::app::run_invocation_spec;
use crate::error::Meant;
use crate::grammar::parse_spec;
use crate::model::models;
use crate::talk::{heard, Answer, Progress, Talk};

pub mod app;
pub mod ask;
pub mod error;
pub mod git;
pub mod grammar;
pub mod model;
pub mod path;
pub mod rows;
pub mod table;
pub mod talk;
pub mod text;

pub use error::{AppResult, Error};
pub use grammar::GrammarError;

verus! {

/// A command line, from its words to its end. One that the grammar refuses is
/// refused before anything is asked of the world.
pub open spec fn run_spec(rest: Seq<Answer>, args: Seq<Seq<char>>) -> Progress<Meant<()>> {
    match parse_spec(args) {
        Err(e) => Progress::Finished(Err(Error::Grammar(e)), rest),
        Ok(invocation) => run_invocation_spec(rest, invocation),
    }
}

/// Runs a command line, without the program's own name.
pub fn run(talk: &mut Talk, args: &[String]) -> (r: Option<AppResult<()>>)
    ensures
        heard(r, *final(talk)) == run_spec(old(talk).rest(), models(args@)),
{
    match grammar::parse(args) {
        Err(e) => Some(Err(Error::Grammar(e))),
        Ok(invocation) => app::run_invocation(talk, invocation),
    }
}

} // verus!
