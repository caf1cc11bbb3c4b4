//! The signs that stand for how things are, the same in every list.
use vstd::prelude::*;
use vstd::string::*;

use crate::model::Modelled;
use crate::text;

verus! {

#[derive(Clone, Copy, Debug, PartialEq, Eq, Structural)]
pub enum Sign {
    /// Uncommitted changes.
    Dirty,
    /// Commits that are missing elsewhere, so many of them.
    Ahead(u32),
    /// Commits that are missing here, so many of them.
    Behind(u32),
}

impl Modelled for Sign {
    type Model = Sign;

    open spec fn model(&self) -> Sign {
        *self
    }
}

impl Sign {
    pub open spec fn text_spec(self) -> Seq<char> {
        match self {
            Sign::Dirty => "●"@,
            Sign::Ahead(n) => "↑"@ + text::decimal(n as nat),
            Sign::Behind(n) => "↓"@ + text::decimal(n as nat),
        }
    }

    /// How the sign is written.
    pub fn text(self) -> (r: String)
        ensures
            r@ == self.text_spec(),
    {
        match self {
            Sign::Dirty => "●".to_owned(),
            Sign::Ahead(n) => text::joined("↑", &text::decimal_of(n as u128)),
            Sign::Behind(n) => text::joined("↓", &text::decimal_of(n as u128)),
        }
    }
}

/// The signs of a worktree: that it is dirty, and how far its branch is ahead
/// of its upstream and behind it, each where it is.
pub open spec fn status_signs_spec(dirty: bool, ahead: u32, behind: u32) -> Seq<Sign> {
    let first = if dirty {
        Seq::empty().push(Sign::Dirty)
    } else {
        Seq::empty()
    };
    let second = if ahead > 0 {
        first.push(Sign::Ahead(ahead))
    } else {
        first
    };
    if behind > 0 {
        second.push(Sign::Behind(behind))
    } else {
        second
    }
}

pub fn status_signs(dirty: bool, ahead: u32, behind: u32) -> (r: Vec<Sign>)
    ensures
        r@ == status_signs_spec(dirty, ahead, behind),
{
    let mut r: Vec<Sign> = Vec::new();
    if dirty {
        r.push(Sign::Dirty);
    }
    if ahead > 0 {
        r.push(Sign::Ahead(ahead));
    }
    if behind > 0 {
        r.push(Sign::Behind(behind));
    }
    assert(r@ =~= status_signs_spec(dirty, ahead, behind));
    r
}

} // verus!
