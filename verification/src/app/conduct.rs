//! What the commands may ask for, and after what.
//!
//! The laws below speak of requests as the world sees them: git's own words,
//! the directory they run in, the keys that were pressed and the rows that
//! were ticked.
use vstd::prelude::*;
use vstd::string::*;

use crate::error::Meant;
use crate::git::worktrees::{holding, Tree};
use crate::grammar::Words;
use crate::rows::first_of;
use crate::talk::{Answer, Asked, Key, Progress};

pub mod choosing;
pub mod details;
pub mod findings;
pub mod going;
pub mod guards;
pub mod judging;
pub mod links;
pub mod outcomes;
pub mod pairs;
pub mod placing;
pub mod refresh;
pub mod removing;
pub mod steps;
pub mod sweeping;
pub mod updating;

verus! {

/// Whether the next request has git run these words in `dir`.
pub open spec fn runs_words<T>(
    progress: Progress<T>,
    dir: Option<Seq<char>>,
    words: Words,
) -> bool {
    progress matches Progress::Waiting(Asked::Git { dir: at, args, .. }) && at == dir && args
        == words
}

/// The command that git is given, behind an option that sets a variable.
pub open spec fn command_of(args: Words) -> Seq<char> {
    if args.len() == 0 {
        Seq::empty()
    } else if args[0] == "-c"@ && args.len() > 2 {
        args[2]
    } else {
        args[0]
    }
}

/// Whether the next request has git run a command of this name.
pub open spec fn runs_command<T>(progress: Progress<T>, command: Seq<char>) -> bool {
    progress matches Progress::Waiting(Asked::Git { args, .. }) && command_of(args) == command
}

/// Whether the end is a failure.
pub open spec fn fails<T>(progress: Progress<Meant<T>>) -> bool {
    progress matches Progress::Finished(Err(_), _)
}

/// The words that git is to be run with, and none where it is not.
pub open spec fn git_args(request: Asked) -> Words {
    match request {
        Asked::Git { args, .. } => args,
        _ => Seq::empty(),
    }
}

/// The directory that git is to be run in, if one is given.
pub open spec fn git_dir(request: Asked) -> Option<Seq<char>> {
    match request {
        Asked::Git { dir, .. } => dir,
        _ => None,
    }
}

/// A process that ended well.
pub open spec fn went_well(answer: Answer) -> bool {
    answer matches Answer::Ran(Ok(output)) && output.code == Some(0i32)
}

/// A process that ran and failed.
pub open spec fn went_wrong(answer: Answer) -> bool {
    answer matches Answer::Ran(Ok(output)) && output.code != Some(0i32)
}

/// A key pressed.
pub open spec fn pressed(key: Key) -> Answer {
    Answer::Pressed(Ok(key))
}

/// A letter pressed, in either case.
pub open spec fn letter(answer: Answer, small: char, large: char) -> bool {
    answer == pressed(Key::Char(small)) || answer == pressed(Key::Char(large))
}

/// Whether a letter was pressed at some time.
pub open spec fn was_pressed(answers: Seq<Answer>, small: char, large: char) -> bool {
    exists|i: int| 0 <= i < answers.len() && letter(#[trigger] answers[i], small, large)
}

/// Whether some replies are what is left of others.
pub open spec fn left_of(left: Seq<Answer>, answers: Seq<Answer>) -> bool {
    left.len() <= answers.len() && left == answers.skip(answers.len() - left.len())
}

pub broadcast proof fn lemma_left_after_one(answers: Seq<Answer>)
    requires
        answers.len() > 0,
    ensures
        left_of(#[trigger] answers.drop_first(), answers),
{
    assert(answers.drop_first() =~= answers.skip(1));
}

pub broadcast proof fn lemma_left_of_left(a: Seq<Answer>, b: Seq<Answer>, c: Seq<Answer>)
    requires
        #[trigger] left_of(a, b),
        #[trigger] left_of(b, c),
    ensures
        left_of(a, c),
{
    assert(a =~= c.skip(c.len() - a.len()));
}

pub broadcast proof fn lemma_left_of_itself(a: Seq<Answer>)
    ensures
        #[trigger] left_of(a, a),
{
    assert(a =~= a.skip(0));
}

pub broadcast proof fn lemma_pressed_in_what_is_left(
    left: Seq<Answer>,
    answers: Seq<Answer>,
    small: char,
    large: char,
)
    requires
        #[trigger] left_of(left, answers),
        #[trigger] was_pressed(left, small, large),
    ensures
        was_pressed(answers, small, large),
{
    let i = choose|i: int| 0 <= i < left.len() && letter(#[trigger] left[i], small, large);
    assert(answers[answers.len() - left.len() + i] == left[i]);
}

/// The worktree found to hold a branch does hold it, and one is found wherever
/// one does.
pub proof fn lemma_first_holder(trees: Seq<Tree>, branch: Seq<char>)
    ensures
        first_of(trees, holding(branch)) matches Some(tree) ==> tree.branch == Some(branch)
            && exists|i: int| 0 <= i < trees.len() && #[trigger] trees[i] == tree,
        first_of(trees, holding(branch)) is None ==> forall|i: int|
            0 <= i < trees.len() ==> (#[trigger] trees[i]).branch != Some(branch),
    decreases trees.len(),
{
    if trees.len() > 0 {
        let others = trees.drop_first();
        lemma_first_holder(others, branch);
        if trees[0].branch == Some(branch) {
            assert(trees[0] == first_of(trees, holding(branch))->0);
        } else {
            match first_of(others, holding(branch)) {
                Some(tree) => {
                    let i = choose|i: int| 0 <= i < others.len() && #[trigger] others[i] == tree;
                    assert(trees[i + 1] == tree);
                },
                None => {
                    assert forall|i: int| 0 <= i < trees.len() implies (#[trigger] trees[i]).branch
                        != Some(branch) by {
                        if i > 0 {
                            assert(trees[i] == others[i - 1]);
                        }
                    }
                },
            }
        }
    }
}

/// How the commands are spelled, as far as it tells them apart.
pub proof fn lemma_spelled()
    ensures
        "-c"@.len() == 2,
        "show"@.len() == 4 && "show"@[0] == 's',
        "push"@.len() == 4 && "push"@[0] == 'p',
        "diff"@.len() == 4 && "diff"@[0] == 'd',
        "merge"@.len() == 5 && "merge"@[0] == 'm',
        "stash"@.len() == 5 && "stash"@[0] == 's',
        "reset"@.len() == 5 && "reset"@[0] == 'r',
        "fetch"@.len() == 5 && "fetch"@[0] == 'f',
        "remote"@.len() == 6 && "remote"@[0] == 'r' && "remote"@[2] == 'm',
        "rebase"@.len() == 6 && "rebase"@[0] == 'r' && "rebase"@[2] == 'b',
        "branch"@.len() == 6 && "branch"@[0] == 'b',
        "config"@.len() == 6 && "config"@[0] == 'c' && "config"@[2] == 'n',
        "cherry"@.len() == 6 && "cherry"@[0] == 'c' && "cherry"@[2] == 'e',
        "status"@.len() == 6 && "status"@[0] == 's',
        "worktree"@.len() == 8 && "worktree"@[0] == 'w',
        "rev-list"@.len() == 8 && "rev-list"@[0] == 'r',
        "patch-id"@.len() == 8 && "patch-id"@[0] == 'p',
        "checkout"@.len() == 8 && "checkout"@[0] == 'c',
        "submodule"@.len() == 9 && "submodule"@[0] == 's',
        "rev-parse"@.len() == 9 && "rev-parse"@[0] == 'r',
        "ls-remote"@.len() == 9 && "ls-remote"@[0] == 'l',
        "update-ref"@.len() == 10 && "update-ref"@[0] == 'u',
        "merge-base"@.len() == 10 && "merge-base"@[0] == 'm',
        "commit-tree"@.len() == 11,
        "symbolic-ref"@.len() == 12 && "symbolic-ref"@[0] == 's',
        "for-each-ref"@.len() == 12 && "for-each-ref"@[0] == 'f',
        "--literal-pathspecs"@.len() == 19,
        "add"@.len() == 3,
        "list"@.len() == 4,
        "prune"@.len() == 5,
        "remove"@.len() == 6,
        "-d"@.len() == 2 && "-d"@[1] == 'd',
        "-D"@.len() == 2 && "-D"@[1] == 'D',
        "pop"@.len() == 3,
        "--abort"@.len() == 7,
        "get-url"@.len() == 7,
        "--null"@.len() == 6,
        "--get"@.len() == 5,
{
    reveal_strlit("-c");
    reveal_strlit("show");
    reveal_strlit("push");
    reveal_strlit("diff");
    reveal_strlit("merge");
    reveal_strlit("stash");
    reveal_strlit("reset");
    reveal_strlit("fetch");
    reveal_strlit("remote");
    reveal_strlit("rebase");
    reveal_strlit("branch");
    reveal_strlit("config");
    reveal_strlit("cherry");
    reveal_strlit("status");
    reveal_strlit("worktree");
    reveal_strlit("rev-list");
    reveal_strlit("patch-id");
    reveal_strlit("checkout");
    reveal_strlit("submodule");
    reveal_strlit("rev-parse");
    reveal_strlit("ls-remote");
    reveal_strlit("update-ref");
    reveal_strlit("merge-base");
    reveal_strlit("commit-tree");
    reveal_strlit("symbolic-ref");
    reveal_strlit("for-each-ref");
    reveal_strlit("--literal-pathspecs");
    reveal_strlit("add");
    reveal_strlit("list");
    reveal_strlit("prune");
    reveal_strlit("remove");
    reveal_strlit("-d");
    reveal_strlit("-D");
    reveal_strlit("pop");
    reveal_strlit("--abort");
    reveal_strlit("get-url");
    reveal_strlit("--null");
    reveal_strlit("--get");
}

} // verus!
