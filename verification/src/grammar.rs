//! What the words of a command line ask for.
//!
//! Each word names a verb, a subverb, an option, a worktree directory name or
//! a branch, by its position. A `--` ends the reading of verbs and options, so
//! that any branch can be named. The same facts about command words decide how
//! a line is read, which candidates a completion drops and which branch names
//! have to be escaped.
use vstd::prelude::*;
use vstd::string::*;

use crate::model::{borrowed, models, Modelled};
use crate::text;

verus! {

/// One command line, understood.
#[derive(Clone, Debug, PartialEq, Eq)]
pub enum Invocation<S = String> {
    Complete(Completion),
    Help(HelpPage),
    ListWorktrees,
    Navigate(Navigation<S>),
    RemoveBranches(BranchRemoval<S>),
    RemoveWorktrees(WorktreeRemoval<S>),
    Version,
}

/// Which branch to go to, and how.
#[derive(Clone, Debug, PartialEq, Eq)]
pub enum Navigation<S = String> {
    Go(Option<S>),
    Here(Option<S>),
    Worktree { worktree_name: Option<S>, target: Option<S>, shell_handoff: ShellHandoff },
}

#[derive(Clone, Copy, Debug, PartialEq, Eq, Structural)]
pub enum Verb {
    Go,
    Here,
    Worktree,
}

/// Whether the shell is handed the directory to change to.
#[derive(Clone, Copy, Debug, PartialEq, Eq, Structural)]
pub enum ShellHandoff {
    Emit,
    Suppress,
}

#[derive(Clone, Debug, PartialEq, Eq)]
pub struct BranchRemoval<S = String> {
    pub target: Option<S>,
    pub force: bool,
    pub upstream: bool,
}

#[derive(Clone, Debug, PartialEq, Eq)]
pub struct WorktreeRemoval<S = String> {
    pub target: Option<S>,
    pub force: bool,
}

#[derive(Clone, Copy, Debug, PartialEq, Eq, Structural)]
pub enum HelpPage {
    Branch,
    Main,
    Worktree,
}

/// What a completion draws its candidates from.
#[derive(Clone, Copy, Debug, PartialEq, Eq, Structural)]
pub enum CompletionSource {
    LocalBranches,
    ReachableBranches,
    Worktrees,
}

/// Where in a command line a completed word stands.
#[derive(Clone, Copy, Debug, PartialEq, Eq, Structural)]
pub enum Position {
    Bare,
    Branch,
    Escaped,
    Removal,
    Worktree,
}

#[derive(Clone, Copy, Debug, PartialEq, Eq, Structural)]
pub struct Completion {
    pub source: CompletionSource,
    pub position: Position,
}

/// Why a command line was refused.
#[derive(Debug, PartialEq, Eq)]
pub struct GrammarError<S = String>(pub GrammarErrorKind<S>);

#[derive(Debug, PartialEq, Eq)]
pub enum GrammarErrorKind<S = String> {
    BranchRemoval(S),
    NoSwitchWithSubverb { subverb: S },
    Retired { word: S, keep: S },
    WorktreeRemoval(S),
    WorktreeNavigation(S),
}

#[derive(Clone, Copy, Debug, PartialEq, Eq, Structural)]
pub enum WorktreeSubverb {
    List,
    Ls,
    Remove,
    Rm,
}

impl Modelled for Navigation {
    type Model = Navigation<Seq<char>>;

    open spec fn model(&self) -> Navigation<Seq<char>> {
        match self {
            Navigation::Go(target) => Navigation::Go(target.model()),
            Navigation::Here(target) => Navigation::Here(target.model()),
            Navigation::Worktree { worktree_name, target, shell_handoff } => Navigation::Worktree {
                worktree_name: worktree_name.model(),
                target: target.model(),
                shell_handoff: *shell_handoff,
            },
        }
    }
}

impl Modelled for BranchRemoval {
    type Model = BranchRemoval<Seq<char>>;

    open spec fn model(&self) -> BranchRemoval<Seq<char>> {
        BranchRemoval { target: self.target.model(), force: self.force, upstream: self.upstream }
    }
}

impl Modelled for WorktreeRemoval {
    type Model = WorktreeRemoval<Seq<char>>;

    open spec fn model(&self) -> WorktreeRemoval<Seq<char>> {
        WorktreeRemoval { target: self.target.model(), force: self.force }
    }
}

impl Modelled for Invocation {
    type Model = Invocation<Seq<char>>;

    open spec fn model(&self) -> Invocation<Seq<char>> {
        match self {
            Invocation::Complete(completion) => Invocation::Complete(*completion),
            Invocation::Help(page) => Invocation::Help(*page),
            Invocation::ListWorktrees => Invocation::ListWorktrees,
            Invocation::Navigate(navigation) => Invocation::Navigate(navigation.model()),
            Invocation::RemoveBranches(removal) => Invocation::RemoveBranches(removal.model()),
            Invocation::RemoveWorktrees(removal) => Invocation::RemoveWorktrees(removal.model()),
            Invocation::Version => Invocation::Version,
        }
    }
}

impl Modelled for GrammarError {
    type Model = GrammarError<Seq<char>>;

    open spec fn model(&self) -> GrammarError<Seq<char>> {
        GrammarError(
            match &self.0 {
                GrammarErrorKind::BranchRemoval(m) => GrammarErrorKind::BranchRemoval(m@),
                GrammarErrorKind::NoSwitchWithSubverb { subverb } =>
                    GrammarErrorKind::NoSwitchWithSubverb { subverb: subverb@ },
                GrammarErrorKind::Retired { word, keep } => GrammarErrorKind::Retired {
                    word: word@,
                    keep: keep@,
                },
                GrammarErrorKind::WorktreeRemoval(m) => GrammarErrorKind::WorktreeRemoval(m@),
                GrammarErrorKind::WorktreeNavigation(m) => GrammarErrorKind::WorktreeNavigation(m@),
            },
        )
    }
}

impl Clone for GrammarError {
    fn clone(&self) -> (r: Self)
        ensures
            r.model() == self.model(),
    {
        GrammarError(
            match &self.0 {
                GrammarErrorKind::BranchRemoval(m) => GrammarErrorKind::BranchRemoval(m.clone()),
                GrammarErrorKind::NoSwitchWithSubverb { subverb } =>
                    GrammarErrorKind::NoSwitchWithSubverb { subverb: subverb.clone() },
                GrammarErrorKind::Retired { word, keep } => GrammarErrorKind::Retired {
                    word: word.clone(),
                    keep: keep.clone(),
                },
                GrammarErrorKind::WorktreeRemoval(m) => GrammarErrorKind::WorktreeRemoval(m.clone()),
                GrammarErrorKind::WorktreeNavigation(m) => GrammarErrorKind::WorktreeNavigation(
                    m.clone(),
                ),
            },
        )
    }
}

/// A row of words.
pub type Words = Seq<Seq<char>>;

/// What a command line comes to.
pub type Parsed = Result<Invocation<Seq<char>>, GrammarError<Seq<char>>>;

// ---------------------------------------------------------------------------
// The grammar
// ---------------------------------------------------------------------------

/// The verb a first word names.
pub open spec fn verb_of(word: Seq<char>) -> Option<Verb> {
    if word == "br"@ {
        Some(Verb::Here)
    } else if word == "wt"@ {
        Some(Verb::Worktree)
    } else {
        None
    }
}

/// The subverb of `wt` that a word names, retired spellings among them.
pub open spec fn worktree_subverb_of(word: Seq<char>) -> Option<WorktreeSubverb> {
    if word == "list"@ {
        Some(WorktreeSubverb::List)
    } else if word == "ls"@ {
        Some(WorktreeSubverb::Ls)
    } else if word == "remove"@ {
        Some(WorktreeSubverb::Remove)
    } else if word == "rm"@ {
        Some(WorktreeSubverb::Rm)
    } else {
        None
    }
}

/// The words that a position reads as something other than a branch.
pub open spec fn eaten(position: Position, word: Seq<char>) -> bool {
    match position {
        Position::Bare => verb_of(word) is Some,
        Position::Branch => word == "rm"@,
        Position::Escaped | Position::Removal => false,
        Position::Worktree => worktree_subverb_of(word) is Some,
    }
}

pub open spec fn branches_at(position: Position) -> Invocation<Seq<char>> {
    Invocation::Complete(Completion { source: CompletionSource::ReachableBranches, position })
}

pub open spec fn navigation(verb: Verb, target: Option<Seq<char>>) -> Invocation<Seq<char>> {
    Invocation::Navigate(
        match verb {
            Verb::Go => Navigation::Go(target),
            Verb::Here => Navigation::Here(target),
            Verb::Worktree => Navigation::Worktree {
                worktree_name: None,
                target,
                shell_handoff: ShellHandoff::Emit,
            },
        },
    )
}

pub open spec fn to_worktree(
    name: Option<Seq<char>>,
    target: Option<Seq<char>>,
    shell_handoff: ShellHandoff,
) -> Invocation<Seq<char>> {
    Invocation::Navigate(Navigation::Worktree { worktree_name: name, target, shell_handoff })
}

/// After a `--`: the next word is a branch, whatever it looks like.
pub open spec fn escaped(rest: Words, verb: Verb) -> Invocation<Seq<char>> {
    if rest.len() == 0 {
        navigation(verb, None)
    } else if rest[0] == "--complete"@ {
        branches_at(Position::Escaped)
    } else {
        navigation(verb, Some(rest[0]))
    }
}

pub open spec fn looks_like_option(word: Seq<char>) -> bool {
    word.len() > 0 && word[0] == '-'
}

/// That the word of `args` at an index is `word`.
pub open spec fn is_word(args: Words, word: Seq<char>) -> spec_fn(int) -> bool {
    |i: int| args[i] == word
}

/// Where `word` first stands among `args`, or their number.
pub open spec fn first_word(args: Words, word: Seq<char>) -> int {
    text::least(0, args.len() as int, is_word(args, word))
}

/// Whether `word` is among the first `n` of `args`.
pub open spec fn among(args: Words, n: int, word: Seq<char>) -> bool {
    exists|j: int| 0 <= j < n && #[trigger] args[j] == word
}

pub open spec fn quoted(before: Seq<char>, word: Seq<char>) -> Seq<char> {
    before + word + "'"@
}

/// That the word of `args` at an index is a target of `br rm`.
pub open spec fn branch_target_at(args: Words) -> spec_fn(int) -> bool {
    |i: int| !looks_like_option(args[i])
}

/// What is wrong with the word of `br rm` at `i`, given those before it.
pub open spec fn branch_removal_fault(args: Words, i: int) -> Option<Seq<char>> {
    let word = args[i];
    if word == "--force"@ || word == "--upstream"@ {
        if among(args, i, word) {
            Some(quoted("duplicate option '"@, word))
        } else {
            None
        }
    } else if looks_like_option(word) {
        Some(quoted("unknown option '"@, word))
    } else if text::least(0, i, branch_target_at(args)) < i {
        Some(quoted("unexpected extra target '"@, word))
    } else {
        None
    }
}

pub open spec fn branch_removal_faulty(args: Words) -> spec_fn(int) -> bool {
    |i: int| branch_removal_fault(args, i) is Some
}

/// `br rm`: long options, each at most once, and at most one target.
pub open spec fn branch_removal_spec(args: Words) -> Parsed {
    let fault = text::least(0, args.len() as int, branch_removal_faulty(args));
    let target = text::least(0, args.len() as int, branch_target_at(args));
    if args == seq!["--complete"@] {
        Ok(
            Invocation::Complete(
                Completion { source: CompletionSource::LocalBranches, position: Position::Removal },
            ),
        )
    } else if fault < args.len() {
        Err(GrammarError(GrammarErrorKind::BranchRemoval(branch_removal_fault(args, fault)->0)))
    } else {
        Ok(
            Invocation::RemoveBranches(
                BranchRemoval {
                    target: if target < args.len() {
                        Some(args[target])
                    } else {
                        None
                    },
                    force: among(args, args.len() as int, "--force"@),
                    upstream: among(args, args.len() as int, "--upstream"@),
                },
            ),
        )
    }
}

/// `br`: help, completion, removal, or a branch to check out here.
pub open spec fn branch_spec(args: Words) -> Parsed {
    if args.len() == 0 {
        Ok(navigation(Verb::Here, None))
    } else if args[0] == "--help"@ || args[0] == "-h"@ {
        Ok(Invocation::Help(HelpPage::Branch))
    } else if args[0] == "--complete"@ {
        Ok(branches_at(Position::Branch))
    } else if args[0] == "--"@ {
        Ok(escaped(args.skip(1), Verb::Here))
    } else if args[0] == "rm"@ {
        branch_removal_spec(args.skip(1))
    } else {
        Ok(navigation(Verb::Here, Some(args[0])))
    }
}

/// That the word of `wt rm` at an index is a target: past the `--`, or before
/// it and not an option.
pub open spec fn worktree_target_at(args: Words) -> spec_fn(int) -> bool {
    |i: int|
        {
            let end = first_word(args, "--"@);
            i > end || (i < end && !looks_like_option(args[i]))
        }
}

/// That the word of `args` at an index asks for force.
pub open spec fn forces_at(args: Words) -> spec_fn(int) -> bool {
    |i: int| args[i] == "-f"@ || args[i] == "--force"@
}

/// What is wrong with the word of `wt rm` at `i`, given those before it.
pub open spec fn worktree_removal_fault(args: Words, i: int) -> Option<Seq<char>> {
    let word = args[i];
    let end = first_word(args, "--"@);
    if i == end {
        None
    } else if i < end && forces_at(args)(i) {
        if text::least(0, i, forces_at(args)) < i {
            Some(quoted("duplicate option '"@, word))
        } else {
            None
        }
    } else if i < end && looks_like_option(word) {
        Some(quoted("unknown option '"@, word))
    } else if text::least(0, i, worktree_target_at(args)) < i {
        Some(quoted("unexpected extra target '"@, word))
    } else {
        None
    }
}

pub open spec fn worktree_removal_faulty(args: Words) -> spec_fn(int) -> bool {
    |i: int| worktree_removal_fault(args, i) is Some
}

/// `wt rm`: force at most once under either spelling, and at most one target,
/// which a `--` lets look like anything.
pub open spec fn worktree_removal_spec(args: Words) -> Parsed {
    let end = first_word(args, "--"@);
    let fault = text::least(0, args.len() as int, worktree_removal_faulty(args));
    let target = text::least(0, args.len() as int, worktree_target_at(args));
    if first_word(args, "--complete"@) < end {
        Ok(
            Invocation::Complete(
                Completion { source: CompletionSource::Worktrees, position: Position::Removal },
            ),
        )
    } else if fault < args.len() {
        Err(GrammarError(GrammarErrorKind::WorktreeRemoval(worktree_removal_fault(args, fault)->0)))
    } else {
        Ok(
            Invocation::RemoveWorktrees(
                WorktreeRemoval {
                    target: if target < args.len() {
                        Some(args[target])
                    } else {
                        None
                    },
                    force: text::least(0, end, forces_at(args)) < end,
                },
            ),
        )
    }
}

/// A name for one directory: not empty, no separator in it, and neither of
/// the two names that stand for directories already there.
pub open spec fn one_directory(name: Seq<char>) -> bool {
    &&& name.len() > 0
    &&& name != "."@
    &&& name != ".."@
    &&& !name.contains('/')
    &&& !name.contains('\\')
}

pub open spec fn not_one_directory(name: Seq<char>) -> GrammarError<Seq<char>> {
    GrammarError(
        GrammarErrorKind::WorktreeNavigation(
            "invalid worktree name '"@ + name + "'; expected one directory name"@,
        ),
    )
}

/// A word of `wt` that looks like an option and is none it knows.
pub open spec fn unknown_to_worktree(word: Seq<char>) -> bool {
    looks_like_option(word) && word != "--complete"@
}

pub open spec fn unknown_option(word: Seq<char>) -> GrammarError<Seq<char>> {
    GrammarError(GrammarErrorKind::WorktreeNavigation(quoted("unknown option '"@, word)))
}

/// `wt` with a branch, or with a directory name and a branch. Past a `--` no
/// word is read as an option, but for a last `--no-switch` behind one branch,
/// which is accepted and changes nothing.
pub open spec fn worktree_navigation_spec(
    args: Words,
    shell_handoff: ShellHandoff,
    past_escape: bool,
) -> Parsed {
    if args.len() == 0 {
        Ok(to_worktree(None, None, shell_handoff))
    } else if !past_escape && unknown_to_worktree(args[0]) {
        Err(unknown_option(args[0]))
    } else if args.len() == 1 {
        if args[0] == "--complete"@ {
            Ok(
                branches_at(
                    if past_escape {
                        Position::Escaped
                    } else {
                        Position::Worktree
                    },
                ),
            )
        } else {
            Ok(to_worktree(None, Some(args[0]), shell_handoff))
        }
    } else if !past_escape && unknown_to_worktree(args[1]) {
        Err(unknown_option(args[1]))
    } else if args.len() > 2 {
        Err(
            GrammarError(
                GrammarErrorKind::WorktreeNavigation(
                    quoted("unexpected extra argument '"@, args[2]),
                ),
            ),
        )
    } else if past_escape && args[1] == "--no-switch"@ {
        Ok(to_worktree(None, Some(args[0]), shell_handoff))
    } else if !one_directory(args[0]) {
        Err(not_one_directory(args[0]))
    } else if args[1] == "--complete"@ {
        Ok(branches_at(Position::Escaped))
    } else {
        Ok(to_worktree(Some(args[0]), Some(args[1]), shell_handoff))
    }
}

/// The words other than `word`, in their order.
pub open spec fn without(args: Words, word: Seq<char>) -> Words
    decreases args.len(),
{
    if args.len() == 0 {
        args
    } else if args.last() == word {
        without(args.drop_last(), word)
    } else {
        without(args.drop_last(), word).push(args.last())
    }
}

/// The words of `wt` once its `--no-switch` has been read: it may stand
/// anywhere before the `--`.
pub open spec fn switch_read(args: Words) -> Words {
    let end = first_word(args, "--"@);
    without(args.take(end), "--no-switch"@) + args.skip(end)
}

pub open spec fn handoff_of(args: Words) -> ShellHandoff {
    if among(args, first_word(args, "--"@), "--no-switch"@) {
        ShellHandoff::Suppress
    } else {
        ShellHandoff::Emit
    }
}

/// `wt`: help, completion, listing, removal, or a branch to give a worktree.
pub open spec fn worktree_spec(args: Words) -> Parsed {
    let shell_handoff = handoff_of(args);
    let rest = switch_read(args);
    if rest.len() == 0 {
        Ok(to_worktree(None, None, shell_handoff))
    } else if rest[0] == "--help"@ || rest[0] == "-h"@ {
        Ok(Invocation::Help(HelpPage::Worktree))
    } else if rest[0] == "--complete"@ {
        Ok(branches_at(Position::Worktree))
    } else if rest[0] == "--"@ {
        worktree_navigation_spec(rest.skip(1), shell_handoff, true)
    } else {
        match worktree_subverb_of(rest[0]) {
            None => worktree_navigation_spec(rest, shell_handoff, false),
            Some(subverb) => if shell_handoff == ShellHandoff::Suppress {
                Err(GrammarError(GrammarErrorKind::NoSwitchWithSubverb { subverb: rest[0] }))
            } else {
                match subverb {
                    WorktreeSubverb::Ls => Ok(Invocation::ListWorktrees),
                    WorktreeSubverb::List => Err(
                        GrammarError(GrammarErrorKind::Retired { word: "list"@, keep: "ls"@ }),
                    ),
                    WorktreeSubverb::Remove => Err(
                        GrammarError(GrammarErrorKind::Retired { word: "remove"@, keep: "rm"@ }),
                    ),
                    WorktreeSubverb::Rm => worktree_removal_spec(rest.skip(1)),
                }
            },
        }
    }
}

/// A whole command line.
pub open spec fn parse_spec(args: Words) -> Parsed {
    if args.len() == 0 {
        Ok(navigation(Verb::Go, None))
    } else if args[0] == "--help"@ || args[0] == "-h"@ {
        Ok(Invocation::Help(HelpPage::Main))
    } else if args[0] == "--version"@ || args[0] == "-V"@ {
        Ok(Invocation::Version)
    } else if args[0] == "--complete"@ {
        Ok(branches_at(Position::Bare))
    } else if args[0] == "--"@ {
        Ok(escaped(args.skip(1), Verb::Go))
    } else {
        match verb_of(args[0]) {
            Some(Verb::Here) => branch_spec(args.skip(1)),
            Some(Verb::Worktree) => worktree_spec(args.skip(1)),
            _ => Ok(navigation(Verb::Go, Some(args[0]))),
        }
    }
}

/// The candidates a completion offers, each on a line of its own: those its
/// position does not eat.
pub open spec fn rendered(position: Position, candidates: Words) -> Seq<char>
    decreases candidates.len(),
{
    if candidates.len() == 0 {
        Seq::empty()
    } else {
        let before = rendered(position, candidates.drop_last());
        if eaten(position, candidates.last()) {
            before
        } else {
            before + candidates.last() + "\n"@
        }
    }
}

// ---------------------------------------------------------------------------
// Reading a command line
// ---------------------------------------------------------------------------

/// The words from `from` on.
fn words_from(args: &[String], from: usize) -> (r: &[String])
    requires
        from <= args@.len(),
    ensures
        models(r@) == models(args@).skip(from as int),
{
    let r: &[String] = vstd::slice::slice_subrange(args, from, args.len());
    assert(models(r@) =~= models(args@).skip(from as int));
    r
}

fn quote_word(before: &str, word: &str) -> (r: String)
    ensures
        r@ == quoted(before@, word@),
{
    text::joined3(before, word, "'")
}

fn is_option_word(word: &str) -> (r: bool)
    ensures
        r == looks_like_option(word@),
{
    let r: bool = text::begins(word, "-");
    proof {
        reveal_strlit("-");
        if word@.len() > 0 {
            assert(word@.take(1)[0] == word@[0]);
            if word@[0] == '-' {
                assert(word@.take(1) =~= "-"@);
            }
        }
    }
    r
}

impl BranchRemoval {
    pub fn target(&self) -> (r: Option<&str>)
        ensures
            borrowed(r) == self.model().target,
    {
        match &self.target {
            Some(word) => Some(word.as_str()),
            None => None,
        }
    }

    pub fn force(&self) -> (r: bool)
        ensures
            r == self.model().force,
    {
        self.force
    }

    pub fn upstream(&self) -> (r: bool)
        ensures
            r == self.model().upstream,
    {
        self.upstream
    }
}

impl WorktreeRemoval {
    pub fn target(&self) -> (r: Option<&str>)
        ensures
            borrowed(r) == self.model().target,
    {
        match &self.target {
            Some(word) => Some(word.as_str()),
            None => None,
        }
    }

    pub fn force(&self) -> (r: bool)
        ensures
            r == self.model().force,
    {
        self.force
    }
}

/// The page that `--help` prints.
pub const MAIN_HELP: &'static str = "Usage: perch [<branch>]       Go to the branch, wherever it lives
       perch br [<branch>]    Check the branch out here
       perch wt [<branch>]    Give the branch its own worktree
       perch wt <name> <branch>
                                  Use a custom worktree directory name

       perch .                Refresh the current branch from its remote
       perch -- <branch>      Go to a branch named br/wt
       perch br rm [<branch>] Remove local branches
       perch wt ls            List worktrees
       perch wt rm [<branch>|.]

With the shell integration sourced, `br` and `wt` stand in for `perch br`
and `perch wt`. Set PERCH_NO_SHORTCUTS to leave both names alone.
";

/// The page that `br --help` prints.
pub const BRANCH_HELP: &'static str = "Usage: perch br [<branch>]    Check the branch out here
       perch br rm [<branch>] [--upstream] [--force]
                                  Remove local branches
       perch br -- <branch>   Check out a branch named rm

Options:
      --upstream  Also offer the branch's same-named upstream for removal
      --force     Skip destructive confirmations
";

/// The page that `wt --help` prints.
pub const WORKTREE_HELP: &'static str = "Usage: perch wt [<branch>] [--no-switch]
                                  Give the branch its own worktree
       perch wt <worktree-name> <branch> [--no-switch]
                                  Use a custom worktree directory name
       perch wt ls            List worktrees
       perch wt rm [<branch>] Remove a worktree (deletes branch if merged)
       perch wt rm .          Remove the worktree you're in
       perch wt -- <branch>   Worktree a branch named ls/rm/list/remove
       perch wt -- <worktree-name> <branch>
                                  Escape a colliding worktree name

Options:
      --no-switch  Create or find the worktree without switching to it
  -f, --force      Skip the confirmation for uncommitted or unmerged work
";

/// The text of a help page.
pub open spec fn help_text(page: HelpPage) -> Seq<char> {
    match page {
        HelpPage::Branch => BRANCH_HELP@,
        HelpPage::Main => MAIN_HELP@,
        HelpPage::Worktree => WORKTREE_HELP@,
    }
}

impl HelpPage {
    pub fn text(self) -> (r: &'static str)
        ensures
            r@ == help_text(self),
    {
        match self {
            HelpPage::Branch => BRANCH_HELP,
            HelpPage::Main => MAIN_HELP,
            HelpPage::Worktree => WORKTREE_HELP,
        }
    }
}

impl Position {
    /// Whether a word in this position is read as something other than a
    /// branch.
    pub fn eats(self, word: &str) -> (r: bool)
        ensures
            r == eaten(self, word@),
    {
        match self {
            Position::Bare => parse_verb(word).is_some(),
            Position::Branch => parse_branch_subverb(word).is_some(),
            Position::Escaped | Position::Removal => false,
            Position::Worktree => parse_worktree_subverb(word).is_some(),
        }
    }
}

/// What a row of borrowed texts says.
pub open spec fn said(words: Seq<&str>) -> Words {
    Seq::new(words.len(), |i: int| words[i]@)
}

impl Completion {
    pub fn source(&self) -> (r: CompletionSource)
        ensures
            r == self.source,
    {
        self.source
    }

    /// The candidates that reach a branch from this position, one to a line.
    pub fn render(&self, candidates: &[&str]) -> (r: String)
        ensures
            r@ == rendered(self.position, said(candidates@)),
    {
        let mut output: String = String::new();
        let mut i: usize = 0;
        let ghost all = said(candidates@);
        while i < candidates.len()
            invariant
                i <= candidates@.len(),
                all == said(candidates@),
                output@ == rendered(self.position, all.take(i as int)),
            decreases candidates@.len() - i,
        {
            assert(all.take(i + 1).drop_last() =~= all.take(i as int));
            if !self.position.eats(candidates[i]) {
                output.append(candidates[i]);
                output.append("\n");
            }
            i += 1;
        }
        assert(all.take(i as int) =~= all);
        output
    }
}

impl GrammarErrorKind<Seq<char>> {
    /// How the refusal reads.
    pub open spec fn message(self) -> Seq<char> {
        match self {
            GrammarErrorKind::BranchRemoval(m) => "invalid `perch br rm` invocation: "@ + m,
            GrammarErrorKind::NoSwitchWithSubverb { subverb } =>
                "`--no-switch` does not apply to `perch wt "@ + subverb + "`"@,
            GrammarErrorKind::Retired { word, keep } => "`perch wt "@ + word
                + "` is gone; use `perch wt "@ + keep + "`, or `perch wt -- "@ + word
                + "` for a branch by that name"@,
            GrammarErrorKind::WorktreeRemoval(m) => "invalid `perch wt rm` invocation: "@ + m,
            GrammarErrorKind::WorktreeNavigation(m) => "invalid `perch wt` invocation: "@ + m,
        }
    }
}

impl GrammarError {
    /// The refusal in words.
    pub fn to_string(&self) -> (r: String)
        ensures
            r@ == self.model().0.message(),
    {
        match &self.0 {
            GrammarErrorKind::BranchRemoval(m) => text::joined(
                "invalid `perch br rm` invocation: ",
                m,
            ),
            GrammarErrorKind::NoSwitchWithSubverb { subverb } => text::joined3(
                "`--no-switch` does not apply to `perch wt ",
                subverb,
                "`",
            ),
            GrammarErrorKind::Retired { word, keep } => {
                let mut r: String = text::joined3("`perch wt ", word, "` is gone; use `perch wt ");
                r.append(keep);
                r.append("`, or `perch wt -- ");
                r.append(word);
                r.append("` for a branch by that name");
                r
            },
            GrammarErrorKind::WorktreeRemoval(m) => text::joined(
                "invalid `perch wt rm` invocation: ",
                m,
            ),
            GrammarErrorKind::WorktreeNavigation(m) => text::joined(
                "invalid `perch wt` invocation: ",
                m,
            ),
        }
    }

    pub fn branch_removal(message: String) -> (r: Self)
        ensures
            r.model() == GrammarError(GrammarErrorKind::BranchRemoval(message@)),
    {
        GrammarError(GrammarErrorKind::BranchRemoval(message))
    }

    pub fn worktree_removal(message: String) -> (r: Self)
        ensures
            r.model() == GrammarError(GrammarErrorKind::WorktreeRemoval(message@)),
    {
        GrammarError(GrammarErrorKind::WorktreeRemoval(message))
    }

    pub fn worktree_navigation(message: String) -> (r: Self)
        ensures
            r.model() == GrammarError(GrammarErrorKind::WorktreeNavigation(message@)),
    {
        GrammarError(GrammarErrorKind::WorktreeNavigation(message))
    }

    pub fn retired(word: &str, keep: &str) -> (r: Self)
        ensures
            r.model() == GrammarError(GrammarErrorKind::Retired { word: word@, keep: keep@ }),
    {
        GrammarError(GrammarErrorKind::Retired { word: word.to_owned(), keep: keep.to_owned() })
    }

    pub fn no_switch_with_subverb(subverb: String) -> (r: Self)
        ensures
            r.model() == GrammarError(
                GrammarErrorKind::NoSwitchWithSubverb { subverb: subverb@ },
            ),
    {
        GrammarError(GrammarErrorKind::NoSwitchWithSubverb { subverb })
    }
}

/// Reads a command line, without the program's own name.
pub fn parse(args: &[String]) -> (r: Result<Invocation, GrammarError>)
    ensures
        r.model() == parse_spec(models(args@)),
{
    if args.len() == 0 {
        return Ok(navigate(Verb::Go, None));
    }
    let word: &str = args[0].as_str();
    if text::same(word, "--help") || text::same(word, "-h") {
        Ok(Invocation::Help(HelpPage::Main))
    } else if text::same(word, "--version") || text::same(word, "-V") {
        Ok(Invocation::Version)
    } else if text::same(word, "--complete") {
        Ok(branch_completion(Position::Bare))
    } else if text::same(word, "--") {
        Ok(parse_escaped(words_from(args, 1), Verb::Go))
    } else {
        match parse_verb(word) {
            Some(Verb::Here) => parse_branch(words_from(args, 1)),
            Some(Verb::Worktree) => parse_worktree(words_from(args, 1)),
            _ => Ok(navigate(Verb::Go, Some(word))),
        }
    }
}

/// Whether a branch of this name can only be gone to past a `--`.
pub fn needs_top_level_escape(word: &str) -> (r: bool)
    ensures
        r == (verb_of(word@) is Some),
{
    parse_verb(word).is_some()
}

/// Reads the words after `br`.
pub fn parse_branch(args: &[String]) -> (r: Result<Invocation, GrammarError>)
    ensures
        r.model() == branch_spec(models(args@)),
{
    if args.len() == 0 {
        return Ok(navigate(Verb::Here, None));
    }
    let word: &str = args[0].as_str();
    if text::same(word, "--help") || text::same(word, "-h") {
        Ok(Invocation::Help(HelpPage::Branch))
    } else if text::same(word, "--complete") {
        Ok(branch_completion(Position::Branch))
    } else if text::same(word, "--") {
        Ok(parse_escaped(words_from(args, 1), Verb::Here))
    } else if parse_branch_subverb(word).is_some() {
        parse_branch_removal(words_from(args, 1))
    } else {
        Ok(navigate(Verb::Here, Some(word)))
    }
}

/// Reads the words after `br rm`.
pub fn parse_branch_removal(args: &[String]) -> (r: Result<Invocation, GrammarError>)
    ensures
        r.model() == branch_removal_spec(models(args@)),
{
    let ghost ws = models(args@);
    if args.len() == 1 && text::same(&args[0], "--complete") {
        assert(ws =~= seq!["--complete"@]);
        return Ok(
            Invocation::Complete(
                Completion { source: CompletionSource::LocalBranches, position: Position::Removal },
            ),
        );
    }
    proof {
        if ws == seq!["--complete"@] {
            assert(ws[0] == "--complete"@);
        }
    }
    let mut removal: BranchRemoval = BranchRemoval { target: None, force: false, upstream: false };
    let mut i: usize = 0;
    let ghost faulty = branch_removal_faulty(ws);
    let ghost targets = branch_target_at(ws);
    while i < args.len()
        invariant
            i <= args@.len(),
            ws == models(args@),
            ws != seq!["--complete"@],
            faulty == branch_removal_faulty(ws),
            targets == branch_target_at(ws),
            forall|j: int| 0 <= j < i ==> !#[trigger] faulty(j),
            removal.force == among(ws, i as int, "--force"@),
            removal.upstream == among(ws, i as int, "--upstream"@),
            removal.target is Some <==> text::least(0, i as int, targets) < i,
            removal.target is Some ==> removal.target->0@ == ws[text::least(0, i as int, targets)],
        decreases args@.len() - i,
    {
        let arg: &str = args[i].as_str();
        let mut fault: Option<String> = None;
        proof {
            reveal_strlit("--force");
            reveal_strlit("--upstream");
            text::lemma_least(0, i as int, targets);
            let t = text::least(0, i as int, targets);
            if t < i {
                assert(targets(t));
                text::lemma_least_is(0, i + 1, targets, t);
            } else if targets(i as int) {
                text::lemma_least_is(0, i + 1, targets, i as int);
            } else {
                text::lemma_least_is(0, i + 1, targets, i + 1);
            }
        }
        if text::same(arg, "--force") {
            if removal.force {
                fault = Some(quote_word("duplicate option '", arg));
            }
            removal.force = true;
            assert(ws[i as int] == "--force"@);
        } else if text::same(arg, "--upstream") {
            if removal.upstream {
                fault = Some(quote_word("duplicate option '", arg));
            }
            removal.upstream = true;
            assert(ws[i as int] == "--upstream"@);
        } else if is_option_word(arg) {
            fault = Some(quote_word("unknown option '", arg));
        } else if removal.target.is_some() {
            fault = Some(quote_word("unexpected extra target '", arg));
        } else {
            removal.target = Some(args[i].clone());
        }
        assert(fault.model() == branch_removal_fault(ws, i as int));
        assert(faulty(i as int) == (fault is Some));
        if let Some(message) = fault {
            proof {
                text::lemma_least_is(0, ws.len() as int, faulty, i as int);
            }
            return Err(GrammarError::branch_removal(message));
        }
        i += 1;
    }
    proof {
        text::lemma_least_is(0, ws.len() as int, faulty, ws.len() as int);
    }
    Ok(Invocation::RemoveBranches(removal))
}

/// Reads the words after `wt`.
pub fn parse_worktree(args: &[String]) -> (r: Result<Invocation, GrammarError>)
    ensures
        r.model() == worktree_spec(models(args@)),
{
    let ghost ws = models(args@);
    let ghost end = first_word(ws, "--"@);
    let ghost at_end = is_word(ws, "--"@);
    let mut shell_handoff: ShellHandoff = ShellHandoff::Emit;
    let mut reads_options: bool = true;
    let mut remaining: Vec<String> = Vec::new();
    let mut i: usize = 0;
    proof {
        text::lemma_least(0, ws.len() as int, at_end);
        assert(ws.take(0) =~= Seq::empty());
        assert(ws.subrange(end, end) =~= Seq::empty());
    }
    while i < args.len()
        invariant
            i <= args@.len(),
            ws == models(args@),
            at_end == is_word(ws, "--"@),
            end == first_word(ws, "--"@),
            0 <= end <= ws.len(),
            end < ws.len() ==> at_end(end),
            forall|j: int| 0 <= j < end ==> !#[trigger] at_end(j),
            reads_options == (i <= end),
            i <= end ==> models(remaining@) == without(ws.take(i as int), "--no-switch"@),
            i > end ==> models(remaining@) == without(ws.take(end), "--no-switch"@) + ws.subrange(
                end,
                i as int,
            ),
            i <= end ==> (shell_handoff == ShellHandoff::Suppress) == among(
                ws,
                i as int,
                "--no-switch"@,
            ),
            i > end ==> (shell_handoff == ShellHandoff::Suppress) == among(ws, end, "--no-switch"@),
        decreases args@.len() - i,
    {
        broadcast use crate::model::lemma_models_push;

        proof {
            if i < end {
                assert(!at_end(i as int));
            }
            assert(ws.take(i + 1).drop_last() =~= ws.take(i as int));
            if i >= end {
                assert(ws.subrange(end, i as int).push(ws[i as int]) =~= ws.subrange(end, i + 1));
            }
        }
        let arg: String = args[i].clone();
        if reads_options && text::same(&arg, "--") {
            reads_options = false;
            assert(at_end(i as int));
            assert(ws.subrange(end, i + 1) =~= seq![ws[i as int]]);
            remaining.push(arg);
        } else if reads_options && text::same(&arg, "--no-switch") {
            shell_handoff = ShellHandoff::Suppress;
            assert(ws[i as int] == "--no-switch"@);
        } else {
            remaining.push(arg);
        }
        i += 1;
    }
    proof {
        assert(ws.take(ws.len() as int) =~= ws);
        assert(ws.subrange(end, ws.len() as int) =~= ws.skip(end));
        assert(models(remaining@) =~= switch_read(ws));
    }
    assert(shell_handoff == handoff_of(ws));
    if remaining.len() == 0 {
        return Ok(worktree_navigation(None, None, shell_handoff));
    }
    let word: &str = remaining[0].as_str();
    if text::same(word, "--help") || text::same(word, "-h") {
        Ok(Invocation::Help(HelpPage::Worktree))
    } else if text::same(word, "--complete") {
        Ok(branch_completion(Position::Worktree))
    } else if text::same(word, "--") {
        parse_worktree_navigation(words_from(&remaining, 1), shell_handoff, true)
    } else {
        match parse_worktree_subverb(word) {
            None => parse_worktree_navigation(&remaining, shell_handoff, false),
            Some(subverb) => {
                if shell_handoff == ShellHandoff::Suppress {
                    return Err(GrammarError::no_switch_with_subverb(word.to_owned()));
                }
                match subverb {
                    WorktreeSubverb::Ls => Ok(Invocation::ListWorktrees),
                    WorktreeSubverb::List => Err(GrammarError::retired("list", "ls")),
                    WorktreeSubverb::Remove => Err(GrammarError::retired("remove", "rm")),
                    WorktreeSubverb::Rm => parse_worktree_removal(words_from(&remaining, 1)),
                }
            },
        }
    }
}

fn is_unknown_to_worktree(word: &str) -> (r: bool)
    ensures
        r == unknown_to_worktree(word@),
{
    is_option_word(word) && !text::same(word, "--complete")
}

/// Reads the words after `wt` that name a branch, or a directory and a branch.
pub fn parse_worktree_navigation(
    args: &[String],
    shell_handoff: ShellHandoff,
    escaped: bool,
) -> (r: Result<Invocation, GrammarError>)
    ensures
        r.model() == worktree_navigation_spec(models(args@), shell_handoff, escaped),
{
    if args.len() == 0 {
        return Ok(worktree_navigation(None, None, shell_handoff));
    }
    let first: &str = args[0].as_str();
    if !escaped && is_unknown_to_worktree(first) {
        return Err(GrammarError::worktree_navigation(quote_word("unknown option '", first)));
    }
    if args.len() == 1 {
        if text::same(first, "--complete") {
            return Ok(
                branch_completion(
                    if escaped {
                        Position::Escaped
                    } else {
                        Position::Worktree
                    },
                ),
            );
        }
        return Ok(worktree_navigation(None, Some(first), shell_handoff));
    }
    let second: &str = args[1].as_str();
    if !escaped && is_unknown_to_worktree(second) {
        return Err(GrammarError::worktree_navigation(quote_word("unknown option '", second)));
    }
    if args.len() > 2 {
        return Err(
            GrammarError::worktree_navigation(
                quote_word("unexpected extra argument '", args[2].as_str()),
            ),
        );
    }
    if escaped && text::same(second, "--no-switch") {
        return Ok(worktree_navigation(None, Some(first), shell_handoff));
    }
    match validate_worktree_name(first) {
        Ok(()) => {},
        Err(e) => return Err(e),
    }
    if text::same(second, "--complete") {
        Ok(branch_completion(Position::Escaped))
    } else {
        Ok(worktree_navigation(Some(first), Some(second), shell_handoff))
    }
}

/// Refuses a name that is not that of one directory.
pub fn validate_worktree_name(name: &str) -> (r: Result<(), GrammarError>)
    ensures
        r.model() == (if one_directory(name@) {
            Ok(())
        } else {
            Err(not_one_directory(name@))
        }),
{
    if name.is_empty() || text::same(name, ".") || text::same(name, "..") || text::holds_char(
        name,
        '/',
    ) || text::holds_char(name, '\\') {
        return Err(
            GrammarError::worktree_navigation(
                text::joined3("invalid worktree name '", name, "'; expected one directory name"),
            ),
        );
    }
    Ok(())
}

fn is_force_word(word: &str) -> (r: bool)
    ensures
        r == (word@ == "-f"@ || word@ == "--force"@),
{
    text::same(word, "-f") || text::same(word, "--force")
}

/// Where `word` first stands among `args`, or their number.
fn position_of(args: &[String], word: &str) -> (r: usize)
    ensures
        r == first_word(models(args@), word@),
        r <= args@.len(),
{
    let ghost ws = models(args@);
    let ghost p = is_word(ws, word@);
    let mut i: usize = 0;
    while i < args.len()
        invariant
            i <= args@.len(),
            ws == models(args@),
            p == is_word(ws, word@),
            forall|j: int| 0 <= j < i ==> !#[trigger] p(j),
        decreases args@.len() - i,
    {
        if text::same(&args[i], word) {
            proof {
                assert(p(i as int));
                text::lemma_least_is(0, ws.len() as int, p, i as int);
            }
            return i;
        }
        assert(!p(i as int));
        i += 1;
    }
    proof {
        text::lemma_least_is(0, ws.len() as int, p, ws.len() as int);
    }
    i
}

/// Reads the words after `wt rm`.
pub fn parse_worktree_removal(args: &[String]) -> (r: Result<Invocation, GrammarError>)
    ensures
        r.model() == worktree_removal_spec(models(args@)),
{
    let ghost ws = models(args@);
    let end: usize = position_of(args, "--");
    if position_of(args, "--complete") < end {
        return Ok(
            Invocation::Complete(
                Completion { source: CompletionSource::Worktrees, position: Position::Removal },
            ),
        );
    }
    let mut removal: WorktreeRemoval = WorktreeRemoval { target: None, force: false };
    let mut i: usize = 0;
    let ghost faulty = worktree_removal_faulty(ws);
    let ghost targets = worktree_target_at(ws);
    let ghost forces = forces_at(ws);
    while i < args.len()
        invariant
            i <= args@.len(),
            end <= args@.len(),
            ws == models(args@),
            end == first_word(ws, "--"@),
            faulty == worktree_removal_faulty(ws),
            targets == worktree_target_at(ws),
            forces == forces_at(ws),
            first_word(ws, "--complete"@) >= end,
            forall|j: int| 0 <= j < i ==> !#[trigger] faulty(j),
            i <= end ==> removal.force == (text::least(0, i as int, forces) < i),
            i > end ==> removal.force == (text::least(0, end as int, forces) < end),
            removal.target is Some <==> text::least(0, i as int, targets) < i,
            removal.target is Some ==> removal.target->0@ == ws[text::least(0, i as int, targets)],
        decreases args@.len() - i,
    {
        let arg: &str = args[i].as_str();
        let mut fault: Option<String> = None;
        proof {
            lemma_least_step(i as int, targets);
            lemma_least_step(i as int, forces);
        }
        if i == end {
            assert(!targets(i as int));
        } else if i < end && is_force_word(arg) {
            assert(forces(i as int));
            if removal.force {
                fault = Some(quote_word("duplicate option '", arg));
            }
            removal.force = true;
            proof {
                reveal_strlit("-f");
                reveal_strlit("--force");
                assert(!targets(i as int));
            }
        } else if i < end && is_option_word(arg) {
            fault = Some(quote_word("unknown option '", arg));
        } else {
            assert(targets(i as int));
            if removal.target.is_some() {
                fault = Some(quote_word("unexpected extra target '", arg));
            } else {
                removal.target = Some(args[i].clone());
            }
        }
        assert(fault.model() == worktree_removal_fault(ws, i as int));
        assert(faulty(i as int) == (fault is Some));
        if let Some(message) = fault {
            proof {
                text::lemma_least_is(0, ws.len() as int, faulty, i as int);
            }
            return Err(GrammarError::worktree_removal(message));
        }
        i += 1;
    }
    proof {
        text::lemma_least_is(0, ws.len() as int, faulty, ws.len() as int);
    }
    Ok(Invocation::RemoveWorktrees(removal))
}

/// What one more index does to `least`.
proof fn lemma_least_step(i: int, p: spec_fn(int) -> bool)
    requires
        0 <= i,
    ensures
        text::least(0, i, p) < i ==> text::least(0, i + 1, p) == text::least(0, i, p),
        text::least(0, i, p) == i && p(i) ==> text::least(0, i + 1, p) == i,
        text::least(0, i, p) == i && !p(i) ==> text::least(0, i + 1, p) == i + 1,
        text::least(0, i, p) <= i,
{
    text::lemma_least(0, i, p);
    let t = text::least(0, i, p);
    if t < i {
        text::lemma_least_is(0, i + 1, p, t);
    } else if p(i) {
        text::lemma_least_is(0, i + 1, p, i);
    } else {
        text::lemma_least_is(0, i + 1, p, i + 1);
    }
}

/// Reads what follows a `--`.
pub fn parse_escaped(rest: &[String], verb: Verb) -> (r: Invocation)
    ensures
        r.model() == escaped(models(rest@), verb),
{
    if rest.len() == 0 {
        navigate(verb, None)
    } else if text::same(&rest[0], "--complete") {
        branch_completion(Position::Escaped)
    } else {
        navigate(verb, Some(rest[0].as_str()))
    }
}

fn owned(word: Option<&str>) -> (r: Option<String>)
    ensures
        r.model() == borrowed(word),
{
    match word {
        Some(w) => Some(w.to_owned()),
        None => None,
    }
}

pub fn navigate(verb: Verb, target: Option<&str>) -> (r: Invocation)
    ensures
        r.model() == navigation(verb, borrowed(target)),
{
    let target: Option<String> = owned(target);
    Invocation::Navigate(
        match verb {
            Verb::Go => Navigation::Go(target),
            Verb::Here => Navigation::Here(target),
            Verb::Worktree => Navigation::Worktree {
                worktree_name: None,
                target,
                shell_handoff: ShellHandoff::Emit,
            },
        },
    )
}

pub fn worktree_navigation(
    worktree_name: Option<&str>,
    target: Option<&str>,
    shell_handoff: ShellHandoff,
) -> (r: Invocation)
    ensures
        r.model() == to_worktree(borrowed(worktree_name), borrowed(target), shell_handoff),
{
    Invocation::Navigate(
        Navigation::Worktree {
            worktree_name: owned(worktree_name),
            target: owned(target),
            shell_handoff,
        },
    )
}

pub fn branch_completion(position: Position) -> (r: Invocation)
    ensures
        r.model() == branches_at(position),
{
    Invocation::Complete(Completion { source: CompletionSource::ReachableBranches, position })
}

pub fn parse_verb(word: &str) -> (r: Option<Verb>)
    ensures
        r == verb_of(word@),
{
    if text::same(word, "br") {
        Some(Verb::Here)
    } else if text::same(word, "wt") {
        Some(Verb::Worktree)
    } else {
        None
    }
}

pub fn parse_branch_subverb(word: &str) -> (r: Option<()>)
    ensures
        r is Some <==> word@ == "rm"@,
{
    if text::same(word, "rm") {
        Some(())
    } else {
        None
    }
}

pub fn parse_worktree_subverb(word: &str) -> (r: Option<WorktreeSubverb>)
    ensures
        r == worktree_subverb_of(word@),
{
    if text::same(word, "list") {
        Some(WorktreeSubverb::List)
    } else if text::same(word, "ls") {
        Some(WorktreeSubverb::Ls)
    } else if text::same(word, "remove") {
        Some(WorktreeSubverb::Remove)
    } else if text::same(word, "rm") {
        Some(WorktreeSubverb::Rm)
    } else {
        None
    }
}

// ---------------------------------------------------------------------------
// What every command line can count on
// ---------------------------------------------------------------------------

/// Past a `--` every branch can be named, whatever it looks like: to go to, to
/// check out here, to give a worktree, and to remove the worktree of. One
/// named `--complete` can only be named to `wt rm`.
pub proof fn escape_reaches_every_branch(branch: Seq<char>)
    ensures
        branch != "--complete"@ ==> {
            &&& parse_spec(seq!["--"@, branch]) == Parsed::Ok(navigation(Verb::Go, Some(branch)))
            &&& parse_spec(seq!["br"@, "--"@, branch]) == Parsed::Ok(
                navigation(Verb::Here, Some(branch)),
            )
            &&& parse_spec(seq!["wt"@, "--"@, branch]) == Parsed::Ok(
                navigation(Verb::Worktree, Some(branch)),
            )
        },
        parse_spec(seq!["wt"@, "rm"@, "--"@, branch]) == Parsed::Ok(
            Invocation::RemoveWorktrees(WorktreeRemoval { target: Some(branch), force: false }),
        ),
{
    lemma_command_words();
    let go = seq!["--"@, branch];
    assert(go.skip(1) =~= seq![branch]);
    let here = seq!["br"@, "--"@, branch];
    assert(here.skip(1) =~= go);
    let tree = seq!["wt"@, "--"@, branch];
    assert(tree.skip(1) =~= go);
    text::lemma_least_is(0, 2, is_word(go, "--"@), 0);
    assert(first_word(go, "--"@) == 0);
    assert(without(go.take(0), "--no-switch"@) + go.skip(0) =~= go);
    assert(handoff_of(go) == ShellHandoff::Emit);
    let remove = seq!["wt"@, "rm"@, "--"@, branch];
    let after = remove.skip(1);
    assert(after =~= seq!["rm"@, "--"@, branch]);
    text::lemma_least_is(0, 3, is_word(after, "--"@), 1);
    assert(first_word(after, "--"@) == 1);
    assert(without(after.take(1), "--no-switch"@) =~= seq!["rm"@]) by {
        reveal_with_fuel(without, 2);
        assert(after.take(1).drop_last() =~= Seq::empty());
    }
    assert(switch_read(after) =~= after);
    assert(handoff_of(after) == ShellHandoff::Emit);
    assert(after.skip(1) =~= go);
    text::lemma_least_is(0, 0, worktree_target_at(go), 0);
    text::lemma_least_is(0, 1, worktree_target_at(go), 1);
    text::lemma_least_is(0, 2, worktree_target_at(go), 1);
    text::lemma_least_is(0, 0, forces_at(go), 0);
    assert(worktree_removal_fault(go, 0) is None);
    assert(worktree_removal_fault(go, 1) is None);
    text::lemma_least_is(0, 2, worktree_removal_faulty(go), 2);
    text::lemma_least(0, 2, is_word(go, "--complete"@));
}

/// The words that commands are made of are told apart.
proof fn lemma_command_words()
    ensures
        "--"@ != "--help"@,
        "--"@ != "-h"@,
        "--"@ != "--version"@,
        "--"@ != "-V"@,
        "--"@ != "--complete"@,
        "--"@ != "--no-switch"@,
        "--"@ != "br"@,
        "--"@ != "wt"@,
        "--"@ != "rm"@,
        "rm"@ != "--no-switch"@,
        "rm"@ != "list"@,
        "rm"@ != "ls"@,
        "rm"@ != "remove"@,
        "br"@ != "wt"@,
        forall|word: Seq<char>|
            #![trigger looks_like_option(word)]
            word == "--help"@ || word == "-h"@ || word == "--version"@ || word == "-V"@ || word
                == "--complete"@ || word == "--"@ || word == "--no-switch"@ || word == "--force"@
                || word == "--upstream"@ || word == "-f"@ ==> looks_like_option(word),
        !looks_like_option("br"@),
        !looks_like_option("wt"@),
        !looks_like_option("rm"@),
        !looks_like_option("list"@),
        !looks_like_option("ls"@),
        !looks_like_option("remove"@),
{
    reveal_strlit("--");
    reveal_strlit("--help");
    reveal_strlit("-h");
    reveal_strlit("--version");
    reveal_strlit("-V");
    reveal_strlit("--complete");
    reveal_strlit("--no-switch");
    reveal_strlit("--force");
    reveal_strlit("--upstream");
    reveal_strlit("-f");
    reveal_strlit("br");
    reveal_strlit("wt");
    reveal_strlit("rm");
    reveal_strlit("list");
    reveal_strlit("ls");
    reveal_strlit("remove");
    assert("--"@.len() < "--help"@.len());
    assert("--"@.len() < "--version"@.len());
    assert("rm"@.len() < "remove"@.len());
    assert("br"@[0] != "wt"@[0]);
    assert("rm"@[0] != "ls"@[0]);
    assert("rm"@[0] != "--"@[0]);
    assert("br"@[0] != "--"@[0]);
    assert("wt"@[0] != "--"@[0]);
    assert("--"@[1] != "-h"@[1]);
    assert("--"@[1] != "-V"@[1]);
}

/// A completion drops a name exactly where typing it in that position would
/// not be read as the branch of that name.
pub proof fn completion_drops_what_is_not_read_as_a_branch(word: Seq<char>)
    requires
        !looks_like_option(word),
    ensures
        eaten(Position::Bare, word) <==> parse_spec(seq![word]) != Parsed::Ok(
            navigation(Verb::Go, Some(word)),
        ),
        eaten(Position::Branch, word) <==> parse_spec(seq!["br"@, word]) != Parsed::Ok(
            navigation(Verb::Here, Some(word)),
        ),
        eaten(Position::Worktree, word) <==> parse_spec(seq!["wt"@, word]) != Parsed::Ok(
            navigation(Verb::Worktree, Some(word)),
        ),
{
    lemma_command_words();
    let one = seq![word];
    assert(seq!["br"@, word].skip(1) =~= one);
    assert(seq!["wt"@, word].skip(1) =~= one);
    text::lemma_least_is(0, 1, is_word(one, "--"@), 1);
    assert(first_word(one, "--"@) == 1);
    assert(one.take(1) =~= one);
    assert(switch_read(one) =~= one) by {
        reveal_with_fuel(without, 2);
        assert(one.drop_last() =~= Seq::empty());
    }
    assert(handoff_of(one) == ShellHandoff::Emit);
    assert(one.skip(1) =~= Seq::empty());
    if word == "wt"@ {
        assert(parse_spec(one) == worktree_spec(Seq::empty()));
        let none: Words = Seq::empty();
        text::lemma_least(0, 0, is_word(none, "--"@));
        assert(switch_read(none) =~= none);
    }
}

/// What `br rm` accepts: only the options it knows, none of them twice, and at
/// most one target.
pub proof fn branch_removal_is_strict(args: Words)
    requires
        args != seq!["--complete"@],
    ensures
        branch_removal_spec(args) is Ok <==> {
            &&& forall|i: int|
                0 <= i < args.len() && looks_like_option(#[trigger] args[i]) ==> args[i]
                    == "--force"@ || args[i] == "--upstream"@
            &&& forall|i: int, j: int|
                0 <= i < j < args.len() && looks_like_option(#[trigger] args[i])
                    && looks_like_option(#[trigger] args[j]) ==> args[i] != args[j]
            &&& forall|i: int, j: int|
                0 <= i < j < args.len() ==> looks_like_option(#[trigger] args[i])
                    || looks_like_option(#[trigger] args[j])
        },
{
    lemma_command_words();
    let n = args.len() as int;
    let faulty = branch_removal_faulty(args);
    let targets = branch_target_at(args);
    text::lemma_least(0, n, faulty);
    let first = text::least(0, n, faulty);
    if first < n {
        assert(faulty(first));
        text::lemma_least(0, first, targets);
        let t = text::least(0, first, targets);
        let word = args[first];
        if word == "--force"@ || word == "--upstream"@ {
            let j = choose|j: int| 0 <= j < first && #[trigger] args[j] == word;
            assert(looks_like_option(args[j]));
            assert(looks_like_option(args[first]));
        } else if !looks_like_option(word) {
            assert(targets(t));
            assert(!looks_like_option(args[t]));
        }
    } else {
        assert forall|i: int| 0 <= i < n && looks_like_option(#[trigger] args[i]) implies args[i]
            == "--force"@ || args[i] == "--upstream"@ by {
            assert(!faulty(i));
        }
        assert forall|i: int, j: int| 0 <= i < j < n implies looks_like_option(#[trigger] args[i])
            || looks_like_option(#[trigger] args[j]) by {
            assert(!faulty(j));
            text::lemma_least(0, j, targets);
            if !looks_like_option(args[i]) {
                assert(targets(i));
            }
        }
        assert forall|i: int, j: int|
            0 <= i < j < n && looks_like_option(#[trigger] args[i]) && looks_like_option(
                #[trigger] args[j],
            ) implies args[i] != args[j] by {
            assert(!faulty(j));
        }
    }
}

/// What `wt rm` accepts: before a `--` only force, once under either spelling,
/// and at most one target before and behind it together.
pub proof fn worktree_removal_is_strict(args: Words)
    requires
        first_word(args, "--complete"@) >= first_word(args, "--"@),
    ensures
        ({
            let end = first_word(args, "--"@);
            worktree_removal_spec(args) is Ok <==> {
                &&& forall|i: int|
                    0 <= i < end && looks_like_option(#[trigger] args[i]) ==> args[i] == "-f"@
                        || args[i] == "--force"@
                &&& forall|i: int, j: int|
                    0 <= i < j < end && looks_like_option(#[trigger] args[i])
                        ==> !looks_like_option(#[trigger] args[j])
                &&& forall|i: int, j: int|
                    0 <= i < j < args.len() && #[trigger] worktree_target_at(args)(i)
                        ==> !#[trigger] worktree_target_at(args)(j)
            }
        }),
{
    lemma_command_words();
    let n = args.len() as int;
    let end = first_word(args, "--"@);
    let faulty = worktree_removal_faulty(args);
    let targets = worktree_target_at(args);
    let forces = forces_at(args);
    text::lemma_least(0, n, is_word(args, "--"@));
    text::lemma_least(0, n, faulty);
    let first = text::least(0, n, faulty);
    if first < n {
        assert(faulty(first));
        text::lemma_least(0, first, targets);
        text::lemma_least(0, first, forces);
        if text::least(0, first, forces) < first {
            assert(forces(text::least(0, first, forces)));
        }
        if text::least(0, first, targets) < first {
            assert(targets(text::least(0, first, targets)));
        }
        assert(first != end);
        if first < end && forces(first) {
            let j = text::least(0, first, forces);
            assert(looks_like_option(args[j]));
            assert(looks_like_option(args[first]));
        } else if first > end || !looks_like_option(args[first]) {
            assert(targets(first));
        }
    } else {
        assert forall|i: int| 0 <= i < end && looks_like_option(#[trigger] args[i]) implies args[i]
            == "-f"@ || args[i] == "--force"@ by {
            assert(!faulty(i));
        }
        assert forall|i: int, j: int| 0 <= i < j < n && #[trigger] targets(i) implies
            !#[trigger] targets(j) by {
            assert(!faulty(j));
            text::lemma_least(0, j, targets);
        }
        assert forall|i: int, j: int| 0 <= i < j < end && looks_like_option(#[trigger] args[i])
            implies !looks_like_option(#[trigger] args[j]) by {
            assert(!faulty(i));
            assert(!faulty(j));
            text::lemma_least(0, j, forces);
            if looks_like_option(args[j]) {
                assert(forces(i));
            }
        }
    }
}

/// `--no-switch` speaks of making or finding a worktree: with it, no command
/// line lists or removes anything.
pub proof fn no_switch_reaches_no_subverb(args: Words)
    requires
        handoff_of(args) == ShellHandoff::Suppress,
    ensures
        worktree_spec(args) matches Ok(invocation) ==> !(invocation is ListWorktrees) && !(
        invocation is RemoveWorktrees),
{
}

} // verus!
