//! What removing something may touch: itself, and nothing else.
use vstd::prelude::*;
use vstd::string::*;

use crate::app::reclamation::{
    self, moved_aside_spec, restore_spec, stage_spec, start_spec, unused_from, Staged,
};
use crate::app::removal::assess::Meaning;
use crate::app::removal::finish::{
    finish_each, movable_spec, remove_branch_spec, remove_offer_spec, remove_worktree_spec,
    settle_spec,
};
use crate::ask::{args2, args3, args4};
use crate::error::Meant;
use crate::git::deletion::{
    delete_branch_at_spec, deletion_asks_for_nothing_else, key_branch, permitted,
};
use crate::git::worktrees::{initialized_among, worktree_remove_spec};
use crate::git::{Proof, WorktreeRemoveOutcome};
use crate::grammar::Words;
use crate::path;
use crate::talk::{Answer, Asked, Progress};
use crate::text;


verus! {

/// Whether git only reads when it is run with these words.
pub open spec fn merely_reads(args: Words) -> bool {
    ||| args.len() > 0 && args[0] == "status"@
    ||| args.len() > 0 && args[0] == "rev-parse"@
    ||| args.len() > 1 && args[0] == "worktree"@ && args[1] == "list"@
    ||| args.len() > 1 && args[0] == "config"@ && args[1] == "--get"@
    ||| args.len() > 2 && args[0] == "config"@ && args[1] == "--local"@ && args[2] == "--list"@
}

/// Whether git is to note in its configuration what was moved aside.
pub open spec fn keeps_a_record(args: Words) -> bool {
    args.len() > 4 && args[0] == "config"@ && args[1] == "--file"@ && (args[3] == "--add"@
        && args[4] == "perch.reclamation.worktree"@ || args.len() > 5 && args[3]
        == "--fixed-value"@ && args[4]
        == "--unset-all"@ && args[5] == "perch.reclamation.worktree"@)
}

/// A hidden name made of another.
pub open spec fn hidden_name(name: Seq<char>, tail: Seq<char>) -> Seq<char> {
    ".perch-trash."@ + name + tail
}

/// Whether a path is that of a hidden name in a directory.
pub open spec fn hidden_in(dir: Seq<char>, name: Seq<char>, trash: Seq<char>) -> bool {
    exists|tail: Seq<char>| trash == path::join(dir, #[trigger] hidden_name(name, tail))
}

/// Whether a path is a hidden one beside another.
pub open spec fn hidden_beside(original: Seq<char>, trash: Seq<char>) -> bool {
    match (path::parent(original), path::file_name(original)) {
        (Some(dir), Some(name)) => hidden_in(dir, name, trash),
        _ => false,
    }
}

/// Whether a request concerns a worktree alone: it looks into it, moves it to a
/// hidden place beside it or back, has git remove it, by force only where that
/// is licensed, or tells of it.
pub open spec fn concerns_worktree(request: Asked, tree: Seq<char>, licensed: bool) -> bool {
    match request {
        Asked::Git { dir, args, .. } => {
            ||| merely_reads(args)
            ||| keeps_a_record(args)
            ||| args == args2("worktree"@, "prune"@)
            ||| dir is None && args == args3("worktree"@, "remove"@, tree)
            ||| dir is None && licensed && args == args4(
                "worktree"@,
                "remove"@,
                "--force"@,
                tree,
            )
        },
        Asked::GitBytes { dir, .. } => dir == Some(tree),
        Asked::Probe { below, .. } => below == tree,
        Asked::Rename { from, to } => (from == tree && hidden_beside(tree, to)) || (to == tree
            && hidden_beside(tree, from)),
        Asked::Exists(_) => true,
        Asked::Stamp => true,
        Asked::Lock(_) => true,
        Asked::Unlock => true,
        Asked::SpawnWorker(_) => true,
        Asked::Tell { .. } => true,
        _ => false,
    }
}

/// Whether a request concerns a local branch alone: it has git delete it where
/// `dir` is, by force only where that is licensed, at a proven tip only where
/// there is such a proof, or tells of it.
pub open spec fn concerns_branch(
    request: Asked,
    branch: Seq<char>,
    dir: Option<Seq<char>>,
    licensed: bool,
    proven: Option<Proof<Seq<char>>>,
) -> bool {
    match request {
        Asked::Git { dir: at, args, .. } => at == dir && {
            ||| merely_reads(args)
            ||| licensed && args == args4("branch"@, "-D"@, "--quiet"@, branch)
            ||| !licensed && args == args4("branch"@, "-d"@, "--quiet"@, branch)
            ||| !licensed && proven is Some && args == args4(
                "update-ref"@,
                "-d"@,
                "refs/heads/"@ + branch,
                proven->0.tip,
            )
            ||| !licensed && proven is Some && args == args4(
                "update-ref"@,
                "refs/heads/"@ + branch,
                proven->0.tip,
                ""@,
            )
            ||| !licensed && proven is Some && args.len() == 4 && key_branch(args[3]) == Some(
                branch,
            ) && args == args4("config"@, "--local"@, "--unset-all"@, args[3])
        },
        Asked::Tell { .. } => true,
        _ => false,
    }
}

/// Whether a request concerns what an offer offers: its worktree, its branch,
/// or the hook that is told of the worktree.
pub open spec fn concerns_offer(
    request: Asked,
    offer: Meaning,
    forced: bool,
    dir: Option<Seq<char>>,
) -> bool {
    ||| offer.worktree is Some && concerns_worktree(
        request,
        offer.worktree->0,
        forced || offer.dirty,
    )
    ||| offer.branch is Some && concerns_branch(
        request,
        offer.branch->0,
        dir,
        forced || offer.unmerged is Some,
        offer.proof,
    )
    ||| offer.worktree is Some && (request is Home || request is Environment)
    ||| offer.worktree is Some && git_reads_hook(request)
    ||| offer.worktree is Some && tells_hook_of(request, offer.worktree->0, offer.branch, dir)
}

/// Whether git is asked for a setting.
pub open spec fn git_reads_hook(request: Asked) -> bool {
    request matches Asked::Git { args, .. } && merely_reads(args)
}

/// Whether a hook is told that a worktree went, with its path, its branch and
/// where the main worktree is.
pub open spec fn tells_hook_of(
    request: Asked,
    tree: Seq<char>,
    branch: Option<Seq<char>>,
    dir: Option<Seq<char>>,
) -> bool {
    request matches Asked::Shell { dir: at, env, .. } && ({
        let main = match dir {
            Some(main) => main,
            None => Seq::empty(),
        };
        let held = match branch {
            Some(branch) => branch,
            None => Seq::empty(),
        };
        &&& at == main
        &&& env.contains(("PERCH_EVENT"@, "removed"@))
        &&& env.contains(("PERCH_WORKTREE"@, tree))
        &&& env.contains(("PERCH_MAIN"@, main))
        &&& env.contains(("PERCH_BRANCH"@, held))
    })
}

// ---------------------------------------------------------------------------
// Worktrees
// ---------------------------------------------------------------------------

spec fn tree_alone<T>(progress: Progress<T>, tree: Seq<char>, licensed: bool) -> bool {
    progress matches Progress::Waiting(request) ==> concerns_worktree(request, tree, licensed)
}

pub broadcast proof fn lemma_initialized_among(
    rest: Seq<Answer>,
    below: Seq<char>,
    entries: Seq<Seq<u8>>,
)
    ensures
        #[trigger] initialized_among(rest, below, entries) matches Progress::Waiting(request)
            ==> request matches Asked::Probe { below: at, .. } && at == below,
    decreases entries.len(),
{
    if entries.len() > 0 {
        lemma_initialized_among(rest, below, entries.drop_first());
        if rest.len() > 0 {
            lemma_initialized_among(rest.drop_first(), below, entries.drop_first());
        }
    }
}

broadcast proof fn lemma_movable(rest: Seq<Answer>, tree: Seq<char>, force: bool, licensed: bool)
    ensures
        #[trigger] tree_alone(movable_spec(rest, tree, force), tree, licensed),
{
    broadcast use lemma_initialized_among;

}

proof fn lemma_unused_from(
    rest: Seq<Answer>,
    original: Seq<char>,
    dir: Seq<char>,
    name: Seq<char>,
    process: u32,
    nonce: u128,
    attempt: nat,
)
    requires
        path::parent(original) == Some(dir),
        path::file_name(original) == Some(name),
    ensures
        unused_from(rest, original, dir, name, process, nonce, attempt) matches Progress::Waiting(
            request,
        ) ==> request is Exists,
        unused_from(rest, original, dir, name, process, nonce, attempt) matches Progress::Finished(
            Ok(trash),
            _,
        ) ==> hidden_beside(original, trash),
    decreases 100 - attempt,
{
    if attempt < 100 {
        let tail = "."@ + text::decimal(process as nat) + "."@ + text::decimal(nonce as nat)
            + "."@ + text::decimal(attempt);
        assert(reclamation::trash_name(name, process, nonce, attempt) =~= hidden_name(name, tail));
        assert(hidden_in(dir, name, path::join(dir, hidden_name(name, tail))));
        if rest.len() > 0 {
            lemma_unused_from(
                rest.drop_first(),
                original,
                dir,
                name,
                process,
                nonce,
                attempt + 1,
            );
        }
    }
}

proof fn lemma_moved_aside(
    rest: Seq<Answer>,
    config: Seq<char>,
    original: Seq<char>,
    licensed: bool,
)
    ensures
        tree_alone(moved_aside_spec(rest, config, original), original, licensed),
        moved_aside_spec(rest, config, original) matches Progress::Finished(Ok(staged), _)
            ==> staged.original == original && hidden_beside(original, staged.trash),
{
    if path::parent(original) is Some && path::file_name(original) is Some {
        match reclamation::stamp_asked(rest) {
            Progress::Finished((nonce, process), left) => {
                lemma_unused_from(
                    left,
                    original,
                    path::parent(original)->0,
                    path::file_name(original)->0,
                    process,
                    nonce,
                    0,
                );
            },
            Progress::Waiting(_) => {},
        }
    }
}

proof fn lemma_stage(rest: Seq<Answer>, original: Seq<char>, licensed: bool)
    ensures
        tree_alone(stage_spec(rest, original), original, licensed),
        stage_spec(rest, original) matches Progress::Finished(Ok(staged), _) ==> staged.original
            == original && hidden_beside(original, staged.trash),
{
    match reclamation::repository_config_spec(rest) {
        Progress::Finished(Ok(config), left) => {
            match reclamation::repository_lock_spec(left, config) {
                Progress::Finished(Ok(_), left) => {
                    lemma_moved_aside(left, config, original, licensed);
                },
                _ => {},
            }
        },
        _ => {},
    }
}

proof fn lemma_settle(
    rest: Seq<Answer>,
    staged: Staged<Seq<char>>,
    removed: Meant<WorktreeRemoveOutcome<Seq<char>>>,
    licensed: bool,
)
    requires
        hidden_beside(staged.original, staged.trash),
    ensures
        tree_alone(settle_spec(rest, staged, removed), staged.original, licensed),
{
    assert(tree_alone(start_spec(rest, staged), staged.original, licensed));
    assert(tree_alone(restore_spec(rest, staged), staged.original, licensed));
}

proof fn lemma_worktree_remove(rest: Seq<Answer>, tree: Seq<char>, force: bool)
    ensures
        tree_alone(worktree_remove_spec(rest, tree, force), tree, force),
{
}

proof fn lemma_remove_worktree(rest: Seq<Answer>, tree: Seq<char>, missing: bool, force: bool)
    ensures
        tree_alone(remove_worktree_spec(rest, tree, missing, force), tree, force),
{
    if missing {
        lemma_worktree_remove(rest, tree, force);
    } else {
        lemma_movable(rest, tree, force, force);
        match movable_spec(rest, tree, force) {
            Progress::Waiting(_) => {},
            Progress::Finished(false, left) => {
                lemma_worktree_remove(left, tree, force);
            },
            Progress::Finished(true, left) => {
                lemma_stage(left, tree, force);
                match stage_spec(left, tree) {
                    Progress::Waiting(_) => {},
                    Progress::Finished(Err(_), left) => {
                        lemma_worktree_remove(left, tree, force);
                    },
                    Progress::Finished(Ok(staged), left) => {
                        lemma_worktree_remove(left, tree, force);
                        match worktree_remove_spec(left, tree, force) {
                            Progress::Waiting(_) => {},
                            Progress::Finished(removed, left) => {
                                lemma_settle(left, staged, removed, force);
                            },
                        }
                    },
                }
            },
        }
    }
}

// ---------------------------------------------------------------------------
// Branches
// ---------------------------------------------------------------------------

pub proof fn lemma_remove_branch(
    rest: Seq<Answer>,
    offer: Meaning,
    forced: bool,
    dir: Option<Seq<char>>,
)
    ensures
        remove_branch_spec(rest, offer, forced, dir) matches Progress::Waiting(request)
            ==> offer.branch is Some && concerns_branch(
            request,
            offer.branch->0,
            dir,
            forced || offer.unmerged is Some,
            offer.proof,
        ),
{
    if offer.branch is Some && offer.proof is Some {
        let branch = offer.branch->0;
        let proven = offer.proof->0;
        match crate::git::resolve_spec(rest, dir, proven.anchor_ref) {
            Progress::Finished(_, left) => {
                deletion_asks_for_nothing_else(left, dir, branch, proven.tip);
                match delete_branch_at_spec(left, dir, branch, proven.tip) {
                    Progress::Waiting(q) => {
                        assert(permitted(q, dir, branch, proven.tip));
                    },
                    _ => {},
                }
            },
            _ => {},
        }
    }
}

// ---------------------------------------------------------------------------
// Offers
// ---------------------------------------------------------------------------

spec fn offer_alone<T>(
    progress: Progress<T>,
    offer: Meaning,
    forced: bool,
    dir: Option<Seq<char>>,
) -> bool {
    progress matches Progress::Waiting(request) ==> concerns_offer(request, offer, forced, dir)
}

proof fn lemma_payload(tree: Seq<char>, branch: Option<Seq<char>>, main: Seq<char>)
    ensures
        ({
            let env = crate::app::hook::payload(
                crate::app::hook::HookEvent::Removed,
                tree,
                branch,
                main,
            );
            let held = match branch {
                Some(branch) => branch,
                None => Seq::empty(),
            };
            &&& env.contains(("PERCH_EVENT"@, "removed"@))
            &&& env.contains(("PERCH_WORKTREE"@, tree))
            &&& env.contains(("PERCH_MAIN"@, main))
            &&& env.contains(("PERCH_BRANCH"@, held))
        }),
{
    let env = crate::app::hook::payload(crate::app::hook::HookEvent::Removed, tree, branch, main);
    assert(env[0].0 == "PERCH_BRANCH"@);
    assert(env[1] == ("PERCH_EVENT"@, "removed"@));
    assert(env[2] == ("PERCH_MAIN"@, main));
    assert(env[3] == ("PERCH_WORKTREE"@, tree));
}

/// Removing an offer touches its own worktree and its own branch, and nothing
/// else: no other directory is moved or removed and no other branch deleted,
/// git's guards are passed only where a warning or force licensed it, and a
/// pinned deletion is of the proven tip.
pub proof fn a_removal_touches_only_its_offer(
    rest: Seq<Answer>,
    offer: Meaning,
    forced: bool,
    dir: Option<Seq<char>>,
)
    ensures
        remove_offer_spec(rest, offer, forced, dir) matches Progress::Waiting(request)
            ==> concerns_offer(request, offer, forced, dir),
{
    match offer.worktree {
        None => {
            lemma_remove_branch(rest, offer, forced, dir);
        },
        Some(tree) => {
            let licensed = forced || offer.dirty;
            lemma_remove_worktree(rest, tree, offer.missing, licensed);
            lemma_payload(tree, offer.branch, crate::app::removal::finish::main_path(dir));
            assert forall|left: Seq<Answer>|
                offer_alone(
                    #[trigger] remove_branch_spec(left, offer, forced, dir),
                    offer,
                    forced,
                    dir,
                ) by {
                lemma_remove_branch(left, offer, forced, dir);
            }
        },
    }
}

/// A removal of several touches what was chosen and nothing else.
pub proof fn removals_touch_only_what_was_chosen(
    rest: Seq<Answer>,
    offers: Seq<Meaning>,
    forced: bool,
    dir: Option<Seq<char>>,
    all: bool,
)
    ensures
        finish_each(rest, offers, forced, dir, all) matches Progress::Waiting(request) ==> exists|
            i: int,
        |
            0 <= i < offers.len() && concerns_offer(request, #[trigger] offers[i], forced, dir),
    decreases offers.len(),
{
    if offers.len() > 0 {
        a_removal_touches_only_its_offer(rest, offers[0], forced, dir);
        match remove_offer_spec(rest, offers[0], forced, dir) {
            Progress::Finished(Ok(gone), left) => {
                let others = offers.drop_first();
                removals_touch_only_what_was_chosen(left, others, forced, dir, all && gone);
                match finish_each(left, others, forced, dir, all && gone) {
                    Progress::Waiting(request) => {
                        let i = choose|i: int|
                            0 <= i < others.len() && concerns_offer(
                                request,
                                #[trigger] others[i],
                                forced,
                                dir,
                            );
                        assert(offers[i + 1] == others[i]);
                    },
                    _ => {},
                }
            },
            Progress::Waiting(_) => {
                assert(offers[0] == offers[0]);
            },
            _ => {},
        }
    }
}

} // verus!
