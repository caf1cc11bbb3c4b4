//! What is never written to standard output.
//!
//! The shell wrapper changes to whatever directory it reads there, so a run
//! that must not move the shell must leave standard output alone.
use vstd::prelude::*;
use vstd::string::*;

use crate::ask::tell_asked;
use crate::error::Meant;
use crate::git::refs::{stale_branches_spec, unmerged_branches_spec};
use crate::git::worktrees::{holding, Tree};
use crate::git::{self, equivalence};
use crate::grammar::{parse_spec, Invocation, Navigation, ShellHandoff, Verb, Words};
use crate::rows::first_of;
use crate::table;
use crate::talk::{Answer, Asked, Mark, Progress};

use super::catalogue;
use super::prefetch::{self, FetchedRemote, Prefetch};
use super::prompts;
use super::reclamation::{self, Record};
use super::removal::{self, assess, finish};
use super::reports;
use super::update;
use super::verbs;
use super::wt;

verus! {

/// Whether the next request writes to standard output.
pub open spec fn prints<T>(progress: Progress<T>) -> bool {
    progress matches Progress::Waiting(request) && request is Print
}

broadcast proof fn lemma_confirm_keys(rest: Seq<Answer>, default_yes: bool)
    ensures
        !prints(#[trigger] prompts::confirm_keys(rest, default_yes)),
    decreases rest.len(),
{
    if rest.len() > 0 {
        lemma_confirm_keys(rest.drop_first(), default_yes);
    }
}

broadcast proof fn lemma_refresh_keys(rest: Seq<Answer>)
    ensures
        !prints(#[trigger] prompts::refresh_keys(rest)),
    decreases rest.len(),
{
    if rest.len() > 0 {
        lemma_refresh_keys(rest.drop_first());
    }
}

broadcast proof fn lemma_spawn_each(rest: Seq<Answer>, records: Seq<Record<Seq<char>>>)
    ensures
        !prints(#[trigger] reclamation::spawn_each(rest, records)),
    decreases records.len(),
{
    if records.len() > 0 {
        match reclamation::spawn_worker_spec(rest, records[0]) {
            Progress::Finished(_, left) => {
                lemma_spawn_each(left, records.drop_first());
            },
            Progress::Waiting(_) => {},
        }
    }
}

broadcast proof fn lemma_any_declares(rest: Seq<Answer>, trees: Seq<Tree>)
    ensures
        !prints(#[trigger] wt::any_declares(rest, trees)),
    decreases trees.len(),
{
    if trees.len() > 0 && rest.len() > 0 {
        lemma_any_declares(rest.drop_first(), trees.drop_first());
    }
}

broadcast proof fn lemma_current_remote(rest: Seq<Answer>, current: Option<Seq<char>>)
    ensures
        !prints(#[trigger] git::current_remote_spec(rest, current)),
{
}

broadcast proof fn lemma_checkout(rest: Seq<Answer>, branch: Seq<char>)
    ensures
        !prints(#[trigger] git::checkout_spec(rest, branch)),
{
}

broadcast proof fn lemma_fast_forward_merge(
    rest: Seq<Answer>,
    dir: Option<Seq<char>>,
    branch: Seq<char>,
    remote: Seq<char>,
)
    ensures
        !prints(#[trigger] git::fast_forward_merge_spec(rest, dir, branch, remote)),
{
}

broadcast proof fn lemma_stale_branches(rest: Seq<Answer>, remote: Seq<char>)
    ensures
        !prints(#[trigger] stale_branches_spec(rest, remote)),
{
}

broadcast proof fn lemma_worktree_add(
    rest: Seq<Answer>,
    path: Seq<char>,
    branch: Seq<char>,
    base: Option<Seq<char>>,
)
    ensures
        !prints(#[trigger] git::worktrees::worktree_add_spec(rest, path, branch, base)),
{
}

broadcast proof fn lemma_report_stash_pop(rest: Seq<Answer>)
    ensures
        !prints(#[trigger] reports::report_stash_pop_spec(rest)),
{
}

broadcast proof fn lemma_report_fetch_failure(
    rest: Seq<Answer>,
    outcome: git::FetchOutcome<Seq<char>>,
)
    ensures
        !prints(#[trigger] reports::report_fetch_failure_spec(rest, outcome)),
{
    broadcast use reports::lemma_indented_only_tells;

}

broadcast proof fn lemma_fetch_unless_covered(
    rest: Seq<Answer>,
    dir: Option<Seq<char>>,
    remote: Seq<char>,
    fetched: Option<FetchedRemote<Seq<char>>>,
)
    ensures
        !prints(#[trigger] prefetch::fetch_unless_covered_spec(rest, dir, remote, fetched)),
{
}

broadcast proof fn lemma_prefetch_start(rest: Seq<Answer>, remote: Seq<char>)
    ensures
        !prints(#[trigger] prefetch::start_spec(rest, remote)),
{
}

broadcast proof fn lemma_prefetch_join(rest: Seq<Answer>, started: Prefetch<Seq<char>>)
    ensures
        !prints(#[trigger] prefetch::join_spec(rest, started)),
{
    broadcast use lemma_report_fetch_failure;

}

broadcast proof fn lemma_retry(rest: Seq<Answer>)
    ensures
        !prints(#[trigger] reclamation::retry_spec(rest)),
{
    broadcast use lemma_spawn_each;

}

broadcast proof fn lemma_confirm(rest: Seq<Answer>, question: Seq<char>, default_yes: bool)
    ensures
        !prints(#[trigger] prompts::confirm_spec(rest, question, default_yes)),
{
    broadcast use lemma_confirm_keys;

}

broadcast proof fn lemma_prompt_keep_discard(
    rest: Seq<Answer>,
    branch: Seq<char>,
    remote_ref: Seq<char>,
    ahead: u32,
    behind: u32,
)
    ensures
        !prints(
            #[trigger] prompts::prompt_keep_discard_spec(rest, branch, remote_ref, ahead, behind),
        ),
{
    broadcast use lemma_refresh_keys;

}

broadcast proof fn lemma_any_exact(
    rest: Seq<Answer>,
    dir: Option<Seq<char>>,
    commits: Words,
    wanted: Seq<char>,
)
    ensures
        !prints(#[trigger] equivalence::any_exact(rest, dir, commits, wanted)),
    decreases commits.len(),
{
    if commits.len() > 0 {
        match equivalence::verbatim_patch_id_spec(rest, dir, equivalence::commit_diff(commits[0])) {
            Progress::Finished(_, left) => {
                lemma_any_exact(left, dir, commits.drop_first(), wanted);
            },
            Progress::Waiting(_) => {},
        }
    }
}

broadcast proof fn lemma_equivalent_to(
    rest: Seq<Answer>,
    dir: Option<Seq<char>>,
    anchor: Seq<char>,
    tip: Seq<char>,
)
    ensures
        !prints(#[trigger] equivalence::equivalent_to_spec(rest, dir, anchor, tip)),
{
    broadcast use lemma_any_exact;

}

broadcast proof fn lemma_proofs(
    rest: Seq<Answer>,
    dir: Option<Seq<char>>,
    anchor_ref: Seq<char>,
    anchor_tip: Seq<char>,
    candidates: Words,
    found: Seq<(Seq<char>, git::Proof<Seq<char>>)>,
)
    ensures
        !prints(
            #[trigger] equivalence::proofs_spec(
                rest,
                dir,
                anchor_ref,
                anchor_tip,
                candidates,
                found,
            ),
        ),
    decreases candidates.len(),
{
    broadcast use lemma_equivalent_to;

    if candidates.len() > 0 {
        let name = candidates[0];
        let others = candidates.drop_first();
        match git::resolve_spec(rest, dir, git::upstream::head_ref(name)) {
            Progress::Waiting(_) => {},
            Progress::Finished(None, left) => {
                lemma_proofs(left, dir, anchor_ref, anchor_tip, others, found);
            },
            Progress::Finished(Some(tip), left) => {
                match equivalence::equivalent_to_spec(left, dir, anchor_tip, tip) {
                    Progress::Waiting(_) => {},
                    Progress::Finished(proven, left) => {
                        let more = if proven {
                            table::put(found, name, git::Proof { anchor_ref, anchor_tip, tip })
                        } else {
                            found
                        };
                        lemma_proofs(left, dir, anchor_ref, anchor_tip, others, more);
                    },
                }
            },
        }
    }
}

broadcast proof fn lemma_proofs_for(
    rest: Seq<Answer>,
    dir: Option<Seq<char>>,
    remote: Seq<char>,
    risky: Words,
)
    ensures
        !prints(#[trigger] assess::proofs_for_spec(rest, dir, remote, risky)),
{
    broadcast use lemma_proofs;

}

broadcast proof fn lemma_unmerged_branches(rest: Seq<Answer>, dir: Option<Seq<char>>)
    ensures
        !prints(#[trigger] unmerged_branches_spec(rest, dir)),
{
}

broadcast proof fn lemma_stale_offers(
    rest: Seq<Answer>,
    stale: Seq<assess::Stale>,
    trees: Seq<Tree>,
    refusals: assess::Refusals,
    proofs: Seq<(Seq<char>, git::Proof<Seq<char>>)>,
    old_branch: Option<Seq<char>>,
    found: Seq<assess::Meaning>,
)
    ensures
        !prints(
            #[trigger] assess::stale_offers_spec(
                rest,
                stale,
                trees,
                refusals,
                proofs,
                old_branch,
                found,
            ),
        ),
    decreases stale.len(),
{
    if stale.len() > 0 {
        let others = stale.drop_first();
        let holder = first_of(trees, holding(stale[0].name));
        lemma_stale_offers(rest, others, trees, refusals, proofs, old_branch, found);
        match assess::holder_dirty_spec(rest, holder) {
            Progress::Waiting(_) => {},
            Progress::Finished(dirty, left) => {
                let offer = assess::stale_offer(
                    found.len(),
                    stale[0],
                    holder,
                    dirty,
                    refusals,
                    proofs,
                    old_branch,
                );
                lemma_stale_offers(
                    left,
                    others,
                    trees,
                    refusals,
                    proofs,
                    old_branch,
                    found.push(offer),
                );
            },
        }
    }
}

broadcast proof fn lemma_assess_stale(
    rest: Seq<Answer>,
    stale: Seq<git::StaleBranch<Seq<char>>>,
    trees: Seq<Tree>,
    remote: Seq<char>,
    old_branch: Option<Seq<char>>,
    destination: Option<Seq<char>>,
)
    ensures
        !prints(
            #[trigger] assess::assess_stale_spec(
                rest,
                stale,
                trees,
                remote,
                old_branch,
                destination,
            ),
        ),
{
    broadcast use {lemma_unmerged_branches, lemma_proofs_for, lemma_stale_offers};

}

broadcast proof fn lemma_initialized_among(
    rest: Seq<Answer>,
    below: Seq<char>,
    entries: Seq<Seq<u8>>,
)
    ensures
        !prints(#[trigger] git::worktrees::initialized_among(rest, below, entries)),
    decreases entries.len(),
{
    if entries.len() > 0 {
        lemma_initialized_among(rest, below, entries.drop_first());
        if rest.len() > 0 {
            lemma_initialized_among(rest.drop_first(), below, entries.drop_first());
        }
    }
}

broadcast proof fn lemma_unset_each(rest: Seq<Answer>, dir: Option<Seq<char>>, keys: Words)
    ensures
        !prints(#[trigger] git::deletion::unset_each(rest, dir, keys)),
    decreases keys.len(),
{
    if keys.len() > 0 && rest.len() > 0 {
        lemma_unset_each(rest.drop_first(), dir, keys.drop_first());
    }
}

broadcast proof fn lemma_unused_from(
    rest: Seq<Answer>,
    original: Seq<char>,
    dir: Seq<char>,
    name: Seq<char>,
    process: u32,
    nonce: u128,
    attempt: nat,
)
    ensures
        !prints(
            #[trigger] reclamation::unused_from(
                rest,
                original,
                dir,
                name,
                process,
                nonce,
                attempt,
            ),
        ),
    decreases 100 - attempt,
{
    if attempt < 100 && rest.len() > 0 {
        lemma_unused_from(rest.drop_first(), original, dir, name, process, nonce, attempt + 1);
    }
}

broadcast proof fn lemma_stage(rest: Seq<Answer>, original: Seq<char>)
    ensures
        !prints(#[trigger] reclamation::stage_spec(rest, original)),
{
    broadcast use lemma_unused_from;

}

broadcast proof fn lemma_settle(
    rest: Seq<Answer>,
    staged: reclamation::Staged<Seq<char>>,
    removed: Meant<git::WorktreeRemoveOutcome<Seq<char>>>,
)
    ensures
        !prints(#[trigger] finish::settle_spec(rest, staged, removed)),
{
}

broadcast proof fn lemma_worktree_remove(rest: Seq<Answer>, path: Seq<char>, force: bool)
    ensures
        !prints(#[trigger] git::worktrees::worktree_remove_spec(rest, path, force)),
{
}

broadcast proof fn lemma_remove_worktree(
    rest: Seq<Answer>,
    path: Seq<char>,
    missing: bool,
    force: bool,
)
    ensures
        !prints(#[trigger] finish::remove_worktree_spec(rest, path, missing, force)),
{
    broadcast use {
        lemma_initialized_among,
        lemma_stage,
        lemma_settle,
        lemma_worktree_remove,
    };

}

broadcast proof fn lemma_delete_branch_at(
    rest: Seq<Answer>,
    dir: Option<Seq<char>>,
    branch: Seq<char>,
    expected: Seq<char>,
)
    ensures
        !prints(#[trigger] git::deletion::delete_branch_at_spec(rest, dir, branch, expected)),
{
    broadcast use lemma_unset_each;

}

broadcast proof fn lemma_remove_branch(
    rest: Seq<Answer>,
    offer: assess::Meaning,
    forced: bool,
    dir: Option<Seq<char>>,
)
    ensures
        !prints(#[trigger] finish::remove_branch_spec(rest, offer, forced, dir)),
{
    broadcast use lemma_delete_branch_at;

}

broadcast proof fn lemma_remove_offer(
    rest: Seq<Answer>,
    offer: assess::Meaning,
    forced: bool,
    dir: Option<Seq<char>>,
)
    ensures
        !prints(#[trigger] finish::remove_offer_spec(rest, offer, forced, dir)),
{
    broadcast use {lemma_remove_worktree, lemma_remove_branch};

}

broadcast proof fn lemma_finish_each(
    rest: Seq<Answer>,
    offers: Seq<assess::Meaning>,
    forced: bool,
    dir: Option<Seq<char>>,
    all: bool,
)
    ensures
        !prints(#[trigger] finish::finish_each(rest, offers, forced, dir, all)),
    decreases offers.len(),
{
    broadcast use lemma_remove_offer;

    if offers.len() > 0 {
        match finish::remove_offer_spec(rest, offers[0], forced, dir) {
            Progress::Finished(Ok(gone), left) => {
                lemma_finish_each(left, offers.drop_first(), forced, dir, all && gone);
            },
            _ => {},
        }
    }
}

/// The cleanup prompt leaves standard output alone.
pub broadcast proof fn the_sweep_prints_nothing(
    rest: Seq<Answer>,
    old_branch: Option<Seq<char>>,
    destination: Option<Seq<char>>,
    remote: Seq<char>,
)
    ensures
        !prints(
            #[trigger] removal::prompt_delete_stale_branches_spec(
                rest,
                old_branch,
                destination,
                remote,
            ),
        ),
{
    broadcast use {lemma_stale_branches, lemma_assess_stale, lemma_finish_each};

}

broadcast proof fn lemma_fetch_and_ff(
    rest: Seq<Answer>,
    dir: Option<Seq<char>>,
    branch: Seq<char>,
    remote: Seq<char>,
    fetched: Option<FetchedRemote<Seq<char>>>,
)
    ensures
        !prints(#[trigger] update::fetch_and_ff_spec(rest, dir, branch, remote, fetched)),
{
    broadcast use {
        lemma_fetch_unless_covered,
        lemma_fast_forward_merge,
        lemma_report_fetch_failure,
    };

}

broadcast proof fn lemma_rebase_onto(rest: Seq<Answer>, remote_ref: Seq<char>)
    ensures
        !prints(#[trigger] update::rebase_onto_spec(rest, remote_ref)),
{
}

broadcast proof fn lemma_reconcile_diverged(
    rest: Seq<Answer>,
    branch: Seq<char>,
    remote: Seq<char>,
)
    ensures
        !prints(#[trigger] update::reconcile_diverged_spec(rest, branch, remote)),
{
    broadcast use {lemma_confirm, lemma_rebase_onto};

}

/// A refresh of the branch that is checked out leaves standard output alone.
pub broadcast proof fn a_refresh_prints_nothing(
    rest: Seq<Answer>,
    remote: Seq<char>,
    current: Seq<char>,
)
    ensures
        !prints(#[trigger] update::refresh_current_spec(rest, remote, current)),
{
    broadcast use {
        lemma_fast_forward_merge,
        lemma_prompt_keep_discard,
        lemma_rebase_onto,
        lemma_report_fetch_failure,
        lemma_report_stash_pop,
    };

}

broadcast proof fn lemma_update_in(
    rest: Seq<Answer>,
    path: Seq<char>,
    branch: Seq<char>,
    remote: Seq<char>,
    fetched: Option<FetchedRemote<Seq<char>>>,
)
    ensures
        !prints(#[trigger] update::update_in_spec(rest, path, branch, remote, fetched)),
{
    broadcast use lemma_fetch_and_ff;

}

broadcast proof fn lemma_switch_and_update(
    rest: Seq<Answer>,
    target: Seq<char>,
    old_branch: Option<Seq<char>>,
    remote: Seq<char>,
)
    ensures
        !prints(#[trigger] verbs::switch_and_update_spec(rest, target, old_branch, remote)),
{
    broadcast use {
        lemma_checkout,
        lemma_fetch_and_ff,
        lemma_reconcile_diverged,
        the_sweep_prints_nothing,
    };

}

/// Switching in place leaves standard output alone: the shell is where it
/// should be.
pub broadcast proof fn a_switch_in_place_prints_nothing(
    rest: Seq<Answer>,
    target: Seq<char>,
    old_branch: Option<Seq<char>>,
    remote: Seq<char>,
)
    ensures
        !prints(#[trigger] verbs::in_place_spec(rest, target, old_branch, remote)),
{
    broadcast use {lemma_checkout, lemma_report_stash_pop, lemma_switch_and_update};

}

/// `br` never hands the shell anywhere: whatever is named or picked, and
/// whatever comes of it, it leaves standard output alone.
pub proof fn a_checkout_here_prints_nothing(rest: Seq<Answer>, target: Option<Seq<char>>)
    ensures
        !prints(verbs::run_verb_spec(rest, Verb::Here, target)),
{
    broadcast use {
        lemma_current_remote,
        a_refresh_prints_nothing,
        a_switch_in_place_prints_nothing,
    };

}

broadcast proof fn lemma_prefetched(
    rest: Seq<Answer>,
    target: Option<Seq<char>>,
    trees: Seq<Tree>,
    remote: Seq<char>,
)
    ensures
        !prints(#[trigger] wt::prefetched_spec(rest, target, trees, remote)),
{
    broadcast use {lemma_any_declares, lemma_prefetch_start};

}

broadcast proof fn lemma_create_worktree(
    rest: Seq<Answer>,
    main_path: Seq<char>,
    name: Seq<char>,
    branch: Seq<char>,
    base: Option<Seq<char>>,
    remote: Seq<char>,
    fetched: Option<FetchedRemote<Seq<char>>>,
)
    ensures
        !prints(
            #[trigger] wt::create_worktree_spec(
                rest,
                main_path,
                name,
                branch,
                base,
                remote,
                fetched,
            ),
        ),
{
    broadcast use {
        lemma_fetch_unless_covered,
        lemma_report_fetch_failure,
        lemma_worktree_add,
    };

}

broadcast proof fn lemma_act(
    rest: Seq<Answer>,
    action: wt::Action<Seq<char>>,
    main_path: Seq<char>,
    name: Option<Seq<char>>,
    handoff: ShellHandoff,
    remote: Seq<char>,
    fetched: Option<FetchedRemote<Seq<char>>>,
)
    ensures
        !prints(
            #[trigger] wt::act_spec(rest, action, main_path, name, handoff, remote, fetched),
        ),
{
    broadcast use {lemma_create_worktree, lemma_current_remote, lemma_update_in};

}

broadcast proof fn lemma_give_worktree(
    rest: Seq<Answer>,
    branch: Seq<char>,
    existence: wt::Existence,
    name: Option<Seq<char>>,
    remote: Seq<char>,
    fetched: Option<FetchedRemote<Seq<char>>>,
)
    ensures
        !prints(
            #[trigger] wt::give_worktree_spec(
                rest,
                branch,
                existence,
                name,
                ShellHandoff::Suppress,
                remote,
                fetched,
            ),
        ),
{
    broadcast use {lemma_act, the_sweep_prints_nothing};

}

/// `wt --no-switch` finds or creates the worktree and leaves standard output
/// alone.
pub proof fn a_suppressed_handoff_prints_nothing(
    rest: Seq<Answer>,
    name: Option<Seq<char>>,
    target: Option<Seq<char>>,
)
    ensures
        !prints(wt::run_spec(rest, name, target, ShellHandoff::Suppress)),
{
    broadcast use {
        lemma_current_remote,
        lemma_prefetched,
        lemma_prefetch_join,
        lemma_give_worktree,
    };

}

/// The line that says where a worktree was found.
pub open spec fn found_told(
    branch: Seq<char>,
    shown: Seq<char>,
    handoff: ShellHandoff,
) -> Asked {
    Asked::Tell { mark: Mark::Arrow, text: wt::found_line(branch, shown, handoff) }
}

/// Whether a run does what another does but for the hand-off: it asks for the
/// same, up to the line that says where a worktree was found, it fails alike,
/// and where it is done the other has at most a directory left to hand over.
pub open spec fn lacks_only_the_handoff(
    quiet: Progress<Meant<()>>,
    whole: Progress<Meant<()>>,
) -> bool {
    match quiet {
        Progress::Waiting(asked) => whole == quiet || exists|branch: Seq<char>, shown: Seq<char>|
            asked == #[trigger] found_told(branch, shown, ShellHandoff::Suppress) && whole
                == Progress::<Meant<()>>::Waiting(found_told(branch, shown, ShellHandoff::Emit)),
        Progress::Finished(Err(_), _) => whole == quiet,
        Progress::Finished(Ok(_), left) => whole == quiet || exists|path: Seq<char>|
            whole == #[trigger] verbs::handed_off_spec(left, Some(path)),
    }
}

proof fn lemma_act_lacks_only_the_handoff(
    rest: Seq<Answer>,
    action: wt::Action<Seq<char>>,
    main_path: Seq<char>,
    name: Option<Seq<char>>,
    remote: Seq<char>,
    fetched: Option<FetchedRemote<Seq<char>>>,
)
    ensures
        ({
            let quiet = wt::act_spec(
                rest,
                action,
                main_path,
                name,
                ShellHandoff::Suppress,
                remote,
                fetched,
            );
            let whole = wt::act_spec(
                rest,
                action,
                main_path,
                name,
                ShellHandoff::Emit,
                remote,
                fetched,
            );
            whole == quiet || exists|branch: Seq<char>, shown: Seq<char>|
                quiet == Progress::<Meant<(Seq<char>, Seq<char>)>>::Waiting(
                    #[trigger] found_told(branch, shown, ShellHandoff::Suppress),
                ) && whole == Progress::<Meant<(Seq<char>, Seq<char>)>>::Waiting(
                    found_told(branch, shown, ShellHandoff::Emit),
                )
        }),
{
    if let wt::Action::UseExisting(tree) = action {
        let branch = wt::branch_or_none(tree.branch);
        match git::current_remote_spec(rest, Some(branch)) {
            Progress::Finished(own, rest) => match update::update_in_spec(
                rest,
                tree.path,
                branch,
                own,
                fetched,
            ) {
                Progress::Finished(updated, rest) => match verbs::updated_or_told_spec(
                    rest,
                    branch,
                    updated,
                ) {
                    Progress::Finished(_, rest) => match reports::display_path_spec(
                        rest,
                        tree.path,
                    ) {
                        Progress::Finished(shown, rest) => {
                            assert(found_told(branch, shown, ShellHandoff::Suppress) is Tell);
                        },
                        _ => {},
                    },
                    _ => {},
                },
                _ => {},
            },
            _ => {},
        }
    }
}

proof fn lemma_arrival_lacks_only_the_handoff(
    rest: Seq<Answer>,
    path: Seq<char>,
    branch: Seq<char>,
    remote: Seq<char>,
)
    ensures
        lacks_only_the_handoff(
            wt::arrived_spec(rest, path, branch, remote, ShellHandoff::Suppress),
            wt::arrived_spec(rest, path, branch, remote, ShellHandoff::Emit),
        ),
{
    match removal::prompt_delete_stale_branches_spec(rest, None, Some(branch), remote) {
        Progress::Waiting(_) => {},
        Progress::Finished(Ok(_), left) => {
            assert(verbs::handed_off_spec(left, None) == Progress::<Meant<()>>::Finished(
                Ok(()),
                left,
            ));
        },
        Progress::Finished(Err(e), left) => {
            if !e.interrupted() {
                match tell_asked(
                    left,
                    Mark::Warning,
                    "stale-branch check failed: "@ + e.message(),
                ) {
                    Progress::Finished(_, left) => {
                        assert(verbs::handed_off_spec(left, None) == Progress::<
                            Meant<()>,
                        >::Finished(Ok(()), left));
                    },
                    Progress::Waiting(_) => {},
                }
            }
        },
    }
}

proof fn lemma_give_lacks_only_the_handoff(
    rest: Seq<Answer>,
    branch: Seq<char>,
    existence: wt::Existence,
    name: Option<Seq<char>>,
    remote: Seq<char>,
    fetched: Option<FetchedRemote<Seq<char>>>,
)
    ensures
        lacks_only_the_handoff(
            wt::give_worktree_spec(
                rest,
                branch,
                existence,
                name,
                ShellHandoff::Suppress,
                remote,
                fetched,
            ),
            wt::give_worktree_spec(
                rest,
                branch,
                existence,
                name,
                ShellHandoff::Emit,
                remote,
                fetched,
            ),
        ),
{
    match catalogue::live_worktrees_spec(rest) {
        Progress::Finished(Ok(trees), rest) => match wt::main_of_spec(trees) {
            Ok(main) => match wt::resolve_target_spec(rest, branch, existence, trees, remote) {
                Progress::Finished(Ok(action), rest) => {
                    lemma_act_lacks_only_the_handoff(
                        rest,
                        action,
                        main.path,
                        name,
                        remote,
                        fetched,
                    );
                    match wt::act_spec(
                        rest,
                        action,
                        main.path,
                        name,
                        ShellHandoff::Suppress,
                        remote,
                        fetched,
                    ) {
                        Progress::Finished(Ok((path, held)), rest) => {
                            lemma_arrival_lacks_only_the_handoff(rest, path, held, remote);
                        },
                        _ => {},
                    }
                },
                _ => {},
            },
            Err(_) => {},
        },
        _ => {},
    }
}

/// `wt --no-switch` differs from `wt` in the hand-off alone: creation, fetching,
/// hooks and the cleanup prompt run as usual.
pub proof fn no_switch_changes_only_the_handoff(
    rest: Seq<Answer>,
    name: Option<Seq<char>>,
    target: Option<Seq<char>>,
)
    ensures
        lacks_only_the_handoff(
            wt::run_spec(rest, name, target, ShellHandoff::Suppress),
            wt::run_spec(rest, name, target, ShellHandoff::Emit),
        ),
{
    match git::current_branch_spec(rest) {
        Progress::Finished(Ok(current), rest) => match git::current_remote_spec(rest, current) {
            Progress::Finished(remote, rest) => match catalogue::live_worktrees_spec(rest) {
                Progress::Finished(Ok(listed), rest) => match wt::prefetched_spec(
                    rest,
                    target,
                    listed,
                    remote,
                ) {
                    Progress::Finished(started, rest) => match wt::choose_spec(
                        rest,
                        target,
                        listed,
                        current,
                        remote,
                    ) {
                        Progress::Finished(Ok(Some((branch, existence))), rest) => {
                            match wt::joined_spec(rest, started) {
                                Progress::Finished(fetched, rest) => {
                                    lemma_give_lacks_only_the_handoff(
                                        rest,
                                        branch,
                                        existence,
                                        name,
                                        remote,
                                        fetched,
                                    );
                                },
                                _ => {},
                            }
                        },
                        _ => {},
                    },
                    _ => {},
                },
                _ => {},
            },
            _ => {},
        },
        _ => {},
    }
}

/// Whether a command line says that the shell stays where it is: a checkout
/// here, or a worktree to make or find without switching to it.
pub open spec fn stays_put(invocation: Invocation<Seq<char>>) -> bool {
    match invocation {
        Invocation::Navigate(Navigation::Here(_)) => true,
        Invocation::Navigate(Navigation::Worktree { shell_handoff, .. }) => shell_handoff
            == ShellHandoff::Suppress,
        _ => false,
    }
}

/// A command line that says that the shell stays where it is never writes to
/// standard output, whatever the world answers.
pub proof fn a_shell_that_stays_put_is_told_nothing(rest: Seq<Answer>, args: Words)
    requires
        parse_spec(args) matches Ok(invocation) && stays_put(invocation),
    ensures
        !prints(crate::run_spec(rest, args)),
{
    let invocation = parse_spec(args)->Ok_0;
    match invocation {
        Invocation::Navigate(Navigation::Here(target)) => {
            a_checkout_here_prints_nothing(rest, target);
        },
        Invocation::Navigate(Navigation::Worktree { worktree_name, target, .. }) => {
            lemma_retry(rest);
            match reclamation::retry_spec(rest) {
                Progress::Finished(_, left) => {
                    a_suppressed_handoff_prints_nothing(left, worktree_name, target);
                },
                Progress::Waiting(_) => {},
            }
        },
        _ => {},
    }
}

} // verus!
