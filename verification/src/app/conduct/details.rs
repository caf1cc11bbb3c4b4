//! The smaller promises: lists, hooks, hand-offs, records and lines.
use vstd::prelude::*;
use vstd::string::*;

use crate::app::catalogue::{
    branch_row, build_catalogue_spec, picked_spec, select_branch_spec, CatalogueModel,
};
use crate::app::hook::{fire_spec, HookEvent};
use crate::app::prompts::prompt_keep_discard_spec;
use crate::app::reclamation::{
    acceptable, configured_records_spec, decoded, delete_ready_spec, encoded, forget_config_spec,
    moved_aside_spec, spawn_each, Record,
};
use crate::app::removal::assess::Meaning;
use crate::app::removal::finish::{finish_each, remove_offer_spec};
use crate::app::reports::handoff_cd_spec;
use crate::app::update::refresh_current_spec;
use crate::app::verbs::run_verb_spec;
use crate::app::wt::{choose_spec, ls_line, select_spec, Existence};
use crate::ask::{args2, args3, args4, args7};
use crate::error::{Error, IoKind, Meant};
use crate::git::worktrees::{worktree_add_spec, worktree_dirty_spec, Tree};
use crate::git;
use crate::grammar::Verb;
use crate::table;
use crate::talk::{Answer, Asked, Mark, Picked, Progress};
use crate::text;

use super::choosing::then_come;
use super::steps::{complained, printed, told};
use super::{fails, runs_words, went_well, went_wrong};

verus! {

// ---------------------------------------------------------------------------
// Lists of branches
// ---------------------------------------------------------------------------

/// The row of a branch carries its name. One that a worktree elsewhere holds
/// shows that worktree's path, and only `br` cannot select it; any other can be
/// selected and shows nothing. The branch that is checked out is marked, and no
/// other.
pub proof fn a_row_shows_who_holds_its_branch(
    catalogue: CatalogueModel,
    verb: Verb,
    name: Seq<char>,
    path: Seq<char>,
)
    ensures
        ({
            let shown = branch_row(catalogue, verb, name);
            let held = table::get(catalogue.held, name);
            let here = catalogue.current == Some(name);
            &&& shown.name == name
            &&& shown.ticked == here
            &&& here || held is None ==> shown.selectable && shown.detail.len() == 0
            &&& !here && held == Some(path) && verb != Verb::Here ==> shown.selectable
                && shown.detail == path
            &&& !here && held == Some(path) && verb == Verb::Here ==> !shown.selectable
                && shown.detail == "in "@ + path + " — use `perch`"@
        }),
{
}

/// A name typed into the list may be created; one picked from it has to exist.
/// Nothing picked is nothing to do. A name given on the command line is not
/// asked about.
pub proof fn only_a_typed_name_may_be_created(
    rest: Seq<Answer>,
    trees: Seq<Tree>,
    current: Option<Seq<char>>,
    remote: Seq<char>,
    catalogue: CatalogueModel,
    name: Seq<char>,
    others: Seq<Answer>,
    reply: Option<Picked<Seq<char>>>,
)
    requires
        build_catalogue_spec(rest, current, remote, trees) == Progress::<
            Meant<CatalogueModel>,
        >::Finished(
            Ok(catalogue),
            then_come(Answer::Flag(true), then_come(Answer::Picked(Ok(reply)), others)),
        ),
    ensures
        select_spec(rest, trees, current, remote) == Progress::<
            Meant<Option<(Seq<char>, Existence)>>,
        >::Finished(
            Ok(
                match reply {
                    None => None,
                    Some(Picked::Create(typed)) => Some((typed, Existence::MayCreate)),
                    Some(Picked::Existing(picked)) => Some((picked, Existence::MustExist)),
                },
            ),
            others,
        ),
        choose_spec(rest, Some(name), trees, current, remote) == Progress::<
            Meant<Option<(Seq<char>, Existence)>>,
        >::Finished(Ok(Some((name, Existence::MayCreate))), rest),
        forall|verb: Verb| #[trigger]
            select_branch_spec(rest, current, remote, trees, verb) == Progress::<
                Meant<Option<Seq<char>>>,
            >::Finished(
                Ok(
                    match reply {
                        Some(Picked::Existing(picked)) => Some(picked),
                        _ => None,
                    },
                ),
                others,
            ),
{
    let asked = then_come(Answer::Picked(Ok(reply)), others);
    assert(asked.drop_first() =~= others);
    assert(asked[0] == Answer::Picked(Ok(reply)));
    assert(then_come(Answer::Flag(true), asked).drop_first() =~= asked);
    assert(then_come(Answer::Flag(true), asked)[0] == Answer::Flag(true));
}

/// `.` refreshes the branch that is checked out, and is an error where none is;
/// it is no branch to go to.
pub proof fn a_dot_refreshes_what_is_checked_out(
    rest: Seq<Answer>,
    verb: Verb,
    current: Seq<char>,
    named: Seq<Answer>,
    remote: Seq<char>,
    left: Seq<Answer>,
)
    requires
        git::current_branch_spec(rest) == Progress::<Meant<Option<Seq<char>>>>::Finished(
            Ok(Some(current)),
            named,
        ),
        git::current_remote_spec(named, Some(current)) == Progress::Finished(remote, left),
    ensures
        run_verb_spec(rest, verb, Some("."@)) == refresh_current_spec(left, remote, current),
{
}

/// Without a branch checked out there is nothing that `.` could refresh.
pub proof fn a_dot_needs_a_branch(
    rest: Seq<Answer>,
    verb: Verb,
    named: Seq<Answer>,
    remote: Seq<char>,
    left: Seq<Answer>,
)
    requires
        git::current_branch_spec(rest) == Progress::<Meant<Option<Seq<char>>>>::Finished(
            Ok(None),
            named,
        ),
        git::current_remote_spec(named, None) == Progress::Finished(remote, left),
    ensures
        run_verb_spec(rest, verb, Some("."@)) == Progress::<Meant<()>>::Finished(
            Err(Error::Detached),
            left,
        ),
{
}

// ---------------------------------------------------------------------------
// Lines
// ---------------------------------------------------------------------------

/// A line of `wt ls` ends in the worktree's path, and starts with a mark
/// exactly where it is the main one.
pub proof fn a_listed_worktree_shows_its_path(
    tree: Tree,
    branch_width: nat,
    status: Seq<char>,
    status_width: nat,
    width: nat,
)
    ensures
        ({
            let line = ls_line(tree, branch_width, status, status_width, width);
            &&& text::ends_with(line, tree.path)
            &&& line[0] == '*' <==> tree.is_main
        }),
{
    reveal_strlit("*");
    reveal_strlit(" ");
    reveal_strlit("  ");
    let line = ls_line(tree, branch_width, status, status_width, width);
    assert(line.skip(line.len() - tree.path.len()) =~= tree.path);
}

/// The prompt over uncommitted work first says what the remote has, counted,
/// and how many local commits stand against it, and that there are uncommitted
/// changes.
pub proof fn a_refresh_says_what_is_coming(
    branch: Seq<char>,
    remote_ref: Seq<char>,
    ahead: u32,
    behind: u32,
    first: Answer,
)
    ensures
        ahead == 0 ==> prompt_keep_discard_spec(Seq::empty(), branch, remote_ref, ahead, behind)
            == told::<Meant<Option<crate::app::prompts::RefreshChoice>>>(
            Mark::Plain,
            remote_ref + " has "@ + text::decimal(behind as nat) + " new "@ + (if behind == 1 {
                "commit"@
            } else {
                "commit"@ + "s"@
            }) + "."@,
        ),
        ahead > 0 ==> prompt_keep_discard_spec(Seq::empty(), branch, remote_ref, ahead, behind)
            == told::<Meant<Option<crate::app::prompts::RefreshChoice>>>(
            Mark::Plain,
            branch + " has diverged from "@ + remote_ref + ": "@ + text::decimal(ahead as nat)
                + " local "@ + (if ahead == 1 {
                "commit"@
            } else {
                "commit"@ + "s"@
            }) + " not on the remote, "@ + text::decimal(behind as nat)
                + " on the remote not yet local."@,
        ),
        prompt_keep_discard_spec(
            Seq::empty().push(first),
            branch,
            remote_ref,
            ahead,
            behind,
        ) == told::<Meant<Option<crate::app::prompts::RefreshChoice>>>(
            Mark::Plain,
            "Working tree has uncommitted changes."@,
        ),
{
    assert(Seq::empty().push(first).drop_first() =~= Seq::<Answer>::empty());
}

/// A directory is handed to the shell as a line on standard output, or where
/// that is a terminal to the user, who is told to go there.
pub proof fn a_handoff_names_its_directory(path: Seq<char>, first: Answer)
    ensures
        ({
            let none: Seq<Answer> = Seq::empty();
            let piped = none.push(Answer::Flag(false));
            let shown = none.push(Answer::Flag(true));
            &&& handoff_cd_spec(piped, path) == Progress::<()>::Waiting(
                Asked::Print(path + "\n"@),
            )
            &&& handoff_cd_spec(shown.push(first), path) == told::<()>(
                Mark::Plain,
                "  cd "@ + path,
            )
        }),
{
    let none: Seq<Answer> = Seq::empty();
    assert(none.push(Answer::Flag(false)).drop_first() =~= none);
    assert(none.push(Answer::Flag(true)).drop_first() =~= none);
    assert(none.push(Answer::Flag(true)).push(first).drop_first().drop_first() =~= none);
}

// ---------------------------------------------------------------------------
// Worktrees
// ---------------------------------------------------------------------------

/// A worktree is dirty exactly where git, asked in it, prints something; one
/// that git cannot look into counts as clean.
pub proof fn a_worktree_is_dirty_if_git_says_so(path: Seq<char>, looked: Answer)
    requires
        looked is Ran && looked->Ran_0 is Ok,
    ensures
        runs_words(
            worktree_dirty_spec(Seq::empty(), path),
            Some(path),
            args2("status"@, "--porcelain"@),
        ),
        worktree_dirty_spec(Seq::empty().push(looked), path) == Progress::Finished(
            went_well(looked) && printed(looked).len() > 0,
            Seq::<Answer>::empty(),
        ),
{
    assert(Seq::empty().push(looked).drop_first() =~= Seq::<Answer>::empty());
}

/// Git's refusal to add a worktree is final, unless it names one that may be
/// gone: then the registrations of what is gone are cleared, and the same
/// worktree is tried once more.
pub proof fn a_refused_worktree_is_tried_once_more(
    path: Seq<char>,
    branch: Seq<char>,
    base: Option<Seq<char>>,
    refused: Answer,
    pruned: Answer,
    again: Answer,
)
    requires
        went_wrong(refused),
        again is Ran && again->Ran_0 is Ok,
    ensures
        ({
            let none: Seq<Answer> = Seq::empty();
            let one = none.push(refused);
            let words = match base {
                Some(base) => args7("worktree"@, "add"@, "--track"@, "-b"@, branch, path, base),
                None => args4("worktree"@, "add"@, path, branch),
            };
            let held = text::contains(complained(refused), "already registered"@)
                || text::contains(complained(refused), "used by worktree"@);
            &&& runs_words(worktree_add_spec(none, path, branch, base), None, words)
            &&& !held ==> worktree_add_spec(one, path, branch, base) == Progress::<
                Meant<()>,
            >::Finished(
                Err(
                    Error::Git {
                        command: "worktree add"@,
                        message: text::trim(complained(refused)),
                    },
                ),
                none,
            )
            &&& held ==> runs_words(
                worktree_add_spec(one, path, branch, base),
                None,
                args2("worktree"@, "prune"@),
            )
            &&& held ==> runs_words(
                worktree_add_spec(one.push(pruned), path, branch, base),
                None,
                words,
            )
            &&& held ==> (worktree_add_spec(one.push(pruned).push(again), path, branch, base)
                == Progress::<Meant<()>>::Finished(Ok(()), none) <==> went_well(again))
        }),
{
    let none: Seq<Answer> = Seq::empty();
    let one = none.push(refused);
    assert(one.drop_first() =~= none);
    assert(one.push(pruned).drop_first().drop_first() =~= none);
    assert(one.push(pruned).push(again).drop_first().drop_first().drop_first() =~= none);
}

// ---------------------------------------------------------------------------
// Hooks
// ---------------------------------------------------------------------------

/// A hook that is configured for an event is run for that event, in the main
/// worktree and with the command as it is configured. One that fails is told
/// of, and that is all that comes of it.
pub proof fn a_configured_hook_is_run_and_never_asked(
    event: HookEvent,
    worktree: Seq<char>,
    branch: Option<Seq<char>>,
    main: Seq<char>,
    configured: Answer,
    ended: Answer,
    told_so: Answer,
)
    requires
        went_well(configured),
        text::trim(printed(configured)).len() > 0,
        ended is Ran && ended->Ran_0 is Ok,
    ensures
        ({
            let none: Seq<Answer> = Seq::empty();
            let free = none.push(Answer::Variables(Seq::empty()));
            let name = match event {
                HookEvent::Created => "created"@,
                HookEvent::Removed => "removed"@,
            };
            let run = fire_spec(free.push(configured), event, worktree, branch, main);
            let after = fire_spec(
                free.push(configured).push(ended),
                event,
                worktree,
                branch,
                main,
            );
            &&& runs_words(
                fire_spec(free, event, worktree, branch, main),
                None,
                args3("config"@, "--get"@, "perch.hook."@ + name),
            )
            &&& (run matches Progress::Waiting(Asked::Shell { dir, command, .. }) && dir == main
                && command == text::trim(printed(configured)))
            &&& went_well(ended) ==> after == Progress::Finished((), none)
            &&& went_wrong(ended) ==> (after matches Progress::Waiting(Asked::Tell { mark, .. })
                && mark == Mark::Warning)
            &&& went_wrong(ended) ==> fire_spec(
                free.push(configured).push(ended).push(told_so),
                event,
                worktree,
                branch,
                main,
            ) == Progress::Finished((), none)
        }),
{
    let none: Seq<Answer> = Seq::empty();
    let free = none.push(Answer::Variables(Seq::empty()));
    assert(free.drop_first() =~= none);
    assert(free.push(configured).drop_first().drop_first() =~= none);
    assert(free.push(configured).push(ended).drop_first().drop_first().drop_first() =~= none);
    assert(free.push(configured).push(ended).push(
        told_so,
    ).drop_first().drop_first().drop_first().drop_first() =~= none);
}

/// Hooks are turned off by the variable that says so, with any value but an
/// empty one, and by nothing else.
pub proof fn one_variable_turns_hooks_off(
    env: Seq<(Seq<char>, Seq<char>)>,
    event: HookEvent,
    worktree: Seq<char>,
    branch: Option<Seq<char>>,
    main: Seq<char>,
    value: Seq<char>,
)
    ensures
        ({
            let run = fire_spec(
                Seq::empty().push(Answer::Variables(env)),
                event,
                worktree,
                branch,
                main,
            );
            &&& env.contains(("PERCH_NO_HOOKS"@, value)) && value.len() > 0 ==> run
                == Progress::Finished((), Seq::<Answer>::empty())
            &&& (forall|i: int|
                0 <= i < env.len() ==> (#[trigger] env[i]).0 != "PERCH_NO_HOOKS"@ || env[i].1.len()
                    == 0) ==> run is Waiting
        }),
{
    assert(Seq::empty().push(Answer::Variables(env)).drop_first() =~= Seq::<Answer>::empty());
    if env.contains(("PERCH_NO_HOOKS"@, value)) && value.len() > 0 {
        let i = choose|i: int| 0 <= i < env.len() && env[i] == ("PERCH_NO_HOOKS"@, value);
        assert(env[i].0 == "PERCH_NO_HOOKS"@ && env[i].1.len() > 0);
    }
}

// ---------------------------------------------------------------------------
// Records of what was moved aside
// ---------------------------------------------------------------------------

/// A worktree is moved only once a record of the move is written.
pub proof fn a_move_is_recorded_first(
    rest: Seq<Answer>,
    config: Seq<char>,
    original: Seq<char>,
)
    ensures
        moved_aside_spec(rest, config, original) matches Progress::Waiting(
            Asked::Rename { from, to },
        ) ==> from == original && rest.len() > 0 && went_well(rest.last()),
{
    lemma_unused_leaves(rest, original);
    match crate::app::reclamation::unused_trash_path_spec(rest, original) {
        Progress::Finished(Ok(trash), left) => {
            assert(super::left_of(left, rest));
            if left.len() == 1 {
                assert(left[0] == rest.last());
            }
        },
        _ => {},
    }
}

proof fn lemma_unused_leaves(rest: Seq<Answer>, original: Seq<char>)
    ensures
        crate::app::reclamation::unused_trash_path_spec(rest, original) matches Progress::Finished(
            _,
            left,
        ) ==> super::left_of(left, rest),
        crate::app::reclamation::unused_trash_path_spec(rest, original) matches Progress::Waiting(
            request,
        ) ==> request is Stamp || request is Exists,
{
    super::lemma_left_of_itself(rest);
    if rest.len() > 0 {
        super::lemma_left_after_one(rest);
        match (crate::path::parent(original), crate::path::file_name(original)) {
            (Some(dir), Some(name)) => {
                match crate::app::reclamation::stamp_asked(rest) {
                    Progress::Finished((nonce, process), left) => {
                        lemma_unused_from_leaves(left, original, dir, name, process, nonce, 0);
                        match crate::app::reclamation::unused_from(
                            left,
                            original,
                            dir,
                            name,
                            process,
                            nonce,
                            0,
                        ) {
                            Progress::Finished(_, after) => {
                                super::lemma_left_of_left(after, left, rest);
                            },
                            _ => {},
                        }
                    },
                    _ => {},
                }
            },
            _ => {},
        }
    }
}

proof fn lemma_unused_from_leaves(
    rest: Seq<Answer>,
    original: Seq<char>,
    dir: Seq<char>,
    name: Seq<char>,
    process: u32,
    nonce: u128,
    attempt: nat,
)
    ensures
        crate::app::reclamation::unused_from(rest, original, dir, name, process, nonce, attempt)
            matches Progress::Finished(_, left) ==> super::left_of(left, rest),
        crate::app::reclamation::unused_from(rest, original, dir, name, process, nonce, attempt)
            matches Progress::Waiting(request) ==> request is Exists,
    decreases 100 - attempt,
{
    super::lemma_left_of_itself(rest);
    if attempt < 100 && rest.len() > 0 {
        super::lemma_left_after_one(rest);
        lemma_unused_from_leaves(
            rest.drop_first(),
            original,
            dir,
            name,
            process,
            nonce,
            attempt + 1,
        );
        match crate::app::reclamation::unused_from(
            rest.drop_first(),
            original,
            dir,
            name,
            process,
            nonce,
            attempt + 1,
        ) {
            Progress::Finished(_, after) => {
                super::lemma_left_of_left(after, rest.drop_first(), rest);
            },
            _ => {},
        }
    }
}

/// Whether something was tried and done.
pub open spec fn was_done(answer: Answer) -> bool {
    answer matches Answer::Tried(Ok(_))
}

/// A directory is deleted only while it is claimed, and it is the record's own;
/// the record is forgotten only once the directory is gone.
pub proof fn a_record_outlives_its_directory(
    rest: Seq<Answer>,
    config: Seq<char>,
    ready: Record<Seq<char>>,
)
    ensures
        delete_ready_spec(rest, config, ready) matches Progress::Waiting(Asked::RemoveTree(trash))
            ==> trash == ready.trash && rest.len() == 2 && was_done(rest[0]) && was_done(rest[1]),
        delete_ready_spec(rest, config, ready) matches Progress::Waiting(request)
            ==> request is Git ==> rest.len() == 1 && (rest[0] matches Answer::Tried(Err(e))
            && e.kind == IoKind::NotFound) || rest.len() == 3 && went_well(rest[2]),
{
}

/// Every record that an earlier removal left, and whose paths may be acted on,
/// gets a worker of its own, in their order.
pub proof fn every_record_left_gets_a_worker(
    rest: Seq<Answer>,
    records: Seq<Record<Seq<char>>>,
)
    requires
        forall|i: int|
            0 <= i < records.len() ==> acceptable(
                (#[trigger] records[i]).original,
                records[i].trash,
            ),
    ensures
        rest.len() < records.len() ==> spawn_each(rest, records) == Progress::<()>::Waiting(
            Asked::SpawnWorker(encoded(records[rest.len() as int])),
        ),
        rest.len() >= records.len() ==> spawn_each(rest, records) == Progress::Finished(
            (),
            rest.skip(records.len() as int),
        ),
    decreases records.len(),
{
    if records.len() == 0 {
        assert(rest.skip(0) =~= rest);
    } else {
        let others = records.drop_first();
        assert(acceptable(records[0].original, records[0].trash));
        assert forall|i: int| 0 <= i < others.len() implies acceptable(
            (#[trigger] others[i]).original,
            others[i].trash,
        ) by {
            assert(others[i] == records[i + 1]);
        }
        if rest.len() > 0 {
            every_record_left_gets_a_worker(rest.drop_first(), others);
            if rest.len() < records.len() {
                assert(others[rest.len() - 1] == records[rest.len() as int]);
            } else {
                assert(rest.drop_first().skip(others.len() as int) =~= rest.skip(
                    records.len() as int,
                ));
            }
        }
    }
}

// ---------------------------------------------------------------------------
// What the list offers
// ---------------------------------------------------------------------------

/// The list shows the local branches and those that only the remote has, each
/// kind under its own head and in its own order, one row to a branch, under the
/// verb's own prompt. Only `wt` lets a new name be typed.
pub proof fn the_list_shows_every_branch(
    catalogue: CatalogueModel,
    verb: Verb,
    allow_create: bool,
    i: int,
)
    ensures
        picked_spec(Seq::empty().push(Answer::Flag(true)), catalogue, verb, allow_create)
            matches Progress::Waiting(Asked::PickBranch {
            prompt,
            local,
            remote_only,
            allow_create: allowed,
        }) && {
            &&& prompt == match verb {
                Verb::Go => "Switch to"@,
                Verb::Here => "Check out here"@,
                Verb::Worktree => "Worktree"@,
            }
            &&& allowed == allow_create
            &&& local.len() == catalogue.local.len()
            &&& remote_only.len() == catalogue.remote_only.len()
            &&& 0 <= i < local.len() ==> local[i].name == catalogue.local[i]
            &&& 0 <= i < remote_only.len() ==> remote_only[i].name == catalogue.remote_only[i]
        },
{
    assert(Seq::empty().push(Answer::Flag(true)).drop_first() =~= Seq::<Answer>::empty());
}

/// Whether the next request is the branch list, and lets a name be typed or
/// does not.
pub open spec fn lists_branches<T>(progress: Progress<T>, may_type: bool) -> bool {
    progress matches Progress::Waiting(Asked::PickBranch { allow_create, .. }) && allow_create
        == may_type
}

/// `wt` may create what is typed into its list; `perch` and `br` create nothing.
pub proof fn only_the_worktree_list_takes_new_names(
    rest: Seq<Answer>,
    trees: Seq<Tree>,
    current: Option<Seq<char>>,
    remote: Seq<char>,
    catalogue: CatalogueModel,
    verb: Verb,
)
    requires
        build_catalogue_spec(rest, current, remote, trees) == Progress::<
            Meant<CatalogueModel>,
        >::Finished(Ok(catalogue), Seq::empty().push(Answer::Flag(true))),
    ensures
        lists_branches(select_spec(rest, trees, current, remote), true),
        lists_branches(select_branch_spec(rest, current, remote, trees, verb), false),
{
    assert(Seq::empty().push(Answer::Flag(true)).drop_first() =~= Seq::<Answer>::empty());
}

// ---------------------------------------------------------------------------
// One after the other
// ---------------------------------------------------------------------------

/// What was chosen goes one after the other, in the order chosen. One that
/// could not be removed stops none of those behind it, and is what keeps the
/// whole from counting as done.
pub proof fn removals_go_one_after_the_other(
    rest: Seq<Answer>,
    offers: Seq<Meaning>,
    forced: bool,
    dir: Option<Seq<char>>,
    all: bool,
)
    requires
        offers.len() > 0,
    ensures
        remove_offer_spec(rest, offers[0], forced, dir) matches Progress::Waiting(request)
            ==> finish_each(rest, offers, forced, dir, all) == Progress::<Meant<bool>>::Waiting(
            request,
        ),
        remove_offer_spec(rest, offers[0], forced, dir) matches Progress::Finished(Ok(gone), left)
            ==> finish_each(rest, offers, forced, dir, all) == finish_each(
            left,
            offers.drop_first(),
            forced,
            dir,
            all && gone,
        ),
        finish_each(rest, Seq::empty(), forced, dir, all) == Progress::<Meant<bool>>::Finished(
            Ok(all),
            rest,
        ),
{
}

// ---------------------------------------------------------------------------
// Reading records
// ---------------------------------------------------------------------------

/// Git prints the records one behind a NUL each, and exits with 1 where there
/// is none; any other failure is an error, and not an empty list. Whatever does
/// not read as a record is passed over.
pub proof fn records_are_read_as_git_prints_them(
    config: Seq<char>,
    replied: Answer,
    record: Record<Seq<char>>,
)
    requires
        replied is Ran && replied->Ran_0 is Ok,
    ensures
        ({
            let none: Seq<Answer> = Seq::empty();
            let run = configured_records_spec(none.push(replied), config);
            let code = replied->Ran_0->Ok_0.code;
            &&& went_well(replied) ==> (run matches Progress::Finished(Ok(records), _) && (
            records.contains(record) <==> exists|i: int|
                0 <= i < text::split(printed(replied), '\0').len() && decoded(
                    #[trigger] text::split(printed(replied), '\0')[i],
                ) == Some(record)))
            &&& code == Some(1i32) ==> run == Progress::<Meant<Seq<Record<Seq<char>>>>>::Finished(
                Ok(Seq::empty()),
                none,
            )
            &&& code != Some(0i32) && code != Some(1i32) ==> fails(run)
        }),
{
    let none: Seq<Answer> = Seq::empty();
    assert(none.push(replied).drop_first() =~= none);
    let pieces = text::split(printed(replied), '\0');
    let f = crate::app::reclamation::decodes();
    crate::rows::lemma_keep_map_from(pieces, f, record);
    assert forall|i: int| 0 <= i < pieces.len() implies f(#[trigger] pieces[i]) == decoded(
        pieces[i],
    ) by {}
    if exists|i: int| 0 <= i < pieces.len() && decoded(#[trigger] pieces[i]) == Some(record) {
        let i = choose|i: int| 0 <= i < pieces.len() && decoded(#[trigger] pieces[i]) == Some(record);
        assert(f(pieces[i]) == Some(record));
    }
}

/// A record is forgotten once git has unset it, or has none to unset; anything
/// else is an error.
pub proof fn a_record_is_forgotten_once(
    config: Seq<char>,
    record: Record<Seq<char>>,
    replied: Answer,
)
    requires
        replied is Ran && replied->Ran_0 is Ok,
    ensures
        ({
            let run = forget_config_spec(Seq::empty().push(replied), config, record);
            let code = replied->Ran_0->Ok_0.code;
            fails(run) <==> code != Some(0i32) && code != Some(5i32)
        }),
{
    assert(Seq::empty().push(replied).drop_first() =~= Seq::<Answer>::empty());
}

} // verus!
