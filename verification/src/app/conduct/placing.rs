//! `wt`: where a worktree is put, what it is cut from, and where the shell is
//! sent.
use vstd::prelude::*;
use vstd::string::*;

use crate::app::catalogue::live_worktrees_spec;
use crate::app::hook::{payload, HookEvent};
use crate::app::prefetch::FetchedRemote;
use crate::app::wt::{
    act_spec, announce_spec, any_declares, arrived_spec, create_for_branch_spec,
    create_new_branch_spec, create_worktree_spec, fetch_and_add_spec, give_worktree_spec,
    joined_spec, main_of_spec, prefetched_spec, resolve_target_spec, run_spec, use_existing_spec,
    worktree_lands_beside_the_repository, worktree_path, Action, Existence,
};
use crate::ask::{args4, args7};
use crate::error::Meant;
use crate::git::worktrees::{holding, Tree};
use crate::git;
use crate::grammar::{ShellHandoff, Words};
use crate::path;
use crate::rows::first_of;
use crate::talk::{Answer, Asked, Progress};
use crate::text;

use super::going::{
    lemma_fetch_and_ff_requests, lemma_fetch_failure_is_told, lemma_fetch_requests, moves_head,
};
use super::sweeping::{
    a_handoff_never_offers_where_it_leads, prints_only, rows_respect, shows,
    the_prompt_only_reads_and_removes,
};
use super::{command_of, git_args, git_dir, lemma_first_holder, lemma_spelled, went_well};

verus! {

/// Whether git is to add a worktree.
pub open spec fn adds_worktree(request: Asked) -> bool {
    request is Git && git_args(request).len() > 1 && git_args(request)[0] == "worktree"@
        && git_args(request)[1] == "add"@
}

/// Whether a request, if it has git add a worktree, puts it at a path and has
/// it hold a branch: one that is there, or a new one cut from a base that it
/// tracks.
pub open spec fn adds_only_at(
    request: Asked,
    at: Seq<char>,
    branch: Seq<char>,
    base: Option<Seq<char>>,
) -> bool {
    adds_worktree(request) ==> git_args(request) == match base {
        None => args4("worktree"@, "add"@, at, branch),
        Some(base) => args7("worktree"@, "add"@, "--track"@, "-b"@, branch, at, base),
    }
}

/// Whether a request, if it tells a hook, tells it of a new worktree: its path,
/// its branch, and where the main worktree is.
pub open spec fn tells_of_creation(
    request: Asked,
    at: Seq<char>,
    branch: Seq<char>,
    main: Seq<char>,
) -> bool {
    request matches Asked::Shell { dir, env, .. } ==> {
        &&& dir == main
        &&& env.contains(("PERCH_EVENT"@, "created"@))
        &&& env.contains(("PERCH_WORKTREE"@, at))
        &&& env.contains(("PERCH_BRANCH"@, branch))
        &&& env.contains(("PERCH_MAIN"@, main))
    }
}

/// Whether a request changes nothing that is checked out, and shows and prints
/// nothing.
pub open spec fn leaves_here_alone(request: Asked) -> bool {
    &&& request is Git ==> !moves_head(command_of(git_args(request)))
    &&& !(request is PickRows)
    &&& !(request is Print)
}

proof fn lemma_creation_payload(at: Seq<char>, branch: Seq<char>, main: Seq<char>)
    ensures
        ({
            let env = payload(HookEvent::Created, at, Some(branch), main);
            &&& env.contains(("PERCH_EVENT"@, "created"@))
            &&& env.contains(("PERCH_WORKTREE"@, at))
            &&& env.contains(("PERCH_BRANCH"@, branch))
            &&& env.contains(("PERCH_MAIN"@, main))
        }),
{
    let env = payload(HookEvent::Created, at, Some(branch), main);
    assert(env[0] == ("PERCH_BRANCH"@, branch));
    assert(env[1] == ("PERCH_EVENT"@, "created"@));
    assert(env[2] == ("PERCH_MAIN"@, main));
    assert(env[3] == ("PERCH_WORKTREE"@, at));
}

/// Whether a creation keeps to its path, its branch and its base.
pub open spec fn creates<T>(
    progress: Progress<T>,
    main: Seq<char>,
    at: Seq<char>,
    branch: Seq<char>,
    base: Option<Seq<char>>,
) -> bool {
    progress matches Progress::Waiting(request) ==> {
        &&& adds_only_at(request, at, branch, base)
        &&& tells_of_creation(request, at, branch, main)
        &&& leaves_here_alone(request)
    }
}

proof fn lemma_fetch_and_add(
    rest: Seq<Answer>,
    main: Seq<char>,
    at: Seq<char>,
    branch: Seq<char>,
    base: Option<Seq<char>>,
    remote: Seq<char>,
    fetched: Option<FetchedRemote<Seq<char>>>,
)
    ensures
        creates(fetch_and_add_spec(rest, at, branch, base, remote, fetched), main, at, branch, base),
{
    broadcast use {lemma_fetch_requests, lemma_fetch_failure_is_told};

    lemma_spelled();
}

proof fn lemma_announce(
    rest: Seq<Answer>,
    main: Seq<char>,
    at: Seq<char>,
    branch: Seq<char>,
    base: Option<Seq<char>>,
)
    ensures
        creates(announce_spec(rest, main, branch, base, at), main, at, branch, base),
{
    lemma_spelled();
    lemma_creation_payload(at, branch, main);
}

proof fn lemma_create_worktree(
    rest: Seq<Answer>,
    main: Seq<char>,
    name: Seq<char>,
    branch: Seq<char>,
    base: Option<Seq<char>>,
    remote: Seq<char>,
    fetched: Option<FetchedRemote<Seq<char>>>,
)
    ensures
        ({
            let run = create_worktree_spec(rest, main, name, branch, base, remote, fetched);
            &&& worktree_path(main, name) matches Ok(at) ==> creates(run, main, at, branch, base)
            &&& run matches Progress::Waiting(_) ==> worktree_path(main, name) is Ok
            &&& run matches Progress::Finished(Ok(at), _) ==> worktree_path(main, name) == Meant::<
                Seq<char>,
            >::Ok(at)
        }),
{
    match worktree_path(main, name) {
        Ok(at) => {
            assert forall|left: Seq<Answer>|
                creates(
                    #[trigger] fetch_and_add_spec(left, at, branch, base, remote, fetched),
                    main,
                    at,
                    branch,
                    base,
                ) by {
                lemma_fetch_and_add(left, main, at, branch, base, remote, fetched);
            }
            assert forall|left: Seq<Answer>|
                creates(
                    #[trigger] announce_spec(left, main, branch, base, at),
                    main,
                    at,
                    branch,
                    base,
                ) by {
                lemma_announce(left, main, at, branch, base);
            }
        },
        Err(_) => {},
    }
}

/// The directory name to use: the one asked for, or the branch's own.
pub open spec fn wanted_name(name: Option<Seq<char>>, branch: Seq<char>) -> Seq<char> {
    if name is Some {
        name->0
    } else {
        branch
    }
}

proof fn lemma_create_for_branch(
    rest: Seq<Answer>,
    main: Seq<char>,
    name: Option<Seq<char>>,
    branch: Seq<char>,
    fetched: Option<FetchedRemote<Seq<char>>>,
    at: Seq<char>,
)
    requires
        worktree_path(main, wanted_name(name, branch)) == Meant::<Seq<char>>::Ok(at),
    ensures
        creates(create_for_branch_spec(rest, main, name, branch, fetched), main, at, branch, None),
        create_for_branch_spec(rest, main, name, branch, fetched) matches Progress::Finished(
            Ok((path, held)),
            _,
        ) ==> path == at && held == branch,
{
    lemma_spelled();
    match git::current_remote_spec(rest, Some(branch)) {
        Progress::Finished(remote, left) => {
            lemma_create_worktree(
                left,
                main,
                wanted_name(name, branch),
                branch,
                None,
                remote,
                fetched,
            );
        },
        Progress::Waiting(_) => {},
    }
}

/// The branch that git named as the remote's default, where it did.
pub open spec fn named_default(answer: Answer, remote: Seq<char>) -> Option<Seq<char>> {
    if went_well(answer) {
        text::strip_prefix(
            text::trim(answer->Ran_0->Ok_0.stdout),
            "refs/remotes/"@ + remote + "/"@,
        )
    } else {
        None
    }
}

proof fn lemma_create_new_branch(
    rest: Seq<Answer>,
    main: Seq<char>,
    name: Option<Seq<char>>,
    branch: Seq<char>,
    remote: Seq<char>,
    fetched: Option<FetchedRemote<Seq<char>>>,
    at: Seq<char>,
)
    requires
        worktree_path(main, wanted_name(name, branch)) == Meant::<Seq<char>>::Ok(at),
    ensures
        rest.len() > 0 && named_default(rest[0], remote) is Some ==> creates(
            create_new_branch_spec(rest, main, name, branch, remote, fetched),
            main,
            at,
            branch,
            Some(remote + "/"@ + named_default(rest[0], remote)->0),
        ),
        rest.len() > 0 && named_default(rest[0], remote) is None ==> super::fails(
            create_new_branch_spec(rest, main, name, branch, remote, fetched),
        ),
        create_new_branch_spec(rest, main, name, branch, remote, fetched) matches Progress::Waiting(
            request,
        ) ==> leaves_here_alone(request) && (adds_worktree(request) ==> rest.len() > 0),
        create_new_branch_spec(rest, main, name, branch, remote, fetched)
            matches Progress::Finished(Ok((path, held)), _) ==> path == at && held == branch,
{
    lemma_spelled();
    match git::default_branch_spec(rest, remote) {
        Progress::Finished(Some(default), left) => {
            lemma_create_worktree(
                left,
                main,
                wanted_name(name, branch),
                branch,
                Some(remote + "/"@ + default),
                remote,
                fetched,
            );
        },
        _ => {},
    }
}

/// A worktree for a branch that no worktree holds is put beside the main one:
/// in `worktrees`, in it under the repository's name, and there under the name
/// that was asked for, or the branch's where none was. That is so for a branch
/// that exists and for a new one alike. A new branch is cut from the remote's
/// default branch, and fails where there is none. The path is what comes back,
/// and what the hook is told.
pub proof fn a_worktree_is_put_where_it_was_asked_for(
    rest: Seq<Answer>,
    dir: Seq<char>,
    repo: Seq<char>,
    name: Option<Seq<char>>,
    branch: Seq<char>,
    handoff: ShellHandoff,
    remote: Seq<char>,
    fetched: Option<FetchedRemote<Seq<char>>>,
)
    requires
        path::is_tidy(dir),
        path::is_entry(repo),
        !path::is_absolute(wanted_name(name, branch)),
    ensures
        ({
            let main = path::join(dir, repo);
            let at = dir + "/worktrees/"@ + repo + "/"@ + wanted_name(name, branch);
            let existing = act_spec(
                rest,
                Action::CreateForBranch(branch),
                main,
                name,
                handoff,
                remote,
                fetched,
            );
            let fresh = act_spec(
                rest,
                Action::CreateNewBranch(branch),
                main,
                name,
                handoff,
                remote,
                fetched,
            );
            &&& creates(existing, main, at, branch, None)
            &&& rest.len() > 0 && named_default(rest[0], remote) is Some ==> creates(
                fresh,
                main,
                at,
                branch,
                Some(remote + "/"@ + named_default(rest[0], remote)->0),
            )
            &&& rest.len() > 0 && named_default(rest[0], remote) is None ==> super::fails(fresh)
            &&& ends_at(existing, at, branch)
            &&& ends_at(fresh, at, branch)
        }),
{
    let main = path::join(dir, repo);
    let at = dir + "/worktrees/"@ + repo + "/"@ + wanted_name(name, branch);
    worktree_lands_beside_the_repository(dir, repo, wanted_name(name, branch));
    lemma_create_for_branch(rest, main, name, branch, fetched, at);
    lemma_create_new_branch(rest, main, name, branch, remote, fetched, at);
}

/// Whether a success is one at a path and of a branch.
pub open spec fn ends_at(
    progress: Progress<Meant<(Seq<char>, Seq<char>)>>,
    at: Seq<char>,
    branch: Seq<char>,
) -> bool {
    progress matches Progress::Finished(Ok((path, held)), _) ==> path == at && held == branch
}

// ---------------------------------------------------------------------------
// A whole run
// ---------------------------------------------------------------------------

proof fn lemma_use_existing(
    rest: Seq<Answer>,
    tree: Tree,
    handoff: ShellHandoff,
    fetched: Option<FetchedRemote<Seq<char>>>,
)
    ensures
        use_existing_spec(rest, tree, handoff, fetched) matches Progress::Waiting(request) ==> {
            &&& !adds_worktree(request)
            &&& !(request is Shell)
            &&& !(request is PickRows)
            &&& !(request is Print)
            &&& request is Git && (moves_head(command_of(git_args(request))) || command_of(
                git_args(request),
            ) == "fetch"@) ==> git_dir(request) == Some(tree.path)
        },
        use_existing_spec(rest, tree, handoff, fetched) matches Progress::Finished(
            Ok((path, held)),
            _,
        ) ==> path == tree.path && (tree.branch is Some ==> held == tree.branch->0),
{
    broadcast use lemma_fetch_and_ff_requests;

    lemma_spelled();
    lemma_update_adds_nothing(rest, tree, fetched);
}

proof fn lemma_update_adds_nothing(
    rest: Seq<Answer>,
    tree: Tree,
    fetched: Option<FetchedRemote<Seq<char>>>,
)
    ensures
        forall|left: Seq<Answer>, branch: Seq<char>, remote: Seq<char>|
            update_adds_nothing(
                #[trigger] crate::app::update::update_in_spec(
                    left,
                    tree.path,
                    branch,
                    remote,
                    fetched,
                ),
            ),
{
    broadcast use {
        lemma_fetch_requests,
        lemma_fetch_failure_is_told,
        super::updating::a_fast_forward_keeps_to_its_directory,
    };

    lemma_spelled();
}

spec fn update_adds_nothing<T>(progress: Progress<T>) -> bool {
    progress matches Progress::Waiting(request) ==> !adds_worktree(request) && !(request is Shell)
}

/// Whether a run that gives a branch a worktree keeps to it: nothing is added
/// but at a path, what is printed is that path, and the branch is never offered
/// for deletion.
pub open spec fn gives<T>(progress: Progress<T>, at: Seq<char>, branch: Seq<char>) -> bool {
    &&& progress matches Progress::Waiting(request) ==> (adds_worktree(request) ==> git_args(
        request,
    ).contains(at) && git_args(request).contains(branch))
    &&& prints_only(progress, at)
    &&& rows_respect(progress, Some(branch), None)
}

#[verifier::spinoff_prover]
#[verifier::rlimit(40)]
proof fn lemma_arrived(
    rest: Seq<Answer>,
    at: Seq<char>,
    branch: Seq<char>,
    remote: Seq<char>,
    handoff: ShellHandoff,
)
    ensures
        gives(arrived_spec(rest, at, branch, remote, handoff), at, branch),
        handoff == ShellHandoff::Suppress ==> !(arrived_spec(rest, at, branch, remote, handoff)
            matches Progress::Waiting(Asked::Print(_))),
{
    lemma_spelled();
    let path = if handoff == ShellHandoff::Emit {
        Some(at)
    } else {
        None
    };
    a_handoff_never_offers_where_it_leads(rest, branch, remote, path);
    the_prompt_only_reads_and_removes(rest, None, Some(branch), remote);
}

/// `wt` for a branch that no worktree holds: the worktree that is added, the
/// line that is printed and the branch that is left out of the cleanup prompt
/// are those that were asked for.
#[verifier::spinoff_prover]
#[verifier::rlimit(40)]
pub proof fn a_branch_without_a_worktree_gets_the_one_asked_for(
    rest: Seq<Answer>,
    branch: Seq<char>,
    existence: Existence,
    name: Option<Seq<char>>,
    handoff: ShellHandoff,
    remote: Seq<char>,
    fetched: Option<FetchedRemote<Seq<char>>>,
    trees: Seq<Tree>,
    listed: Seq<Answer>,
    main: Tree,
    dir: Seq<char>,
    repo: Seq<char>,
)
    requires
        live_worktrees_spec(rest) == Progress::<Meant<Seq<Tree>>>::Finished(Ok(trees), listed),
        main_of_spec(trees) == Meant::<Tree>::Ok(main),
        main.path == path::join(dir, repo),
        path::is_tidy(dir),
        path::is_entry(repo),
        !path::is_absolute(wanted_name(name, branch)),
        forall|i: int| 0 <= i < trees.len() ==> (#[trigger] trees[i]).branch != Some(branch),
    ensures
        gives(
            give_worktree_spec(rest, branch, existence, name, handoff, remote, fetched),
            dir + "/worktrees/"@ + repo + "/"@ + wanted_name(name, branch),
            branch,
        ),
{
    let at = dir + "/worktrees/"@ + repo + "/"@ + wanted_name(name, branch);
    lemma_spelled();
    lemma_first_holder(trees, branch);
    match resolve_target_spec(listed, branch, existence, trees, remote) {
        Progress::Finished(Ok(action), left) => {
            a_worktree_is_put_where_it_was_asked_for(
                left,
                dir,
                repo,
                name,
                branch,
                handoff,
                remote,
                fetched,
            );
            worktree_lands_beside_the_repository(dir, repo, wanted_name(name, branch));
            lemma_create_new_branch(left, main.path, name, branch, remote, fetched, at);
            assert(args4("worktree"@, "add"@, at, branch)[2] == at);
            assert(args4("worktree"@, "add"@, at, branch)[3] == branch);
            assert forall|base: Seq<char>|
                (#[trigger] args7("worktree"@, "add"@, "--track"@, "-b"@, branch, at, base)).contains(
                    at,
                ) && args7("worktree"@, "add"@, "--track"@, "-b"@, branch, at, base).contains(
                    branch,
                ) by {
                let words = args7("worktree"@, "add"@, "--track"@, "-b"@, branch, at, base);
                assert(words[4] == branch);
                assert(words[5] == at);
            }
            assert forall|after: Seq<Answer>|
                gives(
                    #[trigger] arrived_spec(after, at, branch, remote, handoff),
                    at,
                    branch,
                ) by {
                lemma_arrived(after, at, branch, remote, handoff);
            }
        },
        _ => {},
    }
}

/// `wt` for a branch that a worktree holds: no worktree is added, git changes
/// nothing outside that one, it is its path that is printed, and the branch is
/// left out of the cleanup prompt.
#[verifier::spinoff_prover]
#[verifier::rlimit(40)]
pub proof fn a_branch_with_a_worktree_keeps_it(
    rest: Seq<Answer>,
    branch: Seq<char>,
    existence: Existence,
    name: Option<Seq<char>>,
    handoff: ShellHandoff,
    remote: Seq<char>,
    fetched: Option<FetchedRemote<Seq<char>>>,
    trees: Seq<Tree>,
    listed: Seq<Answer>,
    holder: Tree,
)
    requires
        live_worktrees_spec(rest) == Progress::<Meant<Seq<Tree>>>::Finished(Ok(trees), listed),
        first_of(trees, holding(branch)) == Some(holder),
    ensures
        holder.branch == Some(branch),
        give_worktree_spec(rest, branch, existence, name, handoff, remote, fetched)
            matches Progress::Waiting(request) ==> !adds_worktree(request) && (request is Git && (
        moves_head(command_of(git_args(request))) || command_of(git_args(request)) == "fetch"@)
            ==> git_dir(request) == Some(holder.path)),
        prints_only(
            give_worktree_spec(rest, branch, existence, name, handoff, remote, fetched),
            holder.path,
        ),
        rows_respect(
            give_worktree_spec(rest, branch, existence, name, handoff, remote, fetched),
            Some(branch),
            None,
        ),
{
    lemma_spelled();
    lemma_first_holder(trees, branch);
    lemma_use_existing(listed, holder, handoff, fetched);
    match use_existing_spec(listed, holder, handoff, fetched) {
        Progress::Finished(Ok(_), left) => {
            lemma_arrived(left, holder.path, branch, remote, handoff);
            lemma_arrival_moves_nothing(left, holder.path, branch, remote, handoff);
        },
        _ => {},
    }
}

#[verifier::spinoff_prover]
#[verifier::rlimit(40)]
proof fn lemma_arrival_moves_nothing(
    rest: Seq<Answer>,
    at: Seq<char>,
    branch: Seq<char>,
    remote: Seq<char>,
    handoff: ShellHandoff,
)
    ensures
        arrived_spec(rest, at, branch, remote, handoff) matches Progress::Waiting(request)
            ==> !adds_worktree(request) && (request is Git ==> !moves_head(
            command_of(git_args(request)),
        ) && command_of(git_args(request)) != "fetch"@),
{
    lemma_spelled();
    the_prompt_only_reads_and_removes(rest, None, Some(branch), remote);
}

/// Whether a run of `wt` for a branch keeps to it: a worktree is added only for
/// that branch and in a directory of the name asked for, nothing that is
/// checked out where the user is changes, the branch is never offered for
/// deletion, and nothing starts out ticked.
pub open spec fn keeps_to_branch<T>(
    progress: Progress<T>,
    name: Option<Seq<char>>,
    branch: Seq<char>,
) -> bool {
    &&& progress matches Progress::Waiting(request) ==> {
        &&& adds_worktree(request) ==> adds_under(git_args(request), wanted_name(name, branch))
            && git_args(request).contains(branch)
        &&& request is Git && moves_head(command_of(git_args(request))) ==> git_dir(
            request,
        ) is Some
    }
    &&& rows_respect(progress, Some(branch), None)
}

/// Whether one of the words of a command is a path that ends in a name.
pub open spec fn adds_under(args: Words, name: Seq<char>) -> bool {
    exists|at: Seq<char>| args.contains(at) && #[trigger] text::ends_with(at, name)
}

proof fn lemma_path_ends_in_name(main: Seq<char>, name: Seq<char>)
    ensures
        worktree_path(main, name) matches Ok(at) ==> text::ends_with(at, name),
{
    match worktree_path(main, name) {
        Ok(at) => {
            assert(at.skip(at.len() - name.len()) =~= name);
        },
        Err(_) => {},
    }
}

proof fn lemma_creation_keeps_to_branch<T>(
    progress: Progress<T>,
    main: Seq<char>,
    at: Seq<char>,
    name: Option<Seq<char>>,
    branch: Seq<char>,
    base: Option<Seq<char>>,
)
    requires
        creates(progress, main, at, branch, base),
        text::ends_with(at, wanted_name(name, branch)),
    ensures
        keeps_to_branch(progress, name, branch),
{
    assert(args4("worktree"@, "add"@, at, branch)[2] == at);
    assert(args4("worktree"@, "add"@, at, branch)[3] == branch);
    if base is Some {
        let words = args7("worktree"@, "add"@, "--track"@, "-b"@, branch, at, base->0);
        assert(words[4] == branch);
        assert(words[5] == at);
    }
}

#[verifier::spinoff_prover]
#[verifier::rlimit(40)]
proof fn lemma_act_keeps_to_branch(
    rest: Seq<Answer>,
    action: Action<Seq<char>>,
    main: Seq<char>,
    name: Option<Seq<char>>,
    branch: Seq<char>,
    handoff: ShellHandoff,
    remote: Seq<char>,
    fetched: Option<FetchedRemote<Seq<char>>>,
)
    requires
        match action {
            Action::UseExisting(tree) => tree.branch == Some(branch),
            Action::CreateForBranch(b) => b == branch,
            Action::CreateNewBranch(b) => b == branch,
        },
    ensures
        keeps_to_branch(
            act_spec(rest, action, main, name, handoff, remote, fetched),
            name,
            branch,
        ),
        act_spec(rest, action, main, name, handoff, remote, fetched) matches Progress::Finished(
            Ok((_, held)),
            _,
        ) ==> held == branch,
{
    lemma_spelled();
    let wanted = wanted_name(name, branch);
    lemma_path_ends_in_name(main, wanted);
    match action {
        Action::UseExisting(tree) => {
            lemma_use_existing(rest, tree, handoff, fetched);
        },
        Action::CreateForBranch(_) => {
            match worktree_path(main, wanted) {
                Ok(at) => {
                    lemma_create_for_branch(rest, main, name, branch, fetched, at);
                    lemma_creation_keeps_to_branch(
                        create_for_branch_spec(rest, main, name, branch, fetched),
                        main,
                        at,
                        name,
                        branch,
                        None,
                    );
                },
                Err(_) => {},
            }
        },
        Action::CreateNewBranch(_) => {
            match worktree_path(main, wanted) {
                Ok(at) => {
                    lemma_create_new_branch(rest, main, name, branch, remote, fetched, at);
                    if rest.len() > 0 && named_default(rest[0], remote) is Some {
                        lemma_creation_keeps_to_branch(
                            create_new_branch_spec(rest, main, name, branch, remote, fetched),
                            main,
                            at,
                            name,
                            branch,
                            Some(remote + "/"@ + named_default(rest[0], remote)->0),
                        );
                    }
                },
                Err(_) => {},
            }
        },
    }
}

#[verifier::spinoff_prover]
#[verifier::rlimit(40)]
proof fn lemma_give_keeps_to_branch(
    rest: Seq<Answer>,
    branch: Seq<char>,
    existence: Existence,
    name: Option<Seq<char>>,
    handoff: ShellHandoff,
    remote: Seq<char>,
    fetched: Option<FetchedRemote<Seq<char>>>,
)
    ensures
        keeps_to_branch(
            give_worktree_spec(rest, branch, existence, name, handoff, remote, fetched),
            name,
            branch,
        ),
{
    lemma_spelled();
    match live_worktrees_spec(rest) {
        Progress::Finished(Ok(trees), listed) => {
            lemma_first_holder(trees, branch);
            match main_of_spec(trees) {
                Ok(main) => match resolve_target_spec(listed, branch, existence, trees, remote) {
                    Progress::Finished(Ok(action), left) => {
                        lemma_act_keeps_to_branch(
                            left,
                            action,
                            main.path,
                            name,
                            branch,
                            handoff,
                            remote,
                            fetched,
                        );
                        match act_spec(left, action, main.path, name, handoff, remote, fetched) {
                            Progress::Finished(Ok((at, held)), after) => {
                                lemma_arrived(after, at, branch, remote, handoff);
                                lemma_arrival_moves_nothing(after, at, branch, remote, handoff);
                            },
                            _ => {},
                        }
                    },
                    _ => {},
                },
                Err(_) => {},
            }
        },
        _ => {},
    }
}

broadcast proof fn lemma_any_declares_looks(rest: Seq<Answer>, trees: Seq<Tree>)
    ensures
        #[trigger] any_declares(rest, trees) matches Progress::Waiting(request) ==> request is Exists,
    decreases trees.len(),
{
    if trees.len() > 0 && rest.len() > 0 {
        lemma_any_declares_looks(rest.drop_first(), trees.drop_first());
    }
}

proof fn lemma_prefetch_keeps_to_branch(
    rest: Seq<Answer>,
    target: Option<Seq<char>>,
    trees: Seq<Tree>,
    remote: Seq<char>,
    name: Option<Seq<char>>,
    branch: Seq<char>,
)
    ensures
        keeps_to_branch(prefetched_spec(rest, target, trees, remote), name, branch),
{
    broadcast use lemma_any_declares_looks;

    lemma_spelled();
}

proof fn lemma_join_keeps_to_branch(
    rest: Seq<Answer>,
    started: Option<crate::app::prefetch::Prefetch<Seq<char>>>,
    name: Option<Seq<char>>,
    branch: Seq<char>,
)
    ensures
        keeps_to_branch(joined_spec(rest, started), name, branch),
{
    broadcast use lemma_fetch_failure_is_told;

    lemma_spelled();
}

/// A whole run of `wt` for a branch, with a directory name or without: whatever
/// the replies, it keeps to the branch and to the name.
#[verifier::spinoff_prover]
#[verifier::rlimit(40)]
pub proof fn a_run_keeps_to_its_branch_and_name(
    rest: Seq<Answer>,
    name: Option<Seq<char>>,
    branch: Seq<char>,
    handoff: ShellHandoff,
)
    ensures
        keeps_to_branch(run_spec(rest, name, Some(branch), handoff), name, branch),
{
    lemma_spelled();
    match git::current_branch_spec(rest) {
        Progress::Finished(Ok(current), rest) => match git::current_remote_spec(rest, current) {
            Progress::Finished(remote, rest) => match live_worktrees_spec(rest) {
                Progress::Finished(Ok(listed), rest) => {
                    lemma_prefetch_keeps_to_branch(
                        rest,
                        Some(branch),
                        listed,
                        remote,
                        name,
                        branch,
                    );
                    match prefetched_spec(rest, Some(branch), listed, remote) {
                        Progress::Finished(started, rest) => {
                            lemma_join_keeps_to_branch(rest, started, name, branch);
                            match joined_spec(rest, started) {
                                Progress::Finished(fetched, rest) => {
                                    lemma_give_keeps_to_branch(
                                        rest,
                                        branch,
                                        Existence::MayCreate,
                                        name,
                                        handoff,
                                        remote,
                                        fetched,
                                    );
                                },
                                Progress::Waiting(_) => {},
                            }
                        },
                        Progress::Waiting(_) => {},
                    }
                },
                _ => {},
            },
            _ => {},
        },
        _ => {},
    }
}

} // verus!
