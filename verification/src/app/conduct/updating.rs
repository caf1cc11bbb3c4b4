//! Bringing a branch up to its remote: where, and by what.
use vstd::prelude::*;
use vstd::string::*;

use crate::app::prefetch::FetchedRemote;
use crate::app::update::update_in_spec;
use crate::ask::{args2, args3, args4, args6};
use crate::error::Meant;
use crate::git::{self, FastForwardResult, MergeReport};
use crate::grammar::Words;
use crate::talk::{Answer, Asked, Progress};
use crate::text;

use super::{
    command_of, git_args, git_dir, lemma_spelled, runs_command, runs_words, went_well, went_wrong,
};

verus! {

/// Whether the next request, if it has git run at all, has it run in `dir`.
pub open spec fn keeps_to<T>(progress: Progress<T>, dir: Option<Seq<char>>) -> bool {
    progress matches Progress::Waiting(Asked::Git { dir: at, .. }) ==> at == dir
}

/// The merge with a branch's counterpart that only moves the branch forward.
pub open spec fn merge_words(branch: Seq<char>, remote: Seq<char>) -> Words {
    args6(
        "-c"@,
        "advice.diverging=false"@,
        "merge"@,
        "--ff-only"@,
        remote + "/"@ + branch,
        "--quiet"@,
    )
}

/// A fast-forward in a directory asks git for everything there and nowhere
/// else, and the one thing that changes anything is the merge with the branch's
/// own counterpart, which does no more than move it forward.
pub broadcast proof fn a_fast_forward_keeps_to_its_directory(
    rest: Seq<Answer>,
    dir: Option<Seq<char>>,
    branch: Seq<char>,
    remote: Seq<char>,
)
    ensures
        keeps_to(#[trigger] git::fast_forward_merge_spec(rest, dir, branch, remote), dir),
        git::fast_forward_merge_spec(rest, dir, branch, remote) matches Progress::Waiting(request)
            ==> request is Git && ({
            let args = git_args(request);
            ||| command_of(args) == "rev-parse"@
            ||| command_of(args) == "rev-list"@
            ||| args == merge_words(branch, remote)
        }),
{
    lemma_spelled();
}

/// A branch with a counterpart is merged with it. It ends as diverged exactly
/// where that merge is refused, as up to date where HEAD did not move, and
/// otherwise with the number of commits that git counts from the one HEAD to
/// the other. Without a counterpart nothing is done.
pub proof fn a_fast_forward_merges_the_counterpart(
    dir: Option<Seq<char>>,
    branch: Seq<char>,
    remote: Seq<char>,
    found: Answer,
    before: Answer,
    merged: Answer,
    after: Answer,
    counted: Answer,
)
    requires
        went_well(before),
        went_well(after),
        went_well(counted),
    ensures
        runs_words(
            git::fast_forward_merge_spec(Seq::empty(), dir, branch, remote),
            dir,
            args3("rev-parse"@, "--verify"@, remote + "/"@ + branch),
        ),
        went_wrong(found) ==> git::fast_forward_merge_spec(Seq::empty().push(found), dir, branch, remote)
            == Progress::<Meant<FastForwardResult>>::Finished(
            Ok(FastForwardResult::Merged(MergeReport::NoRemote)),
            Seq::empty(),
        ),
        went_well(found) ==> runs_words(
            git::fast_forward_merge_spec(Seq::empty().push(found), dir, branch, remote),
            dir,
            args2("rev-parse"@, "HEAD"@),
        ),
        went_well(found) ==> runs_words(
            git::fast_forward_merge_spec(Seq::empty().push(found).push(before), dir, branch, remote),
            dir,
            merge_words(branch, remote),
        ),
        went_well(found) && went_wrong(merged) ==> git::fast_forward_merge_spec(
            Seq::empty().push(found).push(before).push(merged),
            dir,
            branch,
            remote,
        ) == Progress::<Meant<FastForwardResult>>::Finished(
            Ok(FastForwardResult::Diverged),
            Seq::empty(),
        ),
        went_well(found) && went_well(merged) ==> ({
            let old = text::trim(before->Ran_0->Ok_0.stdout);
            let new = text::trim(after->Ran_0->Ok_0.stdout);
            let to_head = Seq::empty().push(found).push(before).push(merged);
            &&& runs_words(
                git::fast_forward_merge_spec(to_head, dir, branch, remote),
                dir,
                args2("rev-parse"@, "HEAD"@),
            )
            &&& old == new ==> git::fast_forward_merge_spec(
                to_head.push(after),
                dir,
                branch,
                remote,
            ) == Progress::<Meant<FastForwardResult>>::Finished(
                Ok(FastForwardResult::Merged(MergeReport::UpToDate)),
                Seq::empty(),
            )
            &&& old != new ==> runs_words(
                git::fast_forward_merge_spec(to_head.push(after), dir, branch, remote),
                dir,
                args3("rev-list"@, "--count"@, old + ".."@ + new),
            )
            &&& old != new ==> (text::parse_u32(text::trim(counted->Ran_0->Ok_0.stdout)) matches Ok(
                n,
            ) ==> git::fast_forward_merge_spec(
                to_head.push(after).push(counted),
                dir,
                branch,
                remote,
            ) == Progress::<Meant<FastForwardResult>>::Finished(
                Ok(FastForwardResult::Merged(MergeReport::Pulled(n))),
                Seq::empty(),
            ))
        }),
{
    let a = Seq::empty().push(found);
    let b = Seq::empty().push(found).push(before);
    let c = Seq::empty().push(found).push(before).push(merged);
    let d = c.push(after);
    let e = d.push(counted);
    assert(a.drop_first() =~= Seq::empty());
    assert(b.drop_first().drop_first() =~= Seq::empty());
    assert(c.drop_first().drop_first().drop_first() =~= Seq::empty());
    assert(d.drop_first().drop_first().drop_first().drop_first() =~= Seq::empty());
    assert(e.drop_first().drop_first().drop_first().drop_first().drop_first() =~= Seq::empty());
}

/// What may be read elsewhere: how a remote is reached from there.
pub open spec fn reads_the_reach(request: Asked) -> bool {
    request matches Asked::Git { args, .. } && args.len() > 1 && (args[0] == "remote"@ && args[1]
        == "get-url"@ || args[0] == "config"@ && args[1] == "--null"@)
}

/// Updating a worktree's branch changes nothing outside that worktree's
/// directory: whatever git is asked there and elsewhere, elsewhere it is only
/// asked how the remote is reached. The branch is merged with its counterpart
/// on the remote it tracks, which is also the remote that is fetched.
pub broadcast proof fn an_update_keeps_to_its_worktree(
    rest: Seq<Answer>,
    path: Seq<char>,
    branch: Seq<char>,
    remote: Seq<char>,
    fetched: Option<FetchedRemote<Seq<char>>>,
)
    ensures
        #[trigger] update_in_spec(rest, path, branch, remote, fetched) matches Progress::Waiting(
            request,
        ) ==> (request is Git ==> git_dir(request) == Some(path) || reads_the_reach(request)) && (
        request is Git && command_of(git_args(request)) == "merge"@ ==> git_args(request)
            == merge_words(branch, remote)) && (request is Git && command_of(git_args(request))
            == "fetch"@
            ==> git_args(request).take(4) == args4("fetch"@, "--quiet"@, "--prune"@, remote)),
        !runs_command(update_in_spec(rest, path, branch, remote, fetched), "checkout"@),
        !runs_command(update_in_spec(rest, path, branch, remote, fetched), "rebase"@),
        !runs_command(update_in_spec(rest, path, branch, remote, fetched), "reset"@),
        !runs_command(update_in_spec(rest, path, branch, remote, fetched), "stash"@),
{
    broadcast use {
        crate::app::reports::lemma_indented_only_tells,
        a_fast_forward_keeps_to_its_directory,
    };

    lemma_spelled();
    assert(git::fetch_args_spec(remote).take(4) =~= args4("fetch"@, "--quiet"@, "--prune"@, remote));
    assert(git::deep_fetch_args_spec(remote).take(4) =~= args4(
        "fetch"@,
        "--quiet"@,
        "--prune"@,
        remote,
    ));
}

} // verus!
