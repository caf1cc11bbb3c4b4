//! `perch .`: what becomes of uncommitted work.
use vstd::prelude::*;
use vstd::string::*;

use crate::app::prompts::{prompt_keep_discard_spec, refresh_keys, RefreshChoice};
use crate::app::reports::{indented, report_fetch_failure_spec};
use crate::app::update::{
    refresh_clean_spec, refresh_current_spec, refresh_dirty_spec, refreshed_spec,
};
use crate::ask::{args2, args3, args4, args5, args6};
use crate::error::{Error, Meant};
use crate::git::{self, FetchOutcome};
use crate::grammar::Words;
use crate::talk::{Answer, Asked, Key, Mark, Progress};

use super::{
    left_of, lemma_left_after_one, lemma_left_of_itself, lemma_left_of_left,
    lemma_pressed_in_what_is_left, lemma_spelled, letter, pressed, runs_command, runs_words,
    was_pressed, went_well, went_wrong,
};

verus! {

// ---------------------------------------------------------------------------
// What is left of the replies
// ---------------------------------------------------------------------------

pub broadcast proof fn lemma_indented_leaves(rest: Seq<Answer>, lines: Words)
    ensures
        #[trigger] indented(rest, lines) matches Progress::Finished(_, left) ==> left_of(left, rest),
    decreases lines.len(),
{
    broadcast use {lemma_left_after_one, lemma_left_of_left, lemma_left_of_itself};

    if lines.len() > 0 && rest.len() > 0 {
        lemma_indented_leaves(rest.drop_first(), lines.drop_first());
    }
}

pub broadcast proof fn lemma_fetch_failure_leaves(
    rest: Seq<Answer>,
    outcome: FetchOutcome<Seq<char>>,
)
    ensures
        #[trigger] report_fetch_failure_spec(rest, outcome) matches Progress::Finished(_, left)
            ==> left_of(left, rest),
{
    broadcast use {
        lemma_left_after_one,
        lemma_left_of_left,
        lemma_left_of_itself,
        lemma_indented_leaves,
    };

}

proof fn lemma_refreshed_leaves(rest: Seq<Answer>, remote: Seq<char>, current: Seq<char>)
    ensures
        refreshed_spec(rest, remote, current) matches Progress::Finished(_, left) ==> left_of(
            left,
            rest,
        ),
{
    broadcast use {
        lemma_left_after_one,
        lemma_left_of_left,
        lemma_left_of_itself,
        lemma_fetch_failure_leaves,
    };

}

// ---------------------------------------------------------------------------
// The choice
// ---------------------------------------------------------------------------

/// A key that says neither to keep nor to discard nor to stop.
pub open spec fn says_nothing(answer: Answer) -> bool {
    answer matches Answer::Pressed(Ok(key)) && key != Key::Escape && !letter(answer, 'k', 'K')
        && !letter(answer, 'd', 'D') && !letter(answer, 'n', 'N')
}

proof fn lemma_keys_say(rest: Seq<Answer>)
    ensures
        refresh_keys(rest) matches Progress::Finished(Ok(Some(RefreshChoice::Keep)), left)
            ==> was_pressed(rest, 'k', 'K') && left_of(left, rest),
        refresh_keys(rest) matches Progress::Finished(Ok(Some(RefreshChoice::Discard)), left)
            ==> was_pressed(rest, 'd', 'D') && left_of(left, rest),
        refresh_keys(rest) matches Progress::Waiting(request) ==> !(request is Git),
    decreases rest.len(),
{
    broadcast use {
        lemma_left_after_one,
        lemma_left_of_left,
        lemma_left_of_itself,
        lemma_pressed_in_what_is_left,
    };

    if rest.len() > 0 {
        lemma_keys_say(rest.drop_first());
        assert(rest[0] == rest[0]);
        if letter(rest[0], 'k', 'K') {
            assert(was_pressed(rest, 'k', 'K'));
        }
        if letter(rest[0], 'd', 'D') {
            assert(was_pressed(rest, 'd', 'D'));
        }
    }
}

proof fn lemma_silent_keys_pass(rest: Seq<Answer>, n: nat)
    requires
        n <= rest.len(),
        forall|i: int| 0 <= i < n ==> says_nothing(#[trigger] rest[i]),
    ensures
        refresh_keys(rest) == refresh_keys(rest.skip(n as int)),
    decreases n,
{
    if n == 0 {
        assert(rest.skip(0) =~= rest);
    } else {
        let after = rest.drop_first();
        assert(says_nothing(rest[0]));
        assert forall|i: int| 0 <= i < n - 1 implies says_nothing(#[trigger] after[i]) by {
            assert(after[i] == rest[i + 1]);
        }
        lemma_silent_keys_pass(after, (n - 1) as nat);
        assert(after.skip(n - 1) =~= rest.skip(n as int));
    }
}

#[verifier::spinoff_prover]
#[verifier::rlimit(40)]
proof fn lemma_dirty_requests(
    rest: Seq<Answer>,
    remote: Seq<char>,
    current: Seq<char>,
    ahead: u32,
    behind: u32,
)
    ensures
        runs_command(refresh_dirty_spec(rest, remote, current, ahead, behind), "reset"@)
            ==> was_pressed(rest, 'd', 'D') && runs_words(
            refresh_dirty_spec(rest, remote, current, ahead, behind),
            None,
            args3("reset"@, "--hard"@, remote + "/"@ + current),
        ),
        runs_command(refresh_dirty_spec(rest, remote, current, ahead, behind), "stash"@)
            || runs_command(refresh_dirty_spec(rest, remote, current, ahead, behind), "rebase"@)
            ==> was_pressed(rest, 'k', 'K'),
        !runs_command(refresh_dirty_spec(rest, remote, current, ahead, behind), "merge"@),
        !runs_command(refresh_dirty_spec(rest, remote, current, ahead, behind), "checkout"@),
{
    broadcast use lemma_pressed_in_what_is_left;

    lemma_spelled();
    if rest.len() > 3 {
        let keys = rest.drop_first().drop_first().drop_first().drop_first();
        lemma_keys_say(keys);
        assert(keys =~= rest.skip(rest.len() - keys.len()));
    }
}

proof fn lemma_refreshed_reads(rest: Seq<Answer>, remote: Seq<char>, current: Seq<char>)
    ensures
        !runs_command(refreshed_spec(rest, remote, current), "reset"@),
        !runs_command(refreshed_spec(rest, remote, current), "stash"@),
        !runs_command(refreshed_spec(rest, remote, current), "checkout"@),
{
    broadcast use crate::app::reports::lemma_indented_only_tells;

    lemma_spelled();
}

proof fn lemma_clean_requests(
    rest: Seq<Answer>,
    remote: Seq<char>,
    current: Seq<char>,
    ahead: u32,
)
    ensures
        !runs_command(refresh_clean_spec(rest, remote, current, ahead), "reset"@),
        !runs_command(refresh_clean_spec(rest, remote, current, ahead), "stash"@),
        !runs_command(refresh_clean_spec(rest, remote, current, ahead), "checkout"@),
{
    broadcast use super::updating::a_fast_forward_keeps_to_its_directory;

    lemma_spelled();
}

/// A refresh discards uncommitted work only after the user pressed the key
/// that says so, and then only in favour of the branch's own counterpart. It
/// stashes it only after the key to keep it. It never checks anything out.
#[verifier::spinoff_prover]
#[verifier::rlimit(40)]
pub proof fn uncommitted_work_goes_only_by_its_key(
    rest: Seq<Answer>,
    remote: Seq<char>,
    current: Seq<char>,
)
    ensures
        runs_command(refresh_current_spec(rest, remote, current), "reset"@) ==> was_pressed(
            rest,
            'd',
            'D',
        ) && runs_words(
            refresh_current_spec(rest, remote, current),
            None,
            args3("reset"@, "--hard"@, remote + "/"@ + current),
        ),
        runs_command(refresh_current_spec(rest, remote, current), "stash"@) ==> was_pressed(
            rest,
            'k',
            'K',
        ),
        !runs_command(refresh_current_spec(rest, remote, current), "checkout"@),
{
    broadcast use lemma_pressed_in_what_is_left;

    lemma_spelled();
    lemma_refreshed_leaves(rest, remote, current);
    lemma_refreshed_reads(rest, remote, current);
    match refreshed_spec(rest, remote, current) {
        Progress::Finished(true, fetched) => {
            match git::ahead_behind_remote_spec(fetched, remote, current) {
                Progress::Finished(Ok((ahead, behind)), counted) => {
                    lemma_left_after_one(fetched);
                    lemma_left_of_left(counted, fetched, rest);
                    match git::has_tracked_changes_spec(counted) {
                        Progress::Finished(Ok(true), looked) => {
                            lemma_left_after_one(counted);
                            lemma_left_of_left(looked, counted, rest);
                            lemma_dirty_requests(looked, remote, current, ahead, behind);
                        },
                        Progress::Finished(Ok(false), looked) => {
                            lemma_clean_requests(looked, remote, current, ahead);
                        },
                        _ => {},
                    }
                },
                _ => {},
            }
        },
        _ => {},
    }
}

/// Where the user is asked, keys that say nothing are passed over, and the
/// first one that does is taken at its word. To keep is to stash, to rebase
/// onto the counterpart and to pop the stash, in this order and whatever came
/// of the rebase; and there is never a reset.
#[verifier::spinoff_prover]
#[verifier::rlimit(40)]
pub proof fn keeping_stashes_rebases_and_restores(
    rest: Seq<Answer>,
    remote: Seq<char>,
    current: Seq<char>,
    ahead: u32,
    behind: u32,
    n: nat,
)
    requires
        rest.len() > 5 + n,
        rest[2] == Answer::Flag(true),
        forall|i: int| 4 <= i < 4 + n ==> says_nothing(#[trigger] rest[i]),
        letter(rest[4 + n as int], 'k', 'K'),
    ensures
        ({
            let refresh = refresh_dirty_spec(rest, remote, current, ahead, behind);
            let onto = remote + "/"@ + current;
            let stashed = rest.len() > 6 + n && went_well(rest[6 + n as int]);
            &&& !runs_command(refresh, "reset"@)
            &&& rest.len() == 6 + n ==> runs_words(
                refresh,
                None,
                args5("stash"@, "push"@, "--quiet"@, "-m"@, "perch: auto-stash"@),
            )
            &&& rest.len() > 6 + n && went_wrong(rest[6 + n as int]) ==> super::fails(refresh)
            &&& stashed && rest.len() == 7 + n ==> runs_words(
                refresh,
                None,
                args4("-c"@, "advice.skippedCherryPicks=false"@, "rebase"@, onto),
            )
            &&& stashed && rest.len() == 8 + n && went_well(rest[7 + n as int]) ==> runs_words(
                refresh,
                None,
                args2("stash"@, "pop"@),
            )
            &&& stashed && rest.len() == 8 + n && went_wrong(rest[7 + n as int]) ==> runs_words(
                refresh,
                None,
                args2("rebase"@, "--abort"@),
            )
            &&& stashed && rest.len() == 10 + n && went_wrong(rest[7 + n as int]) ==> runs_words(
                refresh,
                None,
                args2("stash"@, "pop"@),
            )
            &&& stashed && rest.len() == 9 + n && went_well(rest[7 + n as int]) && went_well(
                rest[8 + n as int],
            ) ==> refresh == Progress::<Meant<()>>::Finished(Ok(()), Seq::empty())
            &&& stashed && rest.len() == 11 + n && went_wrong(rest[7 + n as int]) && went_well(
                rest[10 + n as int],
            ) ==> refresh == Progress::<Meant<()>>::Finished(Err(Error::Diverged), Seq::empty())
        }),
{
    lemma_spelled();
    let keys = rest.drop_first().drop_first().drop_first().drop_first();
    assert(keys =~= rest.skip(4));
    assert forall|i: int| 0 <= i < n implies says_nothing(#[trigger] keys[i]) by {
        assert(keys[i] == rest[i + 4]);
    }
    lemma_silent_keys_pass(keys, n);
    let decided = keys.skip(n as int);
    assert(decided[0] == rest[4 + n as int]);
    let after = decided.drop_first().drop_first();
    assert(after =~= rest.skip(6 + n as int));
    assert(prompt_keep_discard_spec(rest, current, remote + "/"@ + current, ahead, behind)
        == refresh_keys(decided));
    reveal_with_fuel(refresh_keys, 2);
    assert(refresh_keys(decided) == Progress::<Meant<Option<RefreshChoice>>>::Finished(
        Ok(Some(RefreshChoice::Keep)),
        after,
    ));
    if rest.len() == 9 + n {
        assert(after.drop_first().drop_first().drop_first() =~= Seq::empty());
    }
    if rest.len() == 11 + n {
        assert(after.drop_first().drop_first().drop_first().drop_first().drop_first()
            =~= Seq::empty());
    }
}

/// To discard is to reset to the counterpart, and nothing is stashed.
pub proof fn discarding_resets(
    rest: Seq<Answer>,
    remote: Seq<char>,
    current: Seq<char>,
    ahead: u32,
    behind: u32,
    n: nat,
)
    requires
        rest.len() > 5 + n,
        rest[2] == Answer::Flag(true),
        forall|i: int| 4 <= i < 4 + n ==> says_nothing(#[trigger] rest[i]),
        letter(rest[4 + n as int], 'd', 'D'),
    ensures
        ({
            let refresh = refresh_dirty_spec(rest, remote, current, ahead, behind);
            let onto = remote + "/"@ + current;
            &&& !runs_command(refresh, "stash"@)
            &&& !runs_command(refresh, "rebase"@)
            &&& rest.len() == 6 + n ==> runs_words(
                refresh,
                None,
                args3("reset"@, "--hard"@, onto),
            )
            &&& rest.len() == 7 + n && went_well(rest[6 + n as int]) ==> refresh
                == Progress::<Meant<()>>::Waiting(
                Asked::Tell {
                    mark: Mark::Plain,
                    text: "Reset "@ + current + " to "@ + onto + "."@,
                },
            )
            &&& rest.len() > 6 + n && went_wrong(rest[6 + n as int]) ==> super::fails(refresh)
        }),
{
    lemma_spelled();
    let keys = rest.drop_first().drop_first().drop_first().drop_first();
    assert(keys =~= rest.skip(4));
    assert forall|i: int| 0 <= i < n implies says_nothing(#[trigger] keys[i]) by {
        assert(keys[i] == rest[i + 4]);
    }
    lemma_silent_keys_pass(keys, n);
    let decided = keys.skip(n as int);
    assert(decided[0] == rest[4 + n as int]);
    let after = decided.drop_first().drop_first();
    assert(after =~= rest.skip(6 + n as int));
    reveal_with_fuel(refresh_keys, 2);
    assert(refresh_keys(decided) == Progress::<Meant<Option<RefreshChoice>>>::Finished(
        Ok(Some(RefreshChoice::Discard)),
        after,
    ));
}

/// To stop leaves everything as it is: git is not run, and that is no failure.
/// So does having nobody to ask.
pub proof fn stopping_leaves_everything(
    rest: Seq<Answer>,
    remote: Seq<char>,
    current: Seq<char>,
    ahead: u32,
    behind: u32,
    n: nat,
)
    requires
        rest.len() > 2,
        rest[2] != Answer::Flag(true) || {
            &&& rest.len() > 5 + n
            &&& forall|i: int| 4 <= i < 4 + n ==> says_nothing(#[trigger] rest[i])
            &&& letter(rest[4 + n as int], 'n', 'N') || rest[4 + n as int] == pressed(Key::Escape)
        },
    ensures
        refresh_dirty_spec(rest, remote, current, ahead, behind) matches Progress::Waiting(request)
            ==> request == (Asked::Tell {
            mark: Mark::Plain,
            text: "Left "@ + current + " unchanged."@,
        }),
        refresh_dirty_spec(rest, remote, current, ahead, behind) matches Progress::Finished(
            result,
            _,
        ) ==> result is Ok,
{
    if rest[2] == Answer::Flag(true) {
        let keys = rest.drop_first().drop_first().drop_first().drop_first();
        assert(keys =~= rest.skip(4));
        assert forall|i: int| 0 <= i < n implies says_nothing(#[trigger] keys[i]) by {
            assert(keys[i] == rest[i + 4]);
        }
        lemma_silent_keys_pass(keys, n);
        let decided = keys.skip(n as int);
        assert(decided[0] == rest[4 + n as int]);
        reveal_with_fuel(refresh_keys, 2);
        assert(refresh_keys(decided) matches Progress::Finished(Ok(None), _));
    }
}

/// The remote's new commits come in by a fast-forward where there are no local
/// ones, and by a rebase of the local ones where there are. Uncommitted changes
/// are asked about first. A branch that lacks nothing is left alone.
pub proof fn a_refresh_integrates_what_is_missing(
    rest: Seq<Answer>,
    remote: Seq<char>,
    current: Seq<char>,
    counted: Seq<Answer>,
    fetched: Seq<Answer>,
    ahead: u32,
    behind: u32,
)
    requires
        refreshed_spec(rest, remote, current) == Progress::Finished(true, fetched),
        git::ahead_behind_remote_spec(fetched, remote, current) == Progress::<
            Meant<(u32, u32)>,
        >::Finished(Ok((ahead, behind)), counted),
    ensures
        ({
            let refresh = refresh_current_spec(rest, remote, current);
            let onto = remote + "/"@ + current;
            let clean = counted.len() > 0 && went_well(counted[0])
                && counted[0]->Ran_0->Ok_0.stdout.len() == 0;
            let dirty = counted.len() > 0 && went_well(counted[0])
                && counted[0]->Ran_0->Ok_0.stdout.len() > 0;
            &&& behind == 0 ==> !crate::app::update::runs_git(refresh)
            &&& behind > 0 && counted.len() == 0 ==> runs_words(
                refresh,
                None,
                args3("status"@, "--porcelain"@, "--untracked-files=no"@),
            )
            &&& behind > 0 && clean && counted.len() == 1 && ahead > 0 ==> runs_words(
                refresh,
                None,
                args4("-c"@, "advice.skippedCherryPicks=false"@, "rebase"@, onto),
            )
            &&& behind > 0 && clean && ahead > 0 ==> !runs_command(refresh, "merge"@)
            &&& behind > 0 && clean && ahead == 0 ==> !runs_command(refresh, "rebase"@)
            &&& behind > 0 && clean && ahead == 0 && counted.len() == 3 && went_well(counted[1])
                && went_well(counted[2]) ==> runs_words(
                refresh,
                None,
                args6("-c"@, "advice.diverging=false"@, "merge"@, "--ff-only"@, onto, "--quiet"@),
            )
            &&& behind > 0 && dirty ==> refresh == refresh_dirty_spec(
                counted.drop_first(),
                remote,
                current,
                ahead,
                behind,
            )
        }),
{
    lemma_spelled();
}

} // verus!
