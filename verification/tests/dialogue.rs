use perch::app::prompts::{confirm, prompt_keep_discard, Confirmation, RefreshChoice};
use perch::app::reclamation::{reclaim, retry, run_worker, stage, start, Record, Staged};
use perch::app::removal::{select_removal_locals, Assessment, Choice, Offer, Subject};
use perch::app::wt::{create_worktree, resolve_target, Action, Existence};
use perch::error::{IoError, IoKind};
use perch::git::{
    checkout, config_entries, current_branch, current_remote, delete_branch_at,
    delete_branch_if_merged, delete_remote_branch, equivalent_branches, fast_forward_merge,
    force_delete_branch, has_tracked_changes, hook_command, inspect_upstream, local_branches,
    rebase, remote_only_branches, remote_url, same_named_upstream, stale_branches, stash_pop,
    unmerged_branches, worktree_add, worktree_branches, worktree_has_initialized_submodules,
    worktree_list, worktree_remove, BranchDeleteOutcome, FastForwardResult, Ground, Holder,
    MergeReport, RebaseOutcome, RemoteBranch, RemoteBranchDeleteOutcome, StaleBranch,
    StashPopOutcome, Unmerged, UpstreamInspection, UpstreamRef, Worktree, WorktreeRemoveOutcome,
};
use perch::talk::{Key, Mark, Output, Picked, Presence, RawOutput, Reply, Request, Talk};
use perch::Error;

/// Runs a function to its end, answering each request as it comes, and gives
/// back what it came to and what it asked.
fn drive<T>(
    run: impl Fn(&mut Talk) -> Option<T>,
    answer: impl Fn(&Request) -> Reply,
) -> (T, Vec<Request>) {
    let mut replies: Vec<Reply> = Vec::new();
    let mut asked: Vec<Request> = Vec::new();
    for _ in 0..1000 {
        let mut talk = Talk::new(replies.clone());
        if let Some(value) = run(&mut talk) {
            return (value, asked);
        }
        let request = talk.pending().expect("a request without a reply");
        replies.push(answer(&request));
        asked.push(request);
    }
    panic!("no end in sight");
}

fn ran(code: i32, stdout: &str, stderr: &str) -> Reply {
    Reply::Ran(Ok(Output {
        code: Some(code),
        stdout: stdout.to_string(),
        stderr: stderr.to_string(),
    }))
}

fn ok(stdout: &str) -> Reply {
    ran(0, stdout, "")
}

fn failed(stderr: &str) -> Reply {
    ran(128, "", stderr)
}

/// The words of a git request, with the directory it runs in before them.
fn git_words(request: &Request) -> String {
    match request {
        Request::Git { dir, args, .. } => match dir {
            Some(dir) => format!("{dir}: {}", args.join(" ")),
            None => args.join(" "),
        },
        _ => String::new(),
    }
}

/// A repository: the first rule whose words a git request starts with answers
/// it. Everything else is answered as on a machine without a terminal.
fn repository(rules: Vec<(&'static str, Reply)>) -> impl Fn(&Request) -> Reply {
    move |request| match request {
        Request::Git { .. } => {
            let words = git_words(request);
            for (start, reply) in &rules {
                if words.starts_with(start) {
                    return reply.clone();
                }
            }
            failed("fatal: unexpected")
        }
        Request::Exists(_)
        | Request::Interactive
        | Request::StdoutIsTerminal => Reply::Flag(false),
        Request::Background { .. } => Reply::Flag(true),
        Request::Await(_) => ok(""),
        Request::Environment => Reply::Variables(vec![("PATH".into(), "/usr/bin:/bin".into())]),
        Request::Home | Request::WorkerRecord | Request::CurrentDirectory => Reply::Text(None),
        Request::Status(_) => Reply::Text(Some(String::new())),
        Request::Version => Reply::Text(Some("1.2.3".into())),
        Request::Rename { .. }
        | Request::Lock(_)
        | Request::Open(_)
        | Request::TryLock(_)
        | Request::SpawnWorker(_) => Reply::Tried(Ok(())),
        Request::RemoveTree(_) => ok(""),
        Request::Stamp => Reply::Stamp {
            nonce: 77,
            process: 42,
        },
        _ => Reply::Done,
    }
}

fn args(words: &[&str]) -> Vec<String> {
    words.iter().map(|word| word.to_string()).collect()
}

fn perch(
    words: &[&str],
    answer: impl Fn(&Request) -> Reply,
) -> (Result<(), Error>, Vec<Request>) {
    let words = args(words);
    drive(|talk| perch::run(talk, &words), answer)
}

fn stdout_of(asked: &[Request]) -> String {
    asked
        .iter()
        .map(|request| match request {
            Request::Print(text) => text.as_str(),
            _ => "",
        })
        .collect()
}

fn stderr_of(asked: &[Request]) -> String {
    asked
        .iter()
        .map(|request| match request {
            Request::Tell { mark, text } => {
                let sign = match mark {
                    Mark::Plain => "",
                    Mark::Warning => "! ",
                    Mark::Arrow => "→ ",
                    Mark::Check => "✓ ",
                };
                format!("{sign}{text}\n")
            }
            _ => String::new(),
        })
        .collect()
}

fn fetches(asked: &[Request]) -> Vec<String> {
    asked
        .iter()
        .filter_map(|request| match request {
            Request::Background { args, .. } => Some(args.join(" ")),
            Request::Git { .. } if git_words(request).contains("fetch --quiet") => {
                Some(git_words(request))
            }
            _ => None,
        })
        .collect()
}

const LISTING: &str = "worktree /src/repo\nHEAD 1\nbranch refs/heads/main\n\n\
    worktree /src/worktrees/repo/feature\nHEAD 2\nbranch refs/heads/feature\n\n";

const MAIN_ONLY: &str = "worktree /src/repo\nHEAD 1\nbranch refs/heads/main\n\n";

/// What a plain repository on `main` says, with `feature` in a worktree.
fn held_feature() -> Vec<(&'static str, Reply)> {
    vec![
        ("rev-parse --path-format=absolute", ok("/src/repo/.git\n")),
        ("config --file", ran(1, "", "")),
        ("branch --show-current", ok("main\n")),
        ("config --get branch.", ran(1, "", "")),
        ("remote get-url", ok("/srv/origin.git\n")),
        ("/src/worktrees/repo/feature: remote get-url", ok("/srv/origin.git\n")),
        ("config --null --list", ok("core.bare\nfalse\0")),
        (
            "/src/worktrees/repo/feature: config --null --list",
            ok("core.bare\nfalse\0"),
        ),
        ("remote", ok("origin\n")),
        ("worktree list --porcelain", ok(LISTING)),
        ("fetch --quiet", ok("")),
        ("/src/worktrees/repo/feature: fetch --quiet", ok("")),
        (
            "/src/worktrees/repo/feature: rev-parse --verify",
            ran(128, "", "fatal: Needed a single revision"),
        ),
    ]
}

fn replaced(
    mut rules: Vec<(&'static str, Reply)>,
    start: &'static str,
    reply: Reply,
) -> Vec<(&'static str, Reply)> {
    rules.insert(0, (start, reply));
    rules
}

// ---------------------------------------------------------------------------
// Help and version
// ---------------------------------------------------------------------------

#[test]
fn help_flag_prints_usage() {
    let (result, asked) = perch(&["--help"], repository(vec![]));

    assert_eq!(result, Ok(()));
    let out = stdout_of(&asked);
    assert!(out.contains("Usage: perch"), "expected usage line, got: {out}");
    assert!(
        out.contains("perch wt"),
        "expected worktree usage in help, got: {out}"
    );
    assert!(
        out.contains("PERCH_NO_SHORTCUTS"),
        "expected the shell shortcut footer in help, got: {out}"
    );
}

#[test]
fn wt_help_documents_no_switch() {
    let (result, asked) = perch(&["wt", "--help"], repository(vec![]));

    assert_eq!(result, Ok(()));
    assert!(stdout_of(&asked).contains("--no-switch"));
}

#[test]
fn br_help_documents_removal_without_a_short_force_flag() {
    let (result, asked) = perch(&["br", "--help"], repository(vec![]));

    assert_eq!(result, Ok(()));
    let help = stdout_of(&asked);
    assert!(help.contains("perch br rm [<branch>] [--upstream] [--force]"));
    assert!(help.contains("perch br -- <branch>"));
    assert!(!help.contains("-f, --force"));
}

#[test]
fn version_flag_prints_version() {
    let (result, asked) = perch(&["--version"], repository(vec![]));

    assert_eq!(result, Ok(()));
    assert_eq!(stdout_of(&asked).trim(), "perch 1.2.3");
}

// ---------------------------------------------------------------------------
// Remotes
// ---------------------------------------------------------------------------

#[test]
fn current_remote_handles_multiline_config_value() {
    let (remote, _) = drive(
        |talk| current_remote(talk, Some("main")),
        repository(vec![("config --get branch.main.remote", ok("upstream\nstray\n"))]),
    );

    assert_eq!(remote, "upstream");
}

#[test]
fn current_remote_falls_back_to_the_only_remote_and_then_to_origin() {
    for (configured, remotes, expected) in [
        (ok(".\n"), ok("upstream\n"), "upstream"),
        (ok("\n"), ok("\nupstream\n"), "upstream"),
        (ran(1, "", ""), ok("a\nb\n"), "origin"),
        (ran(1, "", ""), ok(""), "origin"),
        (ran(1, "", ""), failed("x"), "origin"),
    ] {
        let (remote, _) = drive(
            |talk| current_remote(talk, Some("main")),
            repository(vec![
                ("config --get", configured.clone()),
                ("remote", remotes.clone()),
            ]),
        );
        assert_eq!(remote, expected);
    }
}

#[test]
fn current_branch_is_none_where_head_is_detached() {
    let (none, _) = drive(current_branch, repository(vec![("branch", ok("\n"))]));
    assert_eq!(none, Ok(None));
    let (main, _) = drive(current_branch, repository(vec![("branch", ok("main\n"))]));
    assert_eq!(main, Ok(Some("main".to_string())));
    let (error, _) = drive(
        current_branch,
        repository(vec![("branch", failed("fatal: not a git repository\n"))]),
    );
    assert_eq!(
        error.unwrap_err().to_string(),
        "git branch: fatal: not a git repository"
    );
}

#[test]
fn remote_only_branches_leave_out_locals_and_the_head() {
    let local = args(&["main", "a"]);
    let (names, asked) = drive(
        |talk| remote_only_branches(talk, &local, "origin"),
        repository(vec![(
            "for-each-ref",
            ok("origin/HEAD\norigin/main\norigin/b\nother/c\norigin/a\norigin/x/HEAD\n"),
        )]),
    );
    assert_eq!(names, Ok(args(&["b"])));
    assert_eq!(
        git_words(&asked[0]),
        "for-each-ref --format=%(refname:short) refs/remotes/origin/"
    );
}

#[test]
fn settings_are_read_as_git_prints_them() {
    let (url, _) = drive(
        |talk| remote_url(talk, Some("/w"), "origin"),
        repository(vec![("/w: remote get-url origin", ok(" /srv/x \n"))]),
    );
    assert_eq!(url.as_deref(), Some("/srv/x"));
    let (entries, _) = drive(
        |talk| config_entries(talk, None),
        repository(vec![("config --null --list", ok("a.b\nx\ny\0c.d\nz\0"))]),
    );
    assert_eq!(entries, ["a.b\nx\ny", "c.d\nz"]);
    let (entries, _) = drive(
        |talk| config_entries(talk, Some("/w")),
        repository(vec![("/w: config --null --list", ok("a.b\n1\0c.d\n2\nx\0"))]),
    );
    assert_eq!(entries, ["a.b\n1", "c.d\n2\nx"]);
    let (none, _) = drive(
        |talk| config_entries(talk, None),
        repository(vec![("config --null --list", ok(""))]),
    );
    assert!(none.is_empty());
    let (hook, _) = drive(
        |talk| hook_command(talk, "created"),
        repository(vec![("config --get perch.hook.created", ok(" run me \n"))]),
    );
    assert_eq!(hook.as_deref(), Some("run me"));
    let (blank, _) = drive(
        |talk| hook_command(talk, "created"),
        repository(vec![("config --get", ok(" \n"))]),
    );
    assert_eq!(blank, None);
    let (branches, _) = drive(local_branches, repository(vec![("branch", ok("a\nb\r\nc"))]));
    assert_eq!(branches, Ok(args(&["a", "b", "c"])));
    let (dirty, _) = drive(has_tracked_changes, repository(vec![("status", ok(" M x\n"))]));
    assert_eq!(dirty, Ok(true));
}

// ---------------------------------------------------------------------------
// The working tree
// ---------------------------------------------------------------------------

#[test]
fn a_stash_pop_tells_conflicts_from_failures() {
    for (reply, expected) in [
        (ok(""), Ok(StashPopOutcome::Clean)),
        (
            ran(1, "CONFLICT (content): x\n", ""),
            Ok(StashPopOutcome::Conflict),
        ),
        (ran(1, "", "CONFLICT\n"), Ok(StashPopOutcome::Conflict)),
        (
            ran(1, " \n", "No stash entries found.\n"),
            Err("git stash pop: No stash entries found.".to_string()),
        ),
        (
            ran(1, "said here\n", "not here"),
            Err("git stash pop: said here".to_string()),
        ),
    ] {
        let (got, _) = drive(stash_pop, repository(vec![("stash pop", reply)]));
        assert_eq!(got.map_err(|e| e.to_string()), expected);
    }
}

#[test]
fn checkout_clears_what_stands_in_its_way_once() {
    let (result, asked) = drive(
        |talk| checkout(talk, "topic"),
        repository(vec![(
            "checkout",
            failed("fatal: 'topic' is already used by worktree at '/x'"),
        )]),
    );
    assert!(result.is_err());
    assert_eq!(
        asked.iter().map(git_words).collect::<Vec<_>>(),
        [
            "checkout topic --quiet",
            "worktree prune",
            "checkout topic --quiet"
        ]
    );

    let (result, asked) = drive(
        |talk| checkout(talk, "topic"),
        repository(vec![(
            "checkout",
            failed("Submodule 'x' could not be updated."),
        )]),
    );
    assert!(result.is_err());
    assert_eq!(
        git_words(&asked[1]),
        "submodule foreach --recursive git fetch"
    );

    let (result, asked) = drive(
        |talk| checkout(talk, "topic"),
        repository(vec![("checkout", failed("error: pathspec\n"))]),
    );
    assert_eq!(
        result.unwrap_err().to_string(),
        "git checkout: error: pathspec"
    );
    assert_eq!(asked.len(), 1);
}

#[test]
fn a_rebase_that_fails_is_aborted() {
    let (clean, asked) = drive(
        |talk| rebase(talk, "origin/main"),
        repository(vec![("-c advice.skippedCherryPicks=false rebase", ok(""))]),
    );
    assert_eq!(clean, Ok(RebaseOutcome::Clean));
    assert!(matches!(asked[0], Request::Git { shown: true, .. }));
    let (aborted, asked) = drive(
        |talk| rebase(talk, "origin/main"),
        repository(vec![("-c", failed("")), ("rebase --abort", ok(""))]),
    );
    assert_eq!(aborted, Ok(RebaseOutcome::Aborted));
    assert_eq!(git_words(&asked[1]), "rebase --abort");
}

#[test]
fn a_fast_forward_counts_what_it_pulled() {
    let heads = |after: &'static str| {
        move |request: &Request| {
            let words = git_words(request);
            if words.starts_with("rev-parse --verify") || words.starts_with("-c") {
                ok("")
            } else if words == "rev-parse HEAD" {
                ok(after)
            } else {
                ok("12\n")
            }
        }
    };
    let (same, _) = drive(
        |talk| fast_forward_merge(talk, None, "main", "origin"),
        heads("aaa\n"),
    );
    assert_eq!(same, Ok(FastForwardResult::Merged(MergeReport::UpToDate)));

    let mut replies = vec![ok(""), ok("aaa\n"), ok(""), ok("bbb\n"), ok(" 12\n")];
    let mut talk = Talk::new(replies.clone());
    assert_eq!(
        fast_forward_merge(&mut talk, None, "main", "origin"),
        Some(Ok(FastForwardResult::Merged(MergeReport::Pulled(12))))
    );
    replies[4] = ok("many\n");
    let mut talk = Talk::new(replies.clone());
    assert_eq!(
        fast_forward_merge(&mut talk, None, "main", "origin")
            .unwrap()
            .unwrap_err()
            .to_string(),
        "invalid number from git: invalid digit found in string"
    );
    let mut talk = Talk::new(replies[..4].to_vec());
    assert_eq!(
        fast_forward_merge(&mut talk, None, "main", "origin"),
        None
    );
    assert_eq!(
        git_words(&talk.pending().unwrap()),
        "rev-list --count aaa..bbb"
    );
    let mut talk = Talk::new(vec![ok(""), ok("aaa"), failed("diverged")]);
    assert_eq!(
        fast_forward_merge(&mut talk, None, "main", "origin"),
        Some(Ok(FastForwardResult::Diverged))
    );
    let mut talk = Talk::new(vec![failed("")]);
    assert_eq!(
        fast_forward_merge(&mut talk, None, "main", "origin"),
        Some(Ok(FastForwardResult::Merged(MergeReport::NoRemote)))
    );
}

// ---------------------------------------------------------------------------
// Worktrees
// ---------------------------------------------------------------------------

#[test]
fn a_listing_is_read_record_by_record() {
    let (trees, _) = drive(
        worktree_list,
        repository(vec![(
            "worktree list",
            ok("bare junk\nworktree /src/repo\nHEAD 1\nbranch refs/heads/main\n\n\
                worktree /w/a b\nHEAD 2\ndetached\n\n\
                worktree /w/c\nbranch refs/heads/x/y\nprunable gitdir file points nowhere\n"),
        )]),
    );
    let tree = |path: &str, branch: Option<&str>, is_main, prunable| Worktree {
        path: path.to_string(),
        branch: branch.map(str::to_string),
        is_main,
        prunable,
    };
    assert_eq!(
        trees,
        Ok(vec![
            tree("/src/repo", Some("main"), true, false),
            tree("/w/a b", None, false, false),
            tree("/w/c", Some("x/y"), false, true),
        ])
    );
    let (held, _) = drive(worktree_branches, repository(vec![("worktree list", ok(LISTING))]));
    assert_eq!(held, Ok(args(&["main", "feature"])));
}

#[test]
fn adding_a_worktree_prunes_a_dead_registration_once() {
    let (result, asked) = drive(
        |talk| worktree_add(talk, "/w/x", "x", Some("origin/main")),
        repository(vec![(
            "worktree add",
            failed("fatal: '/w/x' is a missing but already registered worktree"),
        )]),
    );
    assert_eq!(
        result.unwrap_err().to_string(),
        "git worktree add: fatal: '/w/x' is a missing but already registered worktree"
    );
    assert_eq!(
        asked.iter().map(git_words).collect::<Vec<_>>(),
        [
            "worktree add --track -b x /w/x origin/main",
            "worktree prune",
            "worktree add --track -b x /w/x origin/main"
        ]
    );
    let (result, asked) = drive(
        |talk| worktree_add(talk, "/w/x", "x", None),
        repository(vec![("worktree add /w/x x", ok(""))]),
    );
    assert_eq!(result, Ok(()));
    assert_eq!(asked.len(), 1);
}

#[test]
fn a_removal_is_claimed_only_once_the_registration_is_gone() {
    let gone = |listing: &'static str| {
        drive(
            |talk| worktree_remove(talk, "/src/worktrees/repo/feature/", false),
            repository(vec![
                ("worktree remove", failed("fatal: locked\n")),
                ("worktree prune", ok("")),
                ("worktree list", ok(listing)),
            ]),
        )
        .0
    };
    assert_eq!(gone(MAIN_ONLY), Ok(WorktreeRemoveOutcome::Removed));
    assert_eq!(
        gone(LISTING),
        Ok(WorktreeRemoveOutcome::Failed("fatal: locked".to_string()))
    );
    let (_, asked) = drive(
        |talk| worktree_remove(talk, "/w", true),
        repository(vec![("worktree remove --force /w", ok(""))]),
    );
    assert_eq!(asked.len(), 1);
}

#[test]
fn submodules_are_found_through_the_index() {
    let probe = |index: &'static [u8], found: Presence| {
        drive(
            |talk| worktree_has_initialized_submodules(talk, "/w"),
            move |request: &Request| match request {
                Request::GitBytes { .. } => Reply::RanBytes(Ok(RawOutput {
                    code: Some(0),
                    stdout: index.to_vec(),
                })),
                Request::Probe { below, entry } => {
                    assert_eq!(below, "/w");
                    assert_eq!(entry, b"sub\xff");
                    Reply::Probed(found)
                }
                _ => panic!("unexpected {request:?}"),
            },
        )
        .0
    };
    let index = b"100644 aaa 0\tx\x00160000 bbb 0\tsub\xff\x00";
    assert_eq!(probe(index, Presence::Present), Some(true));
    assert_eq!(probe(index, Presence::Absent), Some(false));
    assert_eq!(probe(index, Presence::Unreadable), None);
    assert_eq!(probe(b"160000 no tab here", Presence::Present), None);
    assert_eq!(probe(b"", Presence::Present), Some(false));
}

// ---------------------------------------------------------------------------
// Upstreams
// ---------------------------------------------------------------------------

#[test]
fn an_upstream_counts_only_under_the_same_name() {
    for (line, expected) in [
        ("feature\torigin\trefs/heads/feature", Some("origin")),
        ("feature\torigin\trefs/heads/main", None),
        ("feature\t.\trefs/heads/feature", None),
        ("feature\t\trefs/heads/feature", None),
        ("other\torigin\trefs/heads/feature", None),
        ("feature\torigin", None),
    ] {
        let (found, _) = drive(
            |talk| same_named_upstream(talk, "feature"),
            repository(vec![("for-each-ref", ok(line))]),
        );
        assert_eq!(
            found.unwrap().map(|u| u.remote),
            expected.map(str::to_string),
            "{line}"
        );
    }
}

#[test]
fn the_servers_default_branch_is_never_removable() {
    let upstream = UpstreamRef {
        remote: "origin".to_string(),
        branch: "feature".to_string(),
    };
    let inspect = |output: &'static str| {
        drive(
            |talk| inspect_upstream(talk, &upstream),
            repository(vec![(
                "ls-remote --symref -- origin HEAD refs/heads/feature",
                ok(output),
            )]),
        )
        .0
        .unwrap()
    };
    let copy = || upstream.clone();
    assert_eq!(
        inspect("ref: refs/heads/main\tHEAD\n1\tHEAD\n2\trefs/heads/feature\n"),
        UpstreamInspection::Removable(RemoteBranch {
            remote: "origin".to_string(),
            branch: "feature".to_string(),
            tip: "2".to_string(),
        })
    );
    assert_eq!(
        inspect("ref: refs/heads/feature\tHEAD\n2\trefs/heads/feature\n"),
        UpstreamInspection::Default(copy())
    );
    assert_eq!(
        inspect("2\trefs/heads/feature\n"),
        UpstreamInspection::DefaultUnknown(copy())
    );
    assert_eq!(
        inspect("ref: refs/heads/main\tHEAD\n"),
        UpstreamInspection::Absent(copy())
    );
}

#[test]
fn upstream_deletion_lease_refuses_a_ref_that_moved_after_inspection() {
    let shown = RemoteBranch {
        remote: "origin".into(),
        branch: "feature".into(),
        tip: "shown".into(),
    };
    let after = |read: Reply| {
        drive(
            |talk| delete_remote_branch(talk, &shown),
            repository(vec![
                ("push", failed("rejected\n")),
                ("ls-remote", read),
            ]),
        )
    };
    let (outcome, asked) = after(ok("moved\trefs/heads/feature\n"));
    assert_eq!(
        git_words(&asked[0]),
        "push --quiet --force-with-lease=refs/heads/feature:shown -- origin :refs/heads/feature"
    );
    assert_eq!(
        outcome,
        Ok(RemoteBranchDeleteOutcome::Moved {
            expected: "shown".to_string(),
            now: "moved".to_string(),
        })
    );
    assert_eq!(after(ok("")).0, Ok(RemoteBranchDeleteOutcome::AlreadyAbsent));
    assert_eq!(
        after(ok("shown\trefs/heads/feature\n")).0,
        Ok(RemoteBranchDeleteOutcome::Failed("rejected".to_string()))
    );
    assert_eq!(
        after(failed("")).0,
        Ok(RemoteBranchDeleteOutcome::Failed("rejected".to_string()))
    );
    let (deleted, _) = drive(
        |talk| delete_remote_branch(talk, &shown),
        repository(vec![("push", ok(""))]),
    );
    assert_eq!(deleted, Ok(RemoteBranchDeleteOutcome::Deleted));
}

// ---------------------------------------------------------------------------
// Deleting
// ---------------------------------------------------------------------------

/// A deletion of `topic` at `tip`, with the replies in the order they come.
fn deletion(replies: Vec<Reply>) -> Result<Option<BranchDeleteOutcome>, Error> {
    let mut talk = Talk::new(replies);
    delete_branch_at(&mut talk, None, "topic", "tip").expect("enough replies")
}

const HOLDING: &str = "worktree /w\nbranch refs/heads/topic\n";

#[test]
fn a_branch_is_deleted_with_its_configuration() {
    let outcome = deletion(vec![
        ok(MAIN_ONLY),
        ok(""),
        ok(MAIN_ONLY),
        ok("branch.topic.remote\0branch.topic.merge\0branch.topic.merge\0branch.topic.extra.remote\0"),
        ok(""),
        ran(5, "", ""),
        ok("branch.topic.extra.remote\0"),
    ]);
    assert_eq!(outcome, Ok(Some(BranchDeleteOutcome::Deleted)));
}

#[test]
fn keys_are_unset_one_by_one_and_only_the_branchs_own() {
    let mut talk = Talk::new(vec![
        ok(MAIN_ONLY),
        ok(""),
        ok(MAIN_ONLY),
        ok("core.bare\0branch.topic.extra.remote\0branch.topic.merge\0"),
    ]);
    assert!(delete_branch_at(&mut talk, Some("/m"), "topic", "tip").is_none());
    assert_eq!(
        git_words(&talk.pending().unwrap()),
        "/m: config --local --unset-all branch.topic.merge"
    );
}

#[test]
fn leftover_and_unread_configuration_is_reported() {
    let start = || vec![ok(MAIN_ONLY), ok(""), ok(MAIN_ONLY)];
    let mut left = start();
    left.extend([
        ok("branch.topic.a\0branch.topic.b\0"),
        failed(""),
        failed(""),
        ok("branch.topic.a\0branch.topic.b\0"),
    ]);
    assert_eq!(
        deletion(left),
        Ok(Some(BranchDeleteOutcome::DeletedLeavingConfig(
            "branch.topic.a, branch.topic.b".to_string()
        )))
    );
    let mut unread = start();
    unread.push(failed("fatal: bad config\n"));
    assert_eq!(
        deletion(unread),
        Ok(Some(BranchDeleteOutcome::DeletedConfigUnverified(
            "git config: fatal: bad config".to_string()
        )))
    );
}

#[test]
fn a_held_branch_is_refused_before_and_put_back_after() {
    let refused = Ok(Some(BranchDeleteOutcome::Failed(
        "cannot delete branch 'topic': it is checked out in a worktree".to_string(),
    )));
    assert_eq!(deletion(vec![ok(HOLDING)]), refused);
    assert_eq!(
        deletion(vec![ok(MAIN_ONLY), ok(""), ok(HOLDING), ok("")]),
        refused
    );
    let mut talk = Talk::new(vec![ok(MAIN_ONLY), ok(""), ok(HOLDING)]);
    assert!(delete_branch_at(&mut talk, None, "topic", "tip").is_none());
    assert_eq!(
        talk.pending(),
        Some(Request::Git {
            dir: None,
            args: args(&["update-ref", "refs/heads/topic", "tip", ""]),
            input: None,
            shown: false,
        })
    );
    assert_eq!(
        deletion(vec![ok(MAIN_ONLY), ok(""), failed("oops"), ok("")]),
        Ok(Some(BranchDeleteOutcome::Failed(
            "couldn't tell whether a worktree holds it: git worktree: oops".to_string()
        )))
    );
}

#[test]
fn a_branch_that_moved_is_not_deleted() {
    assert_eq!(
        deletion(vec![ok(MAIN_ONLY), failed("no"), ok("elsewhere\n")]),
        Ok(None)
    );
    assert_eq!(
        deletion(vec![ok(MAIN_ONLY), failed("no"), failed("gone")]),
        Ok(None)
    );
    assert_eq!(
        deletion(vec![ok(MAIN_ONLY), failed(" no \n"), ok("tip\n")]),
        Ok(Some(BranchDeleteOutcome::Failed("no".to_string())))
    );
}

#[test]
fn a_failed_restore_says_what_stands_there() {
    let not_restored = |held: Reply, state: Reply| {
        deletion(vec![ok(MAIN_ONLY), ok(""), held, failed("refused"), state])
    };
    assert_eq!(
        not_restored(ok(HOLDING), ok("now\n")),
        Ok(Some(BranchDeleteOutcome::DeletedThenRecreated {
            tip: "tip".to_string(),
            now: "now".to_string(),
        }))
    );
    assert_eq!(
        not_restored(ok(HOLDING), ran(1, "", "")),
        Ok(Some(BranchDeleteOutcome::DeletedNotRestored {
            tip: "tip".to_string(),
            detail: "git update-ref: refused".to_string(),
            holder: Holder::Seen,
        }))
    );
    assert_eq!(
        not_restored(failed("x"), ran(1, "", "warning: broken\n")),
        Ok(Some(BranchDeleteOutcome::DeletedStateUnknown {
            tip: "tip".to_string(),
            detail: "git update-ref: refused; and reading it back failed too: warning: broken"
                .to_string(),
            holder: Holder::Unknown,
        }))
    );
    assert_eq!(
        not_restored(ok(HOLDING), ran(-7, "", "")),
        Ok(Some(BranchDeleteOutcome::DeletedStateUnknown {
            tip: "tip".to_string(),
            detail: "git update-ref: refused; and reading it back failed too: git rev-parse exited Some(-7)"
                .to_string(),
            holder: Holder::Seen,
        }))
    );
    assert_eq!(
        not_restored(
            ok(HOLDING),
            Reply::Ran(Err(IoError {
                kind: IoKind::Other,
                message: "x".to_string()
            }))
        ),
        Ok(Some(BranchDeleteOutcome::DeletedStateUnknown {
            tip: "tip".to_string(),
            detail: "git update-ref: refused; and reading it back failed too: git could not be run"
                .to_string(),
            holder: Holder::Seen,
        }))
    );
}

#[test]
fn gits_own_deletions_report_what_git_said() {
    let (forced, asked) = drive(
        |talk| force_delete_branch(talk, None, "x"),
        repository(vec![("branch -D", failed("error: no such branch\n"))]),
    );
    assert_eq!(
        forced,
        Ok(BranchDeleteOutcome::Failed("error: no such branch".to_string()))
    );
    assert_eq!(git_words(&asked[0]), "branch -D --quiet x");
    for (reply, expected) in [
        (ok(""), BranchDeleteOutcome::Deleted),
        (
            failed("error: the branch 'x' is not fully merged"),
            BranchDeleteOutcome::NotMerged,
        ),
        (failed("else"), BranchDeleteOutcome::Failed("else".to_string())),
    ] {
        let (got, _) = drive(
            |talk| delete_branch_if_merged(talk, None, "x"),
            repository(vec![("branch -d", reply)]),
        );
        assert_eq!(got, Ok(expected));
    }
}

// ---------------------------------------------------------------------------
// Staleness, merging and equivalence
// ---------------------------------------------------------------------------

/// A repository whose default branch is `main`, at `aaa`.
fn anchored() -> Vec<(&'static str, Reply)> {
    vec![
        ("branch --show-current", ok("current\n")),
        ("config --get-all perch.keep", ok("kept\n")),
        (
            "symbolic-ref refs/remotes/origin/HEAD",
            ok("refs/remotes/origin/main\n"),
        ),
        (
            "for-each-ref",
            ok("main\taaa\trefs/heads/main\t\nz\tbbb\trefs/heads/z\tgone\n\
                kept\tbbb\trefs/heads/kept\tgone\ncurrent\tbbb\trefs/heads/c\tgone\n\
                ahead\tccc\trefs/heads/main\tahead 1\nuntracked\tddd\t\t\n"),
        ),
        ("rev-parse refs/heads/main", ok("aaa\n")),
        (
            "branch --format=%(refname:short) --merged refs/heads/main",
            ok("main\nuntracked\nahead\n"),
        ),
    ]
}

#[test]
fn the_sweep_offers_stale_branches_by_name_without_kept_or_current_ones() {
    let (stale, _) = drive(|talk| stale_branches(talk, "origin"), repository(anchored()));
    let branch = |ground, name: &str| StaleBranch {
        ground,
        name: name.to_string(),
    };
    assert_eq!(
        stale,
        Ok(vec![
            branch(Ground::TracksAnchorAhead, "ahead"),
            branch(Ground::UntrackedTipInAnchor, "untracked"),
            branch(Ground::Gone, "z"),
        ])
    );
}

#[test]
fn without_a_default_branch_the_sweep_offers_only_gone_upstreams() {
    let (stale, asked) = drive(
        |talk| stale_branches(talk, "origin"),
        repository(replaced(anchored(), "symbolic-ref", failed("none"))),
    );
    assert_eq!(
        stale
            .unwrap()
            .into_iter()
            .map(|b| b.name)
            .collect::<Vec<_>>(),
        ["z"]
    );
    assert!(asked.iter().all(|r| !git_words(r).contains("--merged")));
}

#[test]
fn unmerged_branches_are_asked_from_the_directory_of_the_delete() {
    let (unmerged, asked) = drive(
        |talk| unmerged_branches(talk, Some("/m")),
        repository(vec![
            ("/m: branch --format=%(refname:short) --merged", ok("main\n")),
            ("for-each-ref", ok("main\t1\trefs/heads/main\t\nx\t2\t\t\n")),
        ]),
    );
    let unmerged = unmerged.unwrap();
    assert_eq!(unmerged.get("x"), Some(&Unmerged::NoUpstream));
    assert_eq!(unmerged.get("main"), None);
    assert_eq!(asked.len(), 2);
}

fn proofs(extra: Vec<(&'static str, Reply)>) -> (Option<String>, Vec<Request>) {
    let mut rules = extra;
    rules.extend(anchored());
    rules.extend([
        ("rev-parse refs/heads/topic", ok("ttt\n")),
        ("merge-base aaa ttt", ok("base\n")),
        ("commit-tree ttt^{tree} -p base", ok("probe\n")),
    ]);
    let (found, asked) = drive(
        |talk| equivalent_branches(talk, None, "origin", &["topic"]),
        repository(rules),
    );
    (found.get("topic").map(|p| p.tip.clone()), asked)
}

#[test]
fn a_patch_that_landed_verbatim_proves_a_branch() {
    let landed = |commit_id: &'static str| {
        vec![
            ("cherry aaa probe", ok("- probe\n")),
            ("cherry probe aaa", ok("+ x\n- landed\n")),
            (
                "diff --ignore-submodules=none --no-textconv --no-ext-diff base ttt",
                ok("the diff"),
            ),
            (
                "show --ignore-submodules=none --no-textconv --no-ext-diff landed",
                ok("a diff"),
            ),
            ("patch-id --verbatim", ok(commit_id)),
            (
                "diff --ignore-submodules=none --no-textconv --no-ext-diff --name-only",
                failed(""),
            ),
        ]
    };
    let (proof, asked) = proofs(landed("id1 0000\n"));
    assert_eq!(proof.as_deref(), Some("ttt"));
    assert!(asked.iter().any(|r| matches!(
        r,
        Request::Git { input: Some(diff), .. } if diff == "the diff"
    )));
    assert_eq!(proofs(landed("\n")).0, None);
    assert_eq!(
        proofs(vec![("cherry aaa probe", ok("+ probe\n"))]).0,
        None
    );
}

#[test]
fn content_that_reads_the_same_proves_a_branch() {
    let content = |listing: &'static str, same: Reply| {
        vec![
            ("cherry", ok("+ probe\n")),
            (
                "diff --ignore-submodules=none --no-textconv --no-ext-diff --name-only --no-renames -z base ttt",
                ok(listing),
            ),
            (
                "--literal-pathspecs diff --ignore-submodules=none --no-textconv --no-ext-diff --quiet ttt aaa -- a b",
                same,
            ),
        ]
    };
    assert_eq!(proofs(content("a\0b\0", ok(""))).0.as_deref(), Some("ttt"));
    assert_eq!(proofs(content("a\0b\0", ran(1, "", ""))).0, None);
    assert_eq!(proofs(content("\u{fffd}\0", ok(""))).0, None);
}

#[test]
fn an_untouched_branch_cut_from_the_anchor_is_not_read_as_landed() {
    let (proof, asked) = proofs(vec![
        ("cherry aaa probe", ok("+ probe\n")),
        ("diff", ok("")),
    ]);
    assert_eq!(proof, None);
    assert!(asked.iter().all(|r| !git_words(r).contains("--quiet")));
}

// ---------------------------------------------------------------------------
// Prompts
// ---------------------------------------------------------------------------

fn keys(pressed: &[Key]) -> Vec<Reply> {
    pressed.iter().map(|key| Reply::Pressed(Ok(*key))).collect()
}

#[test]
fn a_confirmation_reads_keys_until_one_answers() {
    let answer = |default_yes: bool, pressed: &[Key]| {
        let mut replies = vec![Reply::Flag(true), Reply::Done];
        replies.extend(keys(pressed));
        replies.push(Reply::Done);
        let mut talk = Talk::new(replies);
        confirm(&mut talk, "Sure?", default_yes).unwrap().unwrap()
    };
    assert_eq!(answer(false, &[Key::Char('y')]), Confirmation::Accepted);
    assert_eq!(
        answer(false, &[Key::Char('x'), Key::Other, Key::Char('N')]),
        Confirmation::Declined
    );
    assert_eq!(answer(true, &[Key::Enter]), Confirmation::Accepted);
    assert_eq!(answer(false, &[Key::Enter]), Confirmation::Declined);
    assert_eq!(answer(true, &[Key::Escape]), Confirmation::Cancelled);
    for default_yes in [false, true] {
        let mut talk = Talk::new(vec![Reply::Flag(false)]);
        assert_eq!(
            confirm(&mut talk, "Sure?", default_yes).unwrap().unwrap(),
            if default_yes {
                Confirmation::Accepted
            } else {
                Confirmation::Declined
            }
        );
    }
    let interrupted = IoError {
        kind: IoKind::Interrupted,
        message: "interrupted".to_string(),
    };
    let mut talk = Talk::new(vec![
        Reply::Flag(true),
        Reply::Done,
        Reply::Pressed(Err(interrupted)),
    ]);
    let error = confirm(&mut talk, "Sure?", false).unwrap().unwrap_err();
    assert!(error.is_interrupt());
    assert_eq!(error.to_string(), "interrupted");
}

#[test]
fn keeping_or_discarding_is_described_and_asked() {
    let (choice, asked) = drive(
        |talk| prompt_keep_discard(talk, "main", "origin/main", 1, 2),
        |request| match request {
            Request::Interactive => Reply::Flag(true),
            Request::ReadKey => Reply::Pressed(Ok(Key::Char('D'))),
            _ => Reply::Done,
        },
    );
    assert_eq!(choice, Ok(Some(RefreshChoice::Discard)));
    assert_eq!(
        stderr_of(&asked),
        "main has diverged from origin/main: 1 local commit not on the remote, 2 on the remote not yet local.\n\
         Working tree has uncommitted changes.\ndiscard\n"
    );
    assert!(asked.contains(&Request::Prompt {
        question: "Refresh to origin/main?".to_string(),
        hint: "[k]eep (stash & rebase) / [d]iscard (hard reset) / esc".to_string(),
    }));
    let (none, asked) = drive(
        |talk| prompt_keep_discard(talk, "main", "origin/main", 0, 1),
        repository(vec![]),
    );
    assert_eq!(none, Ok(None));
    assert!(stderr_of(&asked).starts_with("origin/main has 1 new commit.\n"));
}

// ---------------------------------------------------------------------------
// Going to a branch
// ---------------------------------------------------------------------------

#[test]
fn br_refuses_a_held_branch_and_names_the_verb_that_reaches_it() {
    let (result, asked) = perch(&["br", "feature"], repository(held_feature()));

    let error = result.unwrap_err().to_string();
    assert!(
        error.contains("worktrees/repo/feature"),
        "error should name the worktree holding the branch; got: {error}"
    );
    assert!(
        error.contains("run `perch feature` to go there"),
        "error should point at the verb that reaches it; got: {error}"
    );
    assert_eq!(stdout_of(&asked).trim(), "");
    assert!(asked.iter().all(|r| !git_words(r).starts_with("checkout")));
}

#[test]
fn br_points_a_verb_named_branch_at_the_escape_hatch() {
    for (verb, listing) in [
        ("br", "worktree /src/repo\nbranch refs/heads/main\n\nworktree /w/br\nbranch refs/heads/br\n"),
        ("wt", "worktree /src/repo\nbranch refs/heads/main\n\nworktree /w/wt\nbranch refs/heads/wt\n"),
    ] {
        let (result, _) = perch(
            &["br", verb],
            repository(replaced(held_feature(), "worktree list", ok(listing))),
        );
        let error = result.unwrap_err().to_string();
        assert!(
            error.contains(&format!("run `perch -- {verb}` to go there")),
            "a branch named `{verb}` needs the `--` form; got: {error}"
        );
    }
}

#[test]
fn going_to_a_held_branch_hands_its_worktree_to_the_shell() {
    let (result, asked) = perch(&["feature"], repository(held_feature()));
    assert_eq!(result, Ok(()));
    assert_eq!(stdout_of(&asked), "/src/worktrees/repo/feature\n");
    assert_eq!(
        stderr_of(&asked),
        "→ feature is checked out at /src/worktrees/repo/feature\n"
    );
}

#[test]
fn without_a_wrapper_the_user_is_told_where_to_go() {
    let rules = repository(held_feature());
    let (result, asked) = perch(&["feature"], move |request| match request {
        Request::StdoutIsTerminal => Reply::Flag(true),
        Request::Home => Reply::Text(Some("/src".to_string())),
        _ => rules(request),
    });
    assert_eq!(result, Ok(()));
    assert_eq!(stdout_of(&asked), "");
    assert_eq!(
        stderr_of(&asked),
        "→ feature is checked out at ~/worktrees/repo/feature\n\
         ! shell integration not active — can't cd for you. Run:\n\
         \u{20} cd /src/worktrees/repo/feature\n\
         \u{20} (enable auto-cd: see README \"Shell integration\")\n"
    );
}

#[test]
fn a_switch_stashes_and_restores_whatever_comes_of_it() {
    let rules = |checkout: Reply| {
        vec![
            ("branch --show-current", ok("main\n")),
            ("config --get branch.main.remote", ok("origin\n")),
            ("worktree list", ok(MAIN_ONLY)),
            ("status", ok(" M file\n")),
            ("stash push", ok("")),
            ("stash pop", ok("")),
            ("checkout topic", checkout),
            ("checkout main", ok("")),
            ("fetch", failed("no route\nto host\n")),
            ("rev-parse --verify origin/topic", failed("")),
        ]
    };
    let (result, asked) = perch(&["topic"], repository(rules(ok(""))));
    assert_eq!(result, Ok(()));
    assert_eq!(
        stderr_of(&asked),
        "! fetch failed; results may be stale\n  no route\n  to host\nNo remote tracking branch.\n"
    );
    assert_eq!(git_words(asked.last().unwrap()), "stash pop");

    let (result, asked) = perch(&["topic"], repository(rules(failed("no such branch"))));
    assert_eq!(
        result.unwrap_err().to_string(),
        "git checkout: no such branch"
    );
    assert_eq!(
        stderr_of(&asked),
        "Switching back to main and restoring stashed changes.\n"
    );
    assert_eq!(git_words(asked.last().unwrap()), "stash pop");
}

#[test]
fn refreshing_a_detached_head_is_an_error() {
    let (result, _) = perch(
        &["."],
        repository(vec![("branch", ok("\n")), ("remote", ok("origin\n"))]),
    );
    assert_eq!(
        result.unwrap_err().to_string(),
        "not on a branch (detached HEAD); nothing to refresh"
    );
}

fn refresh(counts: &'static str, status: &'static str) -> (Result<(), Error>, Vec<Request>) {
    perch(
        &["."],
        repository(vec![
            ("branch --show-current", ok("main\n")),
            ("config --get branch.main.remote", ok("origin\n")),
            ("fetch", ok("")),
            ("rev-parse --verify origin/main", ok("x")),
            ("rev-list --left-right --count origin/main...HEAD", ok(counts)),
            ("status", ok(status)),
            ("-c advice.skippedCherryPicks=false rebase origin/main", failed("")),
            ("rev-parse HEAD", ok("same")),
            ("-c advice.diverging=false merge --ff-only origin/main", ok("")),
        ]),
    )
}

#[test]
fn a_refresh_integrates_only_what_is_incoming() {
    let (result, asked) = refresh("0\t0\n", " M x\n");
    assert_eq!(result, Ok(()));
    assert_eq!(stderr_of(&asked), "Already up to date.\n");

    let (result, asked) = refresh("0\t3\n", "");
    assert_eq!(result, Ok(()));
    assert_eq!(
        stderr_of(&asked),
        "main is 3 commits ahead of origin/main; nothing to pull.\n"
    );

    let (result, asked) = refresh("2\t0\n", "");
    assert_eq!(result, Ok(()));
    assert_eq!(stderr_of(&asked), "Already up to date.\n");

    let (result, asked) = refresh("2\t1\n", "");
    assert_eq!(result, Err(Error::Diverged));
    assert_eq!(
        stderr_of(&asked),
        "Rebase aborted due to conflicts. Run `git rebase -- origin/main` manually to reconcile.\n"
    );

    let (result, asked) = refresh("2\t1\n", " M x\n");
    assert_eq!(result, Ok(()));
    assert!(stderr_of(&asked).ends_with("Left main unchanged.\n"));
    assert!(asked.iter().all(|r| {
        let words = git_words(r);
        !words.contains("rebase") && !words.starts_with("reset") && !words.starts_with("stash")
    }));

    let (result, _) = refresh("many\t1\n", "");
    assert_eq!(
        result.unwrap_err().to_string(),
        "invalid number from git: invalid digit found in string"
    );
}

// ---------------------------------------------------------------------------
// `wt`
// ---------------------------------------------------------------------------

#[test]
fn wt_rejects_an_unknown_option_in_the_branch_position() {
    let (result, asked) = perch(&["wt", "short", "--typo"], repository(held_feature()));

    assert!(result
        .unwrap_err()
        .to_string()
        .contains("unknown option '--typo'"));
    assert!(asked.is_empty());
}

#[test]
fn wt_no_switch_is_rejected_before_rm() {
    let (result, asked) = perch(
        &["wt", "--no-switch", "rm", ".", "--force"],
        repository(held_feature()),
    );
    assert!(
        result.is_err(),
        "the create-only option must not reach `wt rm`"
    );
    assert!(asked.is_empty());
}

#[test]
fn wt_rm_rejects_malformed_invocations_before_removing_anything() {
    let cases: &[(&[&str], &str)] = &[
        (
            &["wt", "rm", "--remote", "feature"],
            "unknown option '--remote'",
        ),
        (
            &["wt", "rm", "-f", "--force", "feature"],
            "duplicate option '--force'",
        ),
        (
            &["wt", "rm", "--", "feature", "other"],
            "unexpected extra target 'other'",
        ),
    ];
    for (words, expected) in cases {
        let (result, asked) = perch(words, repository(held_feature()));
        let error = result.unwrap_err().to_string();
        assert!(
            error.contains(expected),
            "{words:?} should report {expected:?}; got: {error}"
        );
        assert!(asked.is_empty(), "{words:?} must not ask for anything");
    }
}

#[test]
fn wt_uses_the_registered_worktree_instead_of_an_explicit_directory_name() {
    let (result, asked) = perch(&["wt", "ignored", "feature"], repository(held_feature()));

    assert_eq!(result, Ok(()));
    assert_eq!(stdout_of(&asked), "/src/worktrees/repo/feature\n");
    assert!(asked
        .iter()
        .all(|r| !matches!(r, Request::MakeDirectories(_))));
}

#[test]
fn wt_no_switch_finds_an_existing_worktree_without_claiming_to_switch() {
    let (result, asked) = perch(
        &["wt", "--no-switch", "feature"],
        repository(held_feature()),
    );

    assert_eq!(result, Ok(()));
    assert_eq!(
        stdout_of(&asked),
        "",
        "--no-switch must not print a path for the shell wrapper"
    );
    assert!(
        !stderr_of(&asked).contains("switched to"),
        "the status must not claim a switch happened, got: {}",
        stderr_of(&asked)
    );
}

/// A repository without any worktree but the main one, where `feature` is new.
fn fresh() -> Vec<(&'static str, Reply)> {
    let mut rules = held_feature();
    rules.splice(
        0..0,
        [
            ("worktree list --porcelain", ok(MAIN_ONLY)),
            ("branch --format=%(refname:short)", ok("main\n")),
            ("for-each-ref", ok("origin/HEAD\norigin/main\n")),
            (
                "symbolic-ref refs/remotes/origin/HEAD",
                ok("refs/remotes/origin/main\n"),
            ),
            ("worktree add", ok("")),
        ],
    );
    rules
}

#[test]
fn wt_no_switch_creates_a_new_branch_without_a_shell_handoff() {
    let (result, asked) = perch(
        &["wt", "brand-new", "--no-switch"],
        repository(fresh()),
    );

    assert_eq!(result, Ok(()));
    assert!(asked.iter().any(|r| git_words(r)
        == "worktree add --track -b brand-new /src/worktrees/repo/brand-new origin/main"));
    assert_eq!(
        stdout_of(&asked),
        "",
        "--no-switch must not print a path for the shell wrapper"
    );
    assert_eq!(
        stderr_of(&asked),
        "✓ created brand-new from origin/main at /src/worktrees/repo/brand-new\n"
    );
}

#[test]
fn a_failing_wt_hook_leaves_the_worktree_and_the_handoff_intact() {
    let rules = repository(replaced(
        fresh(),
        "config --get perch.hook.created",
        ok("echo 'hook says no' >&2; exit 3\n"),
    ));
    let (result, asked) = perch(&["wt", "feature"], move |request| match request {
        Request::Shell { dir, command, env } => {
            assert_eq!(dir, "/src/repo");
            assert_eq!(command, "echo 'hook says no' >&2; exit 3");
            let expected: Vec<(String, String)> = [
                ("PERCH_BRANCH", "feature"),
                ("PERCH_EVENT", "created"),
                ("PERCH_MAIN", "/src/repo"),
                ("PERCH_WORKTREE", "/src/worktrees/repo/feature"),
            ]
            .map(|(k, v)| (k.to_string(), v.to_string()))
            .to_vec();
            assert_eq!(*env, expected);
            ran(3, "", "")
        }
        _ => rules(request),
    });

    assert_eq!(result, Ok(()), "a failing hook must not fail the command");
    assert_eq!(stdout_of(&asked), "/src/worktrees/repo/feature\n");
    assert!(
        stderr_of(&asked).contains("created hook exited 3"),
        "a non-zero exit should be warned about; got: {}",
        stderr_of(&asked)
    );
}

#[test]
fn wt_creates_a_worktree_with_a_directory_name_of_its_own() {
    let rules = replaced(
        fresh(),
        "branch --format=%(refname:short)",
        ok("main\nfeature\n"),
    );
    let (result, asked) = perch(&["wt", "545", "feature"], repository(rules));
    assert_eq!(result, Ok(()));
    assert_eq!(stdout_of(&asked), "/src/worktrees/repo/545\n");
    assert!(asked
        .iter()
        .any(|r| git_words(r) == "worktree add /src/worktrees/repo/545 feature"));
    assert!(asked.contains(&Request::MakeDirectories("/src/worktrees/repo".to_string())));
    assert_eq!(fetches(&asked).len(), 1);
}

#[test]
fn a_new_branch_needs_a_default_branch_to_be_cut_from() {
    let (result, _) = perch(
        &["wt", "brand-new"],
        repository(replaced(fresh(), "symbolic-ref", failed("none"))),
    );
    assert_eq!(
        result.unwrap_err().to_string(),
        "git worktree add: no default branch on origin; cannot pick a base"
    );
}

#[test]
fn a_path_that_is_taken_is_refused() {
    let rules = repository(fresh());
    let (result, _) = perch(&["wt", "brand-new"], move |request| match request {
        Request::Exists(_) => Reply::Flag(true),
        _ => rules(request),
    });
    assert_eq!(
        result.unwrap_err().to_string(),
        "git worktree add: /src/worktrees/repo/brand-new exists but is not a registered worktree; remove it manually and retry."
    );
}

#[test]
fn no_switch_changes_only_the_handoff() {
    for rules in [held_feature, fresh] {
        let (_, whole) = perch(&["wt", "feature"], repository(rules()));
        let (_, quiet) = perch(&["wt", "feature", "--no-switch"], repository(rules()));
        for (w, q) in whole.iter().zip(&quiet) {
            let both_found = matches!(w, Request::Tell { mark: Mark::Arrow, text }
                    if text.starts_with("switched to worktree at "))
                && matches!(q, Request::Tell { mark: Mark::Arrow, text }
                    if text.starts_with("worktree for feature is at "));
            assert!(w == q || both_found, "{w:?} {q:?}");
        }
        assert_eq!(
            whole[quiet.len()..],
            [
                Request::StdoutIsTerminal,
                Request::Print("/src/worktrees/repo/feature\n".to_string()),
            ]
        );
    }
}

#[test]
fn wt_updates_an_existing_worktree_with_a_single_fetch() {
    let (result, asked) = perch(
        &["wt", "feature", "--no-switch"],
        repository(held_feature()),
    );
    assert_eq!(result, Ok(()));
    assert_eq!(fetches(&asked).len(), 1, "{:?}", fetches(&asked));
}

#[test]
fn wt_fetches_the_branch_remote_too_when_it_is_not_the_one_prefetched() {
    let rules = replaced(
        held_feature(),
        "config --get branch.feature.remote",
        ok("upstream\n"),
    );
    let (result, asked) = perch(&["wt", "feature", "--no-switch"], repository(rules));
    assert_eq!(result, Ok(()));
    let fetches = fetches(&asked);
    assert_eq!(fetches.len(), 2, "fetches: {fetches:?}");
    assert!(fetches[0].ends_with("origin"), "fetches: {fetches:?}");
    assert!(fetches[1].ends_with("upstream"), "fetches: {fetches:?}");
}

fn wt_feature_fetches(rules: Vec<(&'static str, Reply)>) -> usize {
    let (result, asked) = perch(&["wt", "feature", "--no-switch"], repository(rules));
    assert_eq!(result, Ok(()));
    fetches(&asked).len()
}

#[test]
fn wt_still_fetches_a_worktree_whose_origin_fetches_other_refs() {
    let rules = replaced(
        held_feature(),
        "/src/worktrees/repo/feature: config --null --list",
        ok("core.bare\nfalse\0remote.origin.fetch\n+refs/heads/*:refs/remotes/origin/*\0"),
    );
    assert_eq!(wt_feature_fetches(rules), 2);
}

#[test]
fn wt_still_fetches_a_worktree_whose_fetch_config_differs() {
    let rules = replaced(
        held_feature(),
        "/src/worktrees/repo/feature: config --null --list",
        ok("core.bare\nfalse\0fetch.prunetags\ntrue\0"),
    );
    assert_eq!(wt_feature_fetches(rules), 2);
    let rules = repository(held_feature());
    let (_, asked) = perch(&["wt", "feature", "--no-switch"], move |request| {
        match request {
            Request::Environment => {
                Reply::Variables(vec![("GIT_CONFIG".into(), "/src/repo/.git/config".into())])
            }
            _ => rules(request),
        }
    });
    assert_eq!(fetches(&asked).len(), 2);
}

#[test]
fn wt_still_fetches_a_worktree_whose_origin_points_elsewhere() {
    let rules = replaced(
        held_feature(),
        "/src/worktrees/repo/feature: remote get-url",
        ok("/srv/elsewhere.git\n"),
    );
    assert_eq!(wt_feature_fetches(rules), 2);
}

#[test]
fn wt_still_fetches_a_worktree_under_a_relative_hooks_path() {
    let config = || ok("core.hookspath\nhooks\0");
    let rules = replaced(
        replaced(held_feature(), "config --null --list", config()),
        "/src/worktrees/repo/feature: config --null --list",
        config(),
    );
    assert_eq!(wt_feature_fetches(rules), 2);
    let config = || ok("core.hookspath\n/etc/hooks\0");
    let rules = replaced(
        replaced(held_feature(), "config --null --list", config()),
        "/src/worktrees/repo/feature: config --null --list",
        config(),
    );
    assert_eq!(wt_feature_fetches(rules), 1);
}

#[test]
fn wt_still_fetches_a_worktree_when_the_environment_picks_the_repository() {
    for (name, value, expected) in [
        ("GIT_COMMON_DIR", "/src/repo/.git", 2),
        ("GIT_EXEC_PATH", ".", 2),
        ("GIT_EXEC_PATH", "/usr/lib/git-core", 1),
        ("GIT_SSH_COMMAND", "./ssh", 2),
        ("GIT_SSH_COMMAND", "ssh -i /key", 1),
        ("PATH", ".:/bin", 2),
        ("PATH", ":/bin", 2),
        ("PATH", "/bin", 1),
        ("TERM", "./x", 1),
    ] {
        let rules = repository(held_feature());
        let (result, asked) = perch(&["wt", "feature", "--no-switch"], move |request| {
            match request {
                Request::Environment => {
                    Reply::Variables(vec![(name.to_string(), value.to_string())])
                }
                _ => rules(request),
            }
        });
        assert_eq!(result, Ok(()));
        assert_eq!(fetches(&asked).len(), expected, "{name}={value}");
    }
}

/// How often `wt` fetches for a worktree, where both directories give the same
/// URL and configuration.
fn fetches_under(url: Option<&str>, config: &str, env: &[(&str, &str)]) -> usize {
    let mut rules = held_feature();
    for start in [
        "remote get-url",
        "/src/worktrees/repo/feature: remote get-url",
    ] {
        let reply = match url {
            Some(url) => ok(url),
            None => failed("error: No such remote\n"),
        };
        rules = replaced(rules, start, reply);
    }
    for start in [
        "config --null --list",
        "/src/worktrees/repo/feature: config --null --list",
    ] {
        rules = replaced(rules, start, ok(config));
    }
    let mut variables = vec![("HOME".to_string(), "/home/me".to_string())];
    for (name, value) in env {
        variables.push((name.to_string(), value.to_string()));
    }
    let rules = repository(rules);
    let (result, asked) = perch(&["wt", "feature", "--no-switch"], move |request| {
        match request {
            Request::Environment => Reply::Variables(variables.clone()),
            _ => rules(request),
        }
    });
    assert_eq!(result, Ok(()));
    fetches(&asked).len()
}

#[test]
fn wt_still_fetches_a_worktree_whose_origin_resolves_from_where_it_runs() {
    let ssh = Some("ssh://example.invalid/repo.git");
    for (url, config, env) in [
        (Some("../origin.git"), "", &[][..]),
        (Some("ext::git %s ../origin.git"), "", &[]),
        (
            Some("file://../origin.git"),
            "remote.origin.vcs\nrelative\0",
            &[],
        ),
        (Some("relative://../origin.git"), "", &[]),
        (None, "remote.origin.vcs\nrelative\0", &[]),
        (ssh, "core.sshcommand\n./ssh\0ssh.variant\nsimple\0", &[]),
        (
            ssh,
            "core.sshcommand\nenv WRAPPED=1 ./ssh\0ssh.variant\nsimple\0",
            &[],
        ),
        (ssh, "ssh.variant\nsimple\0", &[("GIT_EXEC_PATH", ".")]),
        (ssh, "ssh.variant\nsimple\0", &[("GIT_SSH_COMMAND", "./ssh")]),
        (ssh, "ssh.variant\nsimple\0", &[("PATH", ".:/usr/bin")]),
        (ssh, "ssh.variant\nsimple\0", &[("PATH", ":/usr/bin")]),
    ] {
        assert_eq!(fetches_under(url, config, env), 2, "{url:?} {config} {env:?}");
    }
}

#[test]
fn an_address_that_is_the_same_from_everywhere_is_fetched_once() {
    for (url, config) in [
        ("/srv/origin.git", ""),
        ("file:///srv/origin.git", ""),
        ("https://example.com/repo.git", ""),
        ("ssh://example.invalid/repo.git", "core.sshcommand\nssh -v\0"),
        ("git@example.org:owner/repo.git", ""),
        ("example.org:/srv/repo.git", ""),
        ("git@example.org:repo.git", "core.sshcommand\nssh -i ~/.ssh/key\0"),
        (
            "git@example.org:repo.git",
            "core.sshcommand\nenv KEY=/k ssh -F \"/etc/ssh/me\"\0",
        ),
        ("/srv/origin.git", "core.hookspath\n~/hooks\0"),
    ] {
        assert_eq!(fetches_under(Some(url), config, &[]), 1, "{url} {config}");
    }
}

#[test]
fn a_colon_alone_does_not_make_a_host() {
    for url in [
        "helper::address",
        "./odd:name",
        "relative://host/path",
        "file://../origin.git",
        "origin.git",
    ] {
        assert_eq!(fetches_under(Some(url), "", &[]), 2, "{url}");
    }
}

#[test]
fn a_path_below_a_home_that_is_relative_is_fetched_again() {
    assert_eq!(
        fetches_under(
            Some("/srv/origin.git"),
            "core.hookspath\n~/hooks\0",
            &[("HOME", "home")]
        ),
        2
    );
    assert_eq!(
        fetches_under(Some("/srv/origin.git"), "core.gitproxy\n~/proxy\0", &[]),
        2
    );
}

#[test]
fn wt_still_fetches_a_worktree_the_prefetch_failed_to_cover() {
    let rules = repository(replaced(
        held_feature(),
        "fetch --quiet",
        failed("cannot open FETCH_HEAD\n"),
    ));
    let (result, asked) = perch(&["wt", "feature", "--no-switch"], move |request| {
        match request {
            Request::Await(_) => failed(""),
            _ => rules(request),
        }
    });
    assert_eq!(result, Ok(()));
    assert_eq!(
        fetches(&asked),
        [
            "fetch --quiet --prune origin",
            "fetch --quiet --prune origin",
            "/src/worktrees/repo/feature: fetch --quiet --prune origin",
        ]
    );
}

#[test]
fn wt_reports_an_unreachable_remote_once_when_updating_a_worktree() {
    let rules = replaced(
        replaced(held_feature(), "fetch --quiet", failed("unreachable\n")),
        "/src/worktrees/repo/feature: fetch --quiet",
        failed("unreachable\n"),
    );
    let rules = repository(rules);
    let (result, asked) = perch(&["wt", "feature", "--no-switch"], move |request| {
        match request {
            Request::Await(_) => failed(""),
            _ => rules(request),
        }
    });
    assert_eq!(result, Ok(()));
    assert_eq!(fetches(&asked).len(), 3);
    assert_eq!(
        stderr_of(&asked)
            .matches("fetch failed; results may be stale")
            .count(),
        1
    );
}

/// A repository whose worktree gains submodules once the background fetch is
/// under way.
fn gaining_submodules(rules: Vec<(&'static str, Reply)>) -> Vec<String> {
    let rules = repository(rules);
    let under_way = std::cell::Cell::new(false);
    let (result, asked) = perch(&["wt", "feature", "--no-switch"], move |request| {
        match request {
            Request::Exists(path) => Reply::Flag(
                under_way.get() && path == "/src/worktrees/repo/feature/.gitmodules",
            ),
            Request::Background { .. } => {
                under_way.set(true);
                rules(request)
            }
            _ => rules(request),
        }
    });
    assert_eq!(result, Ok(()));
    fetches(&asked)
}

#[test]
fn wt_still_fetches_a_worktree_with_submodules() {
    let rules = repository(held_feature());
    let (result, asked) = perch(&["wt", "feature", "--no-switch"], move |request| {
        match request {
            Request::Exists(path) => Reply::Flag(path.ends_with("/.gitmodules")),
            _ => rules(request),
        }
    });
    assert_eq!(result, Ok(()));
    assert_eq!(
        fetches(&asked),
        ["/src/worktrees/repo/feature: fetch --quiet --prune origin"]
    );

    assert_eq!(
        gaining_submodules(held_feature()),
        [
            "fetch --quiet --prune origin",
            "/src/worktrees/repo/feature: fetch --quiet --prune origin --recurse-submodules=yes",
        ]
    );
}

#[test]
fn submodules_gained_meanwhile_are_fetched_from_another_remote_too() {
    let rules = replaced(
        held_feature(),
        "config --get branch.feature.remote",
        ok("upstream\n"),
    );
    assert_eq!(
        gaining_submodules(rules),
        [
            "fetch --quiet --prune origin",
            "/src/worktrees/repo/feature: fetch --quiet --prune upstream --recurse-submodules=yes",
        ]
    );
}

#[test]
fn a_repository_with_submodules_is_not_fetched_ahead() {
    let rules = repository(held_feature());
    let (result, asked) = perch(&["wt", "feature", "--no-switch"], move |request| {
        match request {
            Request::Exists(path) => {
                Reply::Flag(path == "/src/worktrees/repo/feature/.gitmodules")
            }
            _ => rules(request),
        }
    });
    assert_eq!(result, Ok(()));
    assert_eq!(
        fetches(&asked),
        ["/src/worktrees/repo/feature: fetch --quiet --prune origin"]
    );
}

#[test]
fn a_repository_that_keeps_submodules_is_not_fetched_ahead_either() {
    let rules = repository(held_feature());
    let (result, asked) = perch(&["wt", "feature", "--no-switch"], move |request| {
        match request {
            Request::Exists(path) => Reply::Flag(path == "/src/repo/.git/modules"),
            _ => rules(request),
        }
    });
    assert_eq!(result, Ok(()));
    assert!(asked
        .iter()
        .all(|r| !matches!(r, Request::Background { .. })));
}

#[test]
fn the_background_fetch_asks_nobody() {
    let (_, asked) = perch(&["wt", "feature"], repository(held_feature()));
    let env: Vec<(String, String)> = asked
        .iter()
        .find_map(|r| match r {
            Request::Background { env, .. } => Some(env.clone()),
            _ => None,
        })
        .unwrap();
    let expected: Vec<(String, String)> = [
        ("GIT_ASKPASS", ""),
        ("GIT_TERMINAL_PROMPT", "0"),
        ("SSH_ASKPASS", ""),
        ("SSH_ASKPASS_REQUIRE", "never"),
    ]
    .iter()
    .map(|(k, v)| (k.to_string(), v.to_string()))
    .collect();
    assert_eq!(env, expected);
}

#[test]
fn a_picked_branch_that_is_gone_is_reported_and_not_created() {
    let resolve = |existence| {
        drive(
            |talk| resolve_target(talk, "target", existence, &[], "origin"),
            repository(vec![
                ("branch", ok("main\n")),
                ("for-each-ref", failed("")),
            ]),
        )
        .0
    };
    assert_eq!(
        resolve(Existence::MustExist).unwrap_err().to_string(),
        "target no longer exists; it was deleted after the list was drawn"
    );
    assert_eq!(
        resolve(Existence::MayCreate),
        Ok(Action::CreateNewBranch("target".to_string()))
    );
}

#[test]
fn a_failed_creation_fires_no_hook() {
    let (result, asked) = drive(
        |talk| create_worktree(talk, "/src/repo", "x", "x", None, "origin", None),
        repository(vec![
            ("fetch", ok("")),
            ("worktree add", failed("fatal: no")),
        ]),
    );
    assert_eq!(
        result.unwrap_err().to_string(),
        "git worktree add: fatal: no"
    );
    assert!(asked.iter().all(|r| !matches!(r, Request::Shell { .. })));
    assert!(asked.iter().all(|r| !git_words(r).contains("perch.hook")));
}

#[test]
fn wt_picks_from_the_catalogue() {
    let rules = repository(replaced(
        fresh(),
        "for-each-ref",
        ok("origin/main\norigin/published\n"),
    ));
    let (result, asked) = perch(&["wt"], move |request| match request {
        Request::PickBranch {
            prompt,
            local,
            remote_only,
            allow_create,
        } => {
            assert_eq!(prompt, "Worktree");
            assert_eq!(local.len(), 1);
            assert_eq!(local[0].name, "main");
            assert!(local[0].ticked);
            assert_eq!(remote_only.len(), 1);
            assert_eq!(remote_only[0].name, "published");
            assert!(allow_create);
            Reply::Picked(Ok(Some(Picked::Existing("published".to_string()))))
        }
        Request::Interactive => Reply::Flag(true),
        _ => rules(request),
    });
    assert_eq!(result, Ok(()));
    assert!(asked
        .iter()
        .any(|r| git_words(r) == "worktree add /src/worktrees/repo/published published"));
}

#[test]
fn br_greys_out_what_another_worktree_holds() {
    for (words, selectable, detail) in [
        (&["br"][..], false, "in /src/worktrees/repo/feature — use `perch`"),
        (&[][..], true, "/src/worktrees/repo/feature"),
    ] {
        let rules = repository(replaced(
            held_feature(),
            "branch --format=%(refname:short)",
            ok("main\nfeature\n"),
        ));
        let (result, _) = perch(words, move |request| match request {
            Request::PickBranch { local, .. } => {
                assert_eq!(local[1].name, "feature");
                assert_eq!(local[1].selectable, selectable);
                assert_eq!(local[1].detail, detail);
                Reply::Picked(Ok(None))
            }
            Request::Interactive => Reply::Flag(true),
            _ => rules(request),
        });
        assert_eq!(result, Ok(()));
    }
}

#[test]
fn wt_ls_lists_all_worktrees() {
    let rules = replaced(
        held_feature(),
        "for-each-ref --format=%(refname:short)%09%(upstream:track,nobracket)",
        ok("main\t\nfeature\tahead 2, behind 1\n"),
    );
    let rules = repository(replaced(
        rules,
        "/src/worktrees/repo/feature: status",
        ok("?? x\n"),
    ));
    let (result, asked) = perch(&["wt", "ls"], move |request| match request {
        Request::Status(signs) => Reply::Text(Some(
            signs
                .iter()
                .map(|sign| sign.text())
                .collect::<Vec<_>>()
                .join(" "),
        )),
        _ => rules(request),
    });
    assert_eq!(result, Ok(()));
    assert_eq!(
        stdout_of(&asked),
        "* main              /src/repo\n  feature  ● ↑2 ↓1  /src/worktrees/repo/feature\n"
    );
}

// ---------------------------------------------------------------------------
// Removing
// ---------------------------------------------------------------------------

fn offers() -> Assessment {
    Assessment {
        subject: Subject::Branches,
        dir: None,
        offers: ["a", "b", "c"]
            .iter()
            .enumerate()
            .map(|(i, name)| Offer {
                id: 10 + i,
                name: name.to_string(),
                branch: Some(name.to_string()),
                worktree: None,
                missing: false,
                dirty: false,
                unmerged: if *name == "b" {
                    Some(Unmerged::Ahead(2))
                } else {
                    None
                },
                proof: None,
                held: None,
                ground: None,
                ticked: false,
            })
            .collect(),
    }
}

#[test]
fn ticked_rows_become_the_offers_they_stand_for() {
    for force in [false, true] {
        let (selection, asked) = drive(
            |talk| select_removal_locals(talk, &offers(), None, force, "Pick"),
            |request| match request {
                Request::Interactive => Reply::Flag(true),
                _ => Reply::Ticked(Ok(Some(vec![2, 0, 7]))),
            },
        );
        let selection = selection.unwrap().unwrap();
        assert_eq!(
            selection
                .offers()
                .iter()
                .map(|o| o.name.as_str())
                .collect::<Vec<_>>(),
            ["c", "a"]
        );
        let expected = if force {
            Choice::ForcedPicked(vec![12, 10])
        } else {
            Choice::Picked(vec![12, 10])
        };
        assert_eq!(selection.into_choice(), expected);
        assert_eq!(asked.len(), 2);
    }
    let (nothing, _) = drive(
        |talk| select_removal_locals(talk, &offers(), None, true, "Pick"),
        repository(vec![]),
    );
    assert_eq!(nothing, Ok(None));
}

#[test]
fn a_named_target_with_warnings_is_refused_where_nobody_can_be_asked() {
    let select = |force: bool, interactive: bool, key: Key| {
        drive(
            |talk| select_removal_locals(talk, &offers(), Some("b"), force, "Pick"),
            move |request| match request {
                Request::Interactive => Reply::Flag(interactive),
                Request::ReadKey => Reply::Pressed(Ok(key)),
                _ => Reply::Done,
            },
        )
    };
    assert_eq!(
        select(false, false, Key::Other).0.unwrap_err().to_string(),
        "b has 2 unmerged commits; pass --force to remove it anyway"
    );
    let (accepted, asked) = select(false, true, Key::Char('y'));
    assert_eq!(accepted.unwrap().unwrap().into_choice(), Choice::Named(11));
    assert_eq!(stderr_of(&asked), "! b has 2 unmerged commits\ny\n");
    assert_eq!(select(false, true, Key::Escape).0, Ok(None));
    let forced = select(true, false, Key::Other).0.unwrap().unwrap();
    assert_eq!(forced.offers().len(), 1);
    assert_eq!(forced.into_choice(), Choice::Forced(11));
}

// ---------------------------------------------------------------------------
// Reclaiming
// ---------------------------------------------------------------------------

const ORIGINAL: &str = "/w/manual";
const TRASH: &str = "/w/.perch-trash.manual.1";

fn recorded(record: &Record) -> Reply {
    ok(&format!("{}\0", record.encode().unwrap()))
}

#[test]
fn the_next_wt_command_starts_a_worker_for_each_record() {
    let record = Record::ready(ORIGINAL, TRASH);
    let (_, asked) = drive(
        retry,
        repository(vec![
            ("rev-parse", ok("/src/repo/.git\n")),
            (
                "config --file /src/repo/.git/config --null --get-all perch.reclamation.worktree",
                recorded(&record),
            ),
        ]),
    );
    assert!(asked.contains(&Request::SpawnWorker(record.encode().unwrap())));
    assert!(asked.iter().all(|r| !matches!(r, Request::Lock(_))));
}

#[test]
fn a_ready_record_is_deleted_and_forgotten() {
    let record = Record::ready(ORIGINAL, TRASH);
    let (result, asked) = drive(
        |talk| reclaim(talk, &record),
        repository(vec![
            ("rev-parse", ok("/src/repo/.git\n")),
            ("config --file /src/repo/.git/config --null", recorded(&record)),
            ("config", ran(5, "", "")),
        ]),
    );
    assert_eq!(result, Ok(()));
    assert!(asked.contains(&Request::Lock(
        "/src/repo/.git/perch-reclamation.lock".to_string()
    )));
    let unlock = asked.iter().position(|r| *r == Request::Unlock).unwrap();
    let remove = asked
        .iter()
        .position(|r| *r == Request::RemoveTree(TRASH.to_string()))
        .unwrap();
    assert!(unlock < remove);
    assert!(git_words(asked.last().unwrap()).contains("--fixed-value --unset-all"));
}

#[test]
fn a_staged_record_deregisters_before_reclaiming_after_a_crash() {
    let record = Record::staged(ORIGINAL, TRASH);
    let (result, asked) = drive(
        |talk| reclaim(talk, &record),
        repository(vec![
            ("rev-parse", ok("/src/repo/.git\n")),
            ("config --file /src/repo/.git/config --null", recorded(&record)),
            ("config", ok("")),
            ("worktree remove /w/manual", ok("")),
        ]),
    );
    assert_eq!(result, Ok(()));
    let deregistered = asked
        .iter()
        .position(|r| git_words(r) == "worktree remove /w/manual")
        .unwrap();
    let removed = asked
        .iter()
        .position(|r| *r == Request::RemoveTree(TRASH.to_string()))
        .unwrap();
    assert!(deregistered < removed);
}

#[test]
fn a_staged_record_never_reclaims_an_existing_original() {
    let record = Record::staged(ORIGINAL, TRASH);
    for trash_exists in [false, true] {
        let rules = repository(vec![
            ("rev-parse", ok("/src/repo/.git\n")),
            ("config --file /src/repo/.git/config --null", recorded(&record)),
            ("config", ok("")),
        ]);
        let (result, asked) = drive(
            |talk| reclaim(talk, &record),
            move |request| match request {
                Request::Exists(path) => Reply::Flag(path == ORIGINAL || trash_exists),
                _ => rules(request),
            },
        );
        assert_eq!(result, Ok(()));
        assert!(asked.iter().all(|r| !matches!(r, Request::RemoveTree(_))));
        assert_eq!(
            asked
                .iter()
                .any(|r| git_words(r).contains("--unset-all")),
            !trash_exists
        );
    }
}

#[test]
fn a_directory_claimed_by_another_worker_is_left_alone() {
    let record = Record::ready(ORIGINAL, TRASH);
    for (kind, expected) in [(IoKind::WouldBlock, true), (IoKind::Other, false)] {
        let rules = repository(vec![
            ("rev-parse", ok("/src/repo/.git\n")),
            ("config", recorded(&record)),
        ]);
        let (result, asked) = drive(
            |talk| reclaim(talk, &record),
            move |request| match request {
                Request::TryLock(_) => Reply::Tried(Err(IoError {
                    kind,
                    message: "busy".to_string(),
                })),
                _ => rules(request),
            },
        );
        assert_eq!(result.is_ok(), expected);
        assert!(asked.iter().all(|r| !matches!(r, Request::RemoveTree(_))));
    }
}

#[test]
fn a_process_is_a_worker_only_with_a_record() {
    let (none, _) = drive(run_worker, repository(vec![]));
    assert_eq!(none, None);
    let (invalid, _) = drive(run_worker, |_: &Request| Reply::Text(Some("junk".to_string())));
    assert_eq!(
        invalid.unwrap().unwrap_err().to_string(),
        "worktree reclamation: invalid background record"
    );
}

#[test]
fn staging_records_before_it_moves() {
    let (staged, asked) = drive(
        |talk| stage(talk, "/w/feature"),
        repository(vec![("rev-parse", ok("/src/repo/.git\n")), ("config", ok(""))]),
    );
    let trash = "/w/.perch-trash.feature.42.77.0";
    assert_eq!(
        staged,
        Ok(Staged {
            config: "/src/repo/.git/config".to_string(),
            original: "/w/feature".to_string(),
            trash: trash.to_string(),
        })
    );
    let recorded = asked
        .iter()
        .position(|r| git_words(r).contains("--add perch.reclamation.worktree staged:"))
        .unwrap();
    let moved = asked
        .iter()
        .position(|r| {
            *r == Request::Rename {
                from: "/w/feature".to_string(),
                to: trash.to_string(),
            }
        })
        .unwrap();
    assert!(recorded < moved);
    let (failed_move, asked) = drive(
        |talk| stage(talk, "/"),
        repository(vec![("rev-parse", ok("/src/repo/.git\n"))]),
    );
    assert_eq!(
        failed_move.unwrap_err().to_string(),
        "worktree reclamation: / has no parent directory"
    );
    assert_eq!(asked.last(), Some(&Request::Unlock));
}

#[test]
fn starting_records_ready_before_it_forgets_staged() {
    let staged = Staged {
        config: "/c".to_string(),
        original: ORIGINAL.to_string(),
        trash: TRASH.to_string(),
    };
    let (result, asked) = drive(
        |talk| start(talk, &staged),
        repository(vec![("config", ok(""))]),
    );
    assert_eq!(result, Ok(()));
    assert!(git_words(&asked[0]).starts_with("config --file /c --add perch.reclamation.worktree ready:"));
    assert!(git_words(&asked[1])
        .starts_with("config --file /c --fixed-value --unset-all perch.reclamation.worktree staged:"));
    assert!(matches!(asked[2], Request::SpawnWorker(_)));
}

// ---------------------------------------------------------------------------
// Completion
// ---------------------------------------------------------------------------

#[test]
fn complete_drops_only_the_words_that_position_eats() {
    let rules = || {
        replaced(
            replaced(
                held_feature(),
                "for-each-ref",
                ok("origin/HEAD\norigin/published\n"),
            ),
            "branch --format=%(refname:short)",
            ok("main\nbr\nrm\nls\n"),
        )
    };
    for (words, expected) in [
        (&["--complete"][..], "main\nrm\nls\npublished\n"),
        (&["--", "--complete"], "main\nbr\nrm\nls\npublished\n"),
        (&["br", "--complete"], "main\nbr\nls\npublished\n"),
        (&["wt", "--complete"], "main\nbr\npublished\n"),
        (&["br", "rm", "--complete"], "main\nbr\nrm\nls\n"),
        (&["wt", "rm", "--complete"], "feature\n"),
    ] {
        let (result, asked) = perch(words, repository(rules()));
        assert_eq!(result, Ok(()));
        assert_eq!(stdout_of(&asked), expected, "{words:?}");
    }
}

#[test]
fn help_pages_remain_exact_static_text() {
    let pages: [(&[&str], &[&str]); 3] = [
        (
            &["--help"],
            &[
                "Usage: perch [<branch>]       Go to the branch, wherever it lives",
                "       perch br [<branch>]    Check the branch out here",
                "       perch wt [<branch>]    Give the branch its own worktree",
                "       perch wt <name> <branch>",
                "                                  Use a custom worktree directory name",
                "",
                "       perch .                Refresh the current branch from its remote",
                "       perch -- <branch>      Go to a branch named br/wt",
                "       perch br rm [<branch>] Remove local branches",
                "       perch wt ls            List worktrees",
                "       perch wt rm [<branch>|.]",
                "",
                "With the shell integration sourced, `br` and `wt` stand in for `perch br`",
                "and `perch wt`. Set PERCH_NO_SHORTCUTS to leave both names alone.",
            ],
        ),
        (
            &["br", "--help"],
            &[
                "Usage: perch br [<branch>]    Check the branch out here",
                "       perch br rm [<branch>] [--upstream] [--force]",
                "                                  Remove local branches",
                "       perch br -- <branch>   Check out a branch named rm",
                "",
                "Options:",
                "      --upstream  Also offer the branch's same-named upstream for removal",
                "      --force     Skip destructive confirmations",
            ],
        ),
        (
            &["wt", "--help"],
            &[
                "Usage: perch wt [<branch>] [--no-switch]",
                "                                  Give the branch its own worktree",
                "       perch wt <worktree-name> <branch> [--no-switch]",
                "                                  Use a custom worktree directory name",
                "       perch wt ls            List worktrees",
                "       perch wt rm [<branch>] Remove a worktree (deletes branch if merged)",
                "       perch wt rm .          Remove the worktree you're in",
                "       perch wt -- <branch>   Worktree a branch named ls/rm/list/remove",
                "       perch wt -- <worktree-name> <branch>",
                "                                  Escape a colliding worktree name",
                "",
                "Options:",
                "      --no-switch  Create or find the worktree without switching to it",
                "  -f, --force      Skip the confirmation for uncommitted or unmerged work",
            ],
        ),
    ];
    for (words, lines) in pages {
        let (result, asked) = perch(words, repository(Vec::new()));
        assert_eq!(result, Ok(()));
        assert_eq!(stdout_of(&asked), format!("{}\n", lines.join("\n")));
    }
}
