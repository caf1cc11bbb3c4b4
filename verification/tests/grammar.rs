use perch::grammar::{
    navigate, parse, BranchRemoval, CompletionSource, HelpPage, Invocation, Navigation,
    ShellHandoff, Verb, WorktreeRemoval,
};

fn args(words: &[&str]) -> Vec<String> {
    words.iter().map(|word| (*word).to_string()).collect()
}

#[test]
fn parses_each_navigation_intent_and_its_escape() {
    assert_eq!(
        parse(&args(&["topic"])),
        Ok(navigate(Verb::Go, Some("topic")))
    );
    assert_eq!(
        parse(&args(&["br", "topic"])),
        Ok(navigate(Verb::Here, Some("topic")))
    );
    assert_eq!(
        parse(&args(&["wt", "--", "rm"])),
        Ok(Invocation::Navigate(Navigation::Worktree {
            worktree_name: None,
            target: Some("rm".into()),
            shell_handoff: ShellHandoff::Emit,
        }))
    );
}

#[test]
fn worktree_navigation_accepts_a_directory_name_before_the_branch() {
    assert_eq!(
        parse(&args(&[
            "wt",
            "--no-switch",
            "545",
            "renovate/realm-swiftlint-0.x",
        ])),
        Ok(Invocation::Navigate(Navigation::Worktree {
            worktree_name: Some("545".into()),
            target: Some("renovate/realm-swiftlint-0.x".into()),
            shell_handoff: ShellHandoff::Suppress,
        }))
    );
}

#[test]
fn worktree_navigation_escape_accepts_a_colliding_directory_name() {
    assert_eq!(
        parse(&args(&["wt", "--", "rm", "topic"])),
        Ok(Invocation::Navigate(Navigation::Worktree {
            worktree_name: Some("rm".into()),
            target: Some("topic".into()),
            shell_handoff: ShellHandoff::Emit,
        }))
    );
}

#[test]
fn worktree_navigation_rejects_an_extra_argument() {
    let error = parse(&args(&["wt", "one", "topic", "extra"])).unwrap_err();

    assert_eq!(
        error.to_string(),
        "invalid `perch wt` invocation: unexpected extra argument 'extra'"
    );
}

#[test]
fn worktree_navigation_rejects_names_that_are_not_one_directory() {
    for name in ["", ".", "..", "nested/name", r"nested\name"] {
        let error = parse(&args(&["wt", name, "topic"])).unwrap_err();

        assert_eq!(
            error.to_string(),
            format!(
                "invalid `perch wt` invocation: invalid worktree name '{name}'; expected one directory name"
            )
        );
    }
}

#[test]
fn worktree_navigation_completes_reachable_branches_in_the_second_position() {
    let Invocation::Complete(completion) =
        parse(&args(&["wt", "short-name", "--complete"])).unwrap()
    else {
        panic!("expected completion");
    };

    assert_eq!(completion.source(), CompletionSource::ReachableBranches);
    assert_eq!(completion.render(&["ls", "rm", "topic"]), "ls\nrm\ntopic\n");
}

#[test]
fn worktree_removal_accepts_options_around_one_target() {
    assert_eq!(
        parse(&args(&["wt", "rm", "-f", "topic"])),
        Ok(Invocation::RemoveWorktrees(WorktreeRemoval {
            target: Some("topic".into()),
            force: true,
        }))
    );
}

#[test]
fn parses_branch_removal_list_help_and_version_invocations() {
    assert_eq!(
        parse(&args(&["br", "rm", "--upstream", "topic", "--force"])),
        Ok(Invocation::RemoveBranches(BranchRemoval {
            target: Some("topic".into()),
            force: true,
            upstream: true,
        }))
    );
    assert_eq!(parse(&args(&["wt", "ls"])), Ok(Invocation::ListWorktrees));
    assert_eq!(
        parse(&args(&["br", "--help"])),
        Ok(Invocation::Help(HelpPage::Branch))
    );
    assert_eq!(parse(&args(&["-V"])), Ok(Invocation::Version));
}

#[test]
fn worktree_removal_treats_force_aliases_as_one_option() {
    let error = parse(&args(&["wt", "rm", "-f", "--force"]))
        .expect_err("force aliases should count as duplicates");
    assert_eq!(
        error.to_string(),
        "invalid `perch wt rm` invocation: duplicate option '--force'"
    );
}

#[test]
fn worktree_removal_rejects_unknown_options_and_extra_targets() {
    let unknown = parse(&args(&["wt", "rm", "--remote"])).unwrap_err();
    assert_eq!(
        unknown.to_string(),
        "invalid `perch wt rm` invocation: unknown option '--remote'"
    );

    let extra = parse(&args(&["wt", "rm", "one", "two"])).unwrap_err();
    assert_eq!(
        extra.to_string(),
        "invalid `perch wt rm` invocation: unexpected extra target 'two'"
    );
}

#[test]
fn worktree_removal_escape_accepts_a_target_beginning_with_dash() {
    assert_eq!(
        parse(&args(&["wt", "rm", "--", "--force"])),
        Ok(Invocation::RemoveWorktrees(WorktreeRemoval {
            target: Some("--force".into()),
            force: false,
        }))
    );
}

#[test]
fn branch_removal_keeps_its_strict_long_option_grammar() {
    let short = parse(&args(&["br", "rm", "topic", "-f"])).unwrap_err();
    assert_eq!(
        short.to_string(),
        "invalid `perch br rm` invocation: unknown option '-f'"
    );
}

#[test]
fn completion_filters_only_words_eaten_at_its_position() {
    let candidates = ["br", "wt", "ls", "rm", "list", "remove", "topic"];
    let Invocation::Complete(bare) = parse(&args(&["--complete"])).unwrap() else {
        panic!("expected completion");
    };
    assert_eq!(bare.render(&candidates), "ls\nrm\nlist\nremove\ntopic\n");

    let Invocation::Complete(worktree) = parse(&args(&["wt", "--complete"])).unwrap() else {
        panic!("expected completion");
    };
    assert_eq!(worktree.render(&candidates), "br\nwt\ntopic\n");
}

#[test]
fn worktree_creation_rejects_unknown_options_in_either_position() {
    for words in [
        &["wt", "--noswitch", "feature"][..],
        &["wt", "--noswitch"],
        &["wt", "short", "--noswitch"],
    ] {
        assert_eq!(
            parse(&args(words)).unwrap_err().to_string(),
            "invalid `perch wt` invocation: unknown option '--noswitch'",
            "{words:?}"
        );
    }
}

#[test]
fn past_the_escape_words_that_look_like_options_are_names() {
    assert_eq!(
        parse(&args(&["wt", "--", "--noswitch", "feature"])),
        Ok(Invocation::Navigate(Navigation::Worktree {
            worktree_name: Some("--noswitch".into()),
            target: Some("feature".into()),
            shell_handoff: ShellHandoff::Emit,
        }))
    );
    assert_eq!(
        parse(&args(&["wt", "--", "feature", "--no-switch"])),
        Ok(Invocation::Navigate(Navigation::Worktree {
            worktree_name: None,
            target: Some("feature".into()),
            shell_handoff: ShellHandoff::Emit,
        }))
    );
    assert_eq!(
        parse(&args(&["wt", "--no-switch", "--", "feature", "--no-switch"])),
        Ok(Invocation::Navigate(Navigation::Worktree {
            worktree_name: None,
            target: Some("feature".into()),
            shell_handoff: ShellHandoff::Suppress,
        }))
    );
}

#[test]
fn no_switch_is_read_anywhere_before_the_escape() {
    for words in [
        &["wt", "--no-switch", "short", "topic"][..],
        &["wt", "short", "--no-switch", "topic"],
        &["wt", "short", "topic", "--no-switch"],
    ] {
        assert_eq!(
            parse(&args(words)),
            Ok(Invocation::Navigate(Navigation::Worktree {
                worktree_name: Some("short".into()),
                target: Some("topic".into()),
                shell_handoff: ShellHandoff::Suppress,
            })),
            "{words:?}"
        );
    }
}

#[test]
fn retired_subverbs_name_their_replacement_and_the_escape() {
    assert_eq!(
        parse(&args(&["wt", "list"])).unwrap_err().to_string(),
        "`perch wt list` is gone; use `perch wt ls`, or `perch wt -- list` for a branch by that name"
    );
    assert_eq!(
        parse(&args(&["wt", "remove"])).unwrap_err().to_string(),
        "`perch wt remove` is gone; use `perch wt rm`, or `perch wt -- remove` for a branch by that name"
    );
}

#[test]
fn no_switch_does_not_apply_to_a_subverb() {
    assert_eq!(
        parse(&args(&["wt", "--no-switch", "rm", "."]))
            .unwrap_err()
            .to_string(),
        "`--no-switch` does not apply to `perch wt rm`"
    );
}

#[test]
fn branch_removal_reports_the_first_fault() {
    for (words, expected) in [
        (
            &["br", "rm", "--force", "topic", "--force"][..],
            "duplicate option '--force'",
        ),
        (
            &["br", "rm", "--upstream", "--upstream", "-x"],
            "duplicate option '--upstream'",
        ),
        (
            &["br", "rm", "--remote", "feature", "other"],
            "unknown option '--remote'",
        ),
        (&["br", "rm", "one", "two"], "unexpected extra target 'two'"),
        (&["br", "rm", "--"], "unknown option '--'"),
    ] {
        assert_eq!(
            parse(&args(words)).unwrap_err().to_string(),
            format!("invalid `perch br rm` invocation: {expected}"),
            "{words:?}"
        );
    }
}

#[test]
fn removal_completions_offer_what_removal_accepts() {
    let Invocation::Complete(branches) = parse(&args(&["br", "rm", "--complete"])).unwrap() else {
        panic!("expected completion");
    };
    assert_eq!(branches.source(), CompletionSource::LocalBranches);
    assert_eq!(branches.render(&["rm", "br"]), "rm\nbr\n");
    let Invocation::Complete(trees) = parse(&args(&["wt", "rm", "-f", "--complete"])).unwrap()
    else {
        panic!("expected completion");
    };
    assert_eq!(trees.source(), CompletionSource::Worktrees);
    assert_eq!(
        parse(&args(&["wt", "rm", "--", "--complete"])),
        Ok(Invocation::RemoveWorktrees(WorktreeRemoval {
            target: Some("--complete".into()),
            force: false,
        }))
    );
}

#[test]
fn escapes_reach_any_branch_name() {
    assert_eq!(
        parse(&args(&["--", "wt"])),
        Ok(navigate(Verb::Go, Some("wt")))
    );
    assert_eq!(
        parse(&args(&["br", "--", "rm"])),
        Ok(navigate(Verb::Here, Some("rm")))
    );
    assert_eq!(parse(&args(&["--"])), Ok(navigate(Verb::Go, None)));
    assert_eq!(parse(&[]), Ok(navigate(Verb::Go, None)));
    assert_eq!(
        parse(&args(&["wt"])),
        Ok(navigate(Verb::Worktree, None))
    );
}

#[test]
fn removal_accessors_give_back_the_fields() {
    let Ok(Invocation::RemoveBranches(branches)) = parse(&args(&["br", "rm", "x", "--upstream"]))
    else {
        panic!("expected removal");
    };
    assert_eq!(branches.target(), Some("x"));
    assert!(!branches.force());
    assert!(branches.upstream());
    let Ok(Invocation::RemoveWorktrees(trees)) = parse(&args(&["wt", "rm", "--force"])) else {
        panic!("expected removal");
    };
    assert_eq!(trees.target(), None);
    assert!(trees.force());
}
