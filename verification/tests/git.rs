use perch::git::{
    branch_refs, config_branch, parse_track, stale_from, unmerged_from, Anchor, Ground,
    StaleBranch, Unmerged,
};
use perch::table::Table;

/// One line per row: name, tip, upstream branch, track.
fn head_refs(rows: &[(&str, &str, &str, &str)]) -> String {
    rows.iter()
        .map(|(name, tip, upstream, track)| format!("{name}\t{tip}\t{upstream}\t{track}"))
        .collect::<Vec<_>>()
        .join("\n")
}

/// Tips play no part here, so rows name only the branch, its upstream, and its
/// track summary.
fn unmerged(merged: &str, rows: &[(&str, &str, &str)]) -> Table<Unmerged> {
    let rows: Vec<_> = rows
        .iter()
        .map(|(name, upstream, track)| (*name, "tip", *upstream, *track))
        .collect();
    let refs_output = head_refs(&rows);
    unmerged_from(merged, &branch_refs(&refs_output))
}

/// The names alone, against an anchor named `main`.
fn stale(refs_output: &str, merged: &str, anchor_tip: &str) -> Vec<String> {
    let mut got: Vec<String> = grounds(refs_output, merged, anchor_tip)
        .into_iter()
        .map(|b| b.name)
        .collect();
    got.sort();
    got
}

/// The ground each branch is stale on.
fn grounds(refs_output: &str, merged: &str, anchor_tip: &str) -> Vec<StaleBranch> {
    let refs = branch_refs(refs_output);
    let anchor = Anchor {
        branch: "main".to_string(),
        tip: anchor_tip.to_string(),
    };
    let mut got = stale_from(&refs, merged, Some(&anchor));
    got.sort_by(|a, b| a.name.cmp(&b.name));
    got
}

#[test]
fn each_staleness_fact_reports_its_own_ground() {
    let refs_output = head_refs(&[
        ("main", "aaa", "refs/heads/main", ""),
        ("abandoned", "bbb", "refs/heads/abandoned", "gone"),
        ("ahead", "ccc", "refs/heads/main", "ahead 1"),
        ("untracked", "ddd", "", ""),
    ]);
    let got = grounds(&refs_output, "ahead\nuntracked", "aaa");
    assert_eq!(
        got,
        vec![
            StaleBranch {
                ground: Ground::Gone,
                name: "abandoned".to_string(),
            },
            StaleBranch {
                ground: Ground::TracksAnchorAhead,
                name: "ahead".to_string(),
            },
            StaleBranch {
                ground: Ground::UntrackedTipInAnchor,
                name: "untracked".to_string(),
            },
        ]
    );
}

#[test]
fn a_gone_branch_listed_as_merged_is_reported_once_as_gone() {
    let refs_output = head_refs(&[
        ("main", "aaa", "refs/heads/main", ""),
        ("abandoned", "bbb", "refs/heads/abandoned", "gone"),
    ]);
    let got = grounds(&refs_output, "abandoned", "aaa");
    assert_eq!(
        got,
        vec![StaleBranch {
            ground: Ground::Gone,
            name: "abandoned".to_string(),
        }]
    );
}

#[test]
fn branch_cut_from_the_anchor_is_not_stale() {
    let refs_output = head_refs(&[
        ("main", "aaa", "refs/heads/main", ""),
        ("feature", "bbb", "refs/heads/main", "behind 1"),
    ]);
    let got = stale(&refs_output, "feature", "aaa");
    assert!(
        got.is_empty(),
        "a freshly cut branch is not stale, got: {got:?}"
    );
}

#[test]
fn branch_ahead_of_the_anchors_counterpart_is_stale_once_merged() {
    let refs_output = head_refs(&[
        ("main", "bbb", "refs/heads/main", "ahead 1"),
        ("feature", "bbb", "refs/heads/main", "ahead 1"),
    ]);
    let got = stale(&refs_output, "feature", "bbb");
    assert_eq!(got, vec!["feature".to_string()]);
}

#[test]
fn published_branch_sharing_the_anchors_tip_is_not_stale() {
    let refs_output = head_refs(&[
        ("main", "bbb", "refs/heads/main", ""),
        ("feature", "bbb", "refs/heads/feature", ""),
    ]);
    let got = stale(&refs_output, "feature", "bbb");
    assert!(
        got.is_empty(),
        "an empty published branch must not be offered, got: {got:?}"
    );
}

#[test]
fn untracked_branch_behind_the_anchor_is_stale() {
    let refs_output = head_refs(&[
        ("main", "ccc", "refs/heads/main", ""),
        ("scratch", "bbb", "", ""),
    ]);
    let got = stale(&refs_output, "scratch", "ccc");
    assert_eq!(got, vec!["scratch".to_string()]);
}

#[test]
fn published_branch_is_not_stale() {
    let refs_output = head_refs(&[
        ("main", "ccc", "refs/heads/main", ""),
        ("feature", "bbb", "refs/heads/feature", ""),
    ]);
    let got = stale(&refs_output, "feature", "ccc");
    assert!(
        got.is_empty(),
        "a live upstream of its own settles nothing, got: {got:?}"
    );
}

#[test]
fn anchor_tracking_branch_behind_the_anchor_is_not_stale() {
    let refs_output = head_refs(&[
        ("main", "ccc", "refs/heads/main", ""),
        ("feature", "bbb", "refs/heads/main", ""),
    ]);
    let got = stale(&refs_output, "feature", "ccc");
    assert!(
        got.is_empty(),
        "a zero ahead count settles nothing, got: {got:?}"
    );
}

#[test]
fn gone_upstream_is_stale_without_being_merged() {
    let refs_output = head_refs(&[
        ("main", "aaa", "refs/heads/main", ""),
        ("merged-work", "bbb", "", ""),
        ("abandoned", "ccc", "refs/heads/abandoned", "gone"),
    ]);
    let got = stale(&refs_output, "", "aaa");
    assert_eq!(
        got,
        vec!["abandoned".to_string()],
        "a deleted upstream needs no merged listing"
    );
}

#[test]
fn without_an_anchor_the_merged_list_is_ignored() {
    let refs_output = head_refs(&[("scratch", "bbb", "", "")]);
    let refs = branch_refs(&refs_output);
    let got = stale_from(&refs, "scratch", None);
    assert!(got.is_empty(), "no anchor, no merged rule, got: {got:?}");
}

#[test]
fn ahead_of_upstream_is_unmerged_even_when_merged_into_head() {
    let got = unmerged(
        "main\nfeature",
        &[("feature", "refs/heads/feature", "ahead 2")],
    );
    assert_eq!(got.get("feature"), Some(&Unmerged::Ahead(2)));
}

#[test]
fn untracked_branch_merged_into_head_is_not_unmerged() {
    let got = unmerged("main\nscratch", &[("scratch", "", "")]);
    assert!(got.is_empty(), "merged into HEAD, got: {got:?}");
}

#[test]
fn in_sync_with_upstream_is_not_unmerged() {
    let got = unmerged("main", &[("feature", "refs/heads/feature", "")]);
    assert!(got.is_empty(), "merged into upstream, got: {got:?}");
}

#[test]
fn ahead_of_upstream_is_unmerged_with_a_count() {
    let got = unmerged(
        "main",
        &[("feature", "refs/heads/feature", "ahead 3, behind 1")],
    );
    assert_eq!(got.get("feature"), Some(&Unmerged::Ahead(3)));
}

#[test]
fn local_only_branch_is_unmerged_without_a_count() {
    let got = unmerged("main", &[("scratch", "", "")]);
    assert_eq!(got.get("scratch"), Some(&Unmerged::NoUpstream));
}

#[test]
fn gone_upstream_is_unmerged_without_a_count() {
    let got = unmerged("main", &[("orphan", "refs/heads/orphan", "gone")]);
    assert_eq!(got.get("orphan"), Some(&Unmerged::NoUpstream));
}

#[test]
fn a_config_key_belongs_to_the_branch_between_the_outer_dots() {
    assert_eq!(
        config_branch("branch.feature.remote").as_deref(),
        Some("feature")
    );
    assert_eq!(
        config_branch("branch.release/1.2.remote").as_deref(),
        Some("release/1.2")
    );
    assert_eq!(
        config_branch("branch.topic]x.merge").as_deref(),
        Some("topic]x")
    );
    assert_eq!(config_branch("remote.origin.url").as_deref(), None);
    assert_eq!(config_branch("branch.autosetupmerge").as_deref(), None);
}

#[test]
fn parse_track_reads_ahead_behind() {
    assert_eq!(parse_track("ahead 2"), (2, 0));
    assert_eq!(parse_track("behind 1"), (0, 1));
    assert_eq!(parse_track("ahead 2, behind 1"), (2, 1));
}

#[test]
fn parse_track_in_sync_or_gone_is_zero() {
    assert_eq!(parse_track(""), (0, 0));
    assert_eq!(parse_track("gone"), (0, 0));
}

#[test]
fn a_count_that_cannot_be_read_is_zero() {
    assert_eq!(parse_track("ahead many, behind 1"), (0, 1));
    assert_eq!(parse_track("ahead 4294967295"), (4294967295, 0));
    assert_eq!(parse_track("ahead 4294967296"), (0, 0));
}

#[test]
fn a_later_line_stands_for_an_earlier_one_of_the_same_name() {
    let refs = branch_refs("a\t1\t\t\nb\t2\t\t\na\t3\trefs/heads/a\tgone\nshort\tline\n");
    assert_eq!(refs.rows.len(), 2);
    assert_eq!(refs.get("a").unwrap().tip, "3");
    assert!(refs.get("a").unwrap().gone());
    assert!(refs.get("short").is_none());
}
