use perch::app::removal::Offer;
use perch::app::wt::{
    candidate_names, ls_row, ls_rows, main_of, removal_progress_message, worktree_names,
    worktree_path_for,
};
use perch::git::Worktree;

fn worktree(branch: Option<&str>, path: &str) -> Worktree {
    Worktree {
        path: path.to_string(),
        branch: branch.map(str::to_string),
        is_main: false,
        prunable: false,
    }
}

fn main_worktree(branch: &str, path: &str) -> Worktree {
    Worktree {
        is_main: true,
        ..worktree(Some(branch), path)
    }
}

#[test]
fn a_worktree_answers_to_its_branch_and_to_its_directory() {
    let w = worktree(Some("feat/login"), "/tmp/worktrees/repo/feat/login");
    assert_eq!(
        worktree_names(w.branch.as_deref(), &w.path),
        ["feat/login", "login"]
    );
}

#[test]
fn a_branchless_worktree_answers_only_to_its_directory() {
    let w = worktree(None, "/tmp/worktrees/repo/detached");
    assert_eq!(
        worktree_names(w.branch.as_deref(), &w.path),
        ["detached"]
    );
}

#[test]
fn candidates_are_each_name_once_without_the_main_worktree() {
    let trees = [
        main_worktree("main", "/src/repo"),
        worktree(Some("feat/login"), "/src/worktrees/repo/feat/login"),
        worktree(Some("login"), "/src/worktrees/repo/login"),
        worktree(None, "/src/worktrees/repo/scratch"),
    ];
    assert_eq!(candidate_names(&trees), ["feat/login", "login", "scratch"]);
}

#[test]
fn worktrees_go_beside_the_repository() {
    assert_eq!(
        worktree_path_for("/src/repo", "feature/nested").unwrap(),
        "/src/worktrees/repo/feature/nested"
    );
    assert_eq!(
        worktree_path_for("/", "x").unwrap_err().to_string(),
        "git worktree: main worktree has no parent: /"
    );
    assert_eq!(
        worktree_path_for("/src/..", "x").unwrap_err().to_string(),
        "git worktree: cannot determine repo name from /src/.."
    );
}

#[test]
fn a_listing_without_a_main_worktree_is_an_error() {
    assert_eq!(
        main_of(&[worktree(None, "/x")]).unwrap_err().to_string(),
        "git worktree list: no main worktree found"
    );
    assert_eq!(
        main_of(&[worktree(None, "/x"), main_worktree("main", "/y")])
            .unwrap()
            .path,
        "/y"
    );
}

#[test]
fn rows_are_padded_to_the_widest_label_and_status() {
    let trees = [
        main_worktree("main", "/src/repo"),
        worktree(None, "/src/worktrees/repo/x"),
    ];
    let statuses = ["+ 1".to_string(), "\u{1b}[33m*\u{1b}[0m".to_string()];
    assert_eq!(
        ls_rows(&trees, &statuses),
        [
            "* main        + 1  /src/repo",
            "  (detached)  \u{1b}[33m*\u{1b}[0m    /src/worktrees/repo/x",
        ]
    );
    let none = [String::new(), String::new()];
    assert_eq!(
        ls_rows(&trees, &none),
        [
            "* main        /src/repo",
            "  (detached)  /src/worktrees/repo/x",
        ]
    );
}

#[test]
fn a_row_is_as_wide_as_it_is_told() {
    assert_eq!(
        ls_row(&worktree(Some("a"), "/p"), 3, "s", 4, 1),
        "  a    s     /p"
    );
    assert_eq!(ls_row(&worktree(Some("a"), "/p"), 0, "s", 0, 0), "  a  /p");
}

#[test]
fn progress_names_one_worktree_or_counts_several() {
    let offers: Vec<Offer> = ["a", "b"]
        .iter()
        .enumerate()
        .map(|(id, name)| Offer {
            id,
            name: name.to_string(),
            branch: Some(name.to_string()),
            worktree: None,
            missing: false,
            dirty: false,
            unmerged: None,
            proof: None,
            held: None,
            ground: None,
            ticked: false,
        })
        .collect();
    assert_eq!(removal_progress_message(&offers[..1]), "Removing a…");
    assert_eq!(removal_progress_message(&offers), "Removing 2 worktrees…");
}
