use std::cell::RefCell;
use std::collections::VecDeque;

use perch::app::removal::assess::{assess_branches, assess_worktrees, rows_of};
use perch::app::removal::finish::{delete_local, remove_worktree};
use perch::error::{IoError, IoKind};
use perch::git::{worktree_list, BranchDeleteOutcome, Proof, WorktreeRemoveOutcome};
use perch::talk::{Key, Mark, Output, RawOutput, Reply, Request, Talk};
use perch::Error;

/// Runs a function to its end, answering each request as it comes, and gives
/// back what it came to and what it asked.
fn drive<T>(
    run: impl Fn(&mut Talk) -> Option<T>,
    answer: impl Fn(&Request) -> Reply,
) -> (T, Vec<Request>) {
    let mut replies: Vec<Reply> = Vec::new();
    let mut asked: Vec<Request> = Vec::new();
    for _ in 0..1000 {
        let mut talk = Talk::new(replies.clone());
        if let Some(value) = run(&mut talk) {
            return (value, asked);
        }
        let request = talk.pending().expect("a request without a reply");
        replies.push(answer(&request));
        asked.push(request);
    }
    panic!("no end in sight");
}

fn ran(code: i32, stdout: &str, stderr: &str) -> Reply {
    Reply::Ran(Ok(Output {
        code: Some(code),
        stdout: stdout.to_string(),
        stderr: stderr.to_string(),
    }))
}

fn ok(stdout: &str) -> Reply {
    ran(0, stdout, "")
}

fn failed(stderr: &str) -> Reply {
    ran(1, "", stderr)
}

struct Branch {
    name: String,
    tip: String,
    /// Whether `main` holds its commits.
    merged: bool,
    /// Whether `main` holds its work under other commits.
    landed: bool,
    /// The remote and the ref it tracks, and how it stands to it.
    upstream: Option<(String, String, String)>,
}

struct Tree {
    path: String,
    branch: Option<String>,
    dirty: bool,
    missing: bool,
    locked: bool,
    submodule: bool,
}

/// A repository at `/src/repo`, as far as its commands are run here.
struct World {
    branches: Vec<Branch>,
    trees: Vec<Tree>,
    cwd: String,
    interactive: bool,
    keys: VecDeque<Key>,
    ticks: VecDeque<Option<Vec<usize>>>,
    /// The branches of the server, with their tips.
    server: Vec<(String, String)>,
    unreachable: bool,
    denies_deletes: bool,
    hooks: Vec<(String, String)>,
    hook_code: i32,
    no_hooks: bool,
    anchor: String,
    /// What happens to the repository while rows are being ticked.
    meanwhile: Option<fn(&mut World)>,
}

impl World {
    fn new() -> World {
        let mut world = World {
            branches: Vec::new(),
            trees: Vec::new(),
            cwd: "/src/repo".to_string(),
            interactive: false,
            keys: VecDeque::new(),
            ticks: VecDeque::new(),
            server: vec![("main".to_string(), "m1".to_string())],
            unreachable: false,
            denies_deletes: false,
            hooks: Vec::new(),
            hook_code: 0,
            no_hooks: false,
            anchor: "m1".to_string(),
            meanwhile: None,
        };
        world.branch("main", true);
        world.branches[0].tip = "m1".to_string();
        world.branches[0].upstream = Some((
            "origin".to_string(),
            "refs/heads/main".to_string(),
            String::new(),
        ));
        world.tree("/src/repo", Some("main"));
        world
    }

    fn branch(&mut self, name: &str, merged: bool) {
        self.branches.push(Branch {
            name: name.to_string(),
            tip: format!("{name}1"),
            merged,
            landed: false,
            upstream: None,
        });
    }

    fn tree(&mut self, path: &str, branch: Option<&str>) {
        self.trees.push(Tree {
            path: path.to_string(),
            branch: branch.map(str::to_string),
            dirty: false,
            missing: false,
            locked: false,
            submodule: false,
        });
    }

    /// A worktree for a new branch.
    fn worktree(&mut self, branch: &str, merged: bool) -> String {
        let path = format!("/src/worktrees/repo/{branch}");
        self.branch(branch, merged);
        self.tree(&path, Some(branch));
        path
    }

    /// Publishes a branch under its own name, and tracks it.
    fn publish(&mut self, name: &str, remote: &str) {
        let tip = self.find(name).unwrap().tip.clone();
        self.server.push((name.to_string(), tip));
        self.find(name).unwrap().upstream = Some((
            remote.to_string(),
            format!("refs/heads/{name}"),
            String::new(),
        ));
    }

    fn find(&mut self, name: &str) -> Option<&mut Branch> {
        self.branches.iter_mut().find(|b| b.name == name)
    }

    fn has(&self, name: &str) -> bool {
        self.branches.iter().any(|b| b.name == name)
    }

    fn on_server(&self, name: &str) -> bool {
        self.server.iter().any(|(n, _)| n == name)
    }

    fn at(&mut self, path: &str) -> Option<&mut Tree> {
        self.trees.iter_mut().find(|t| t.path == path)
    }

    fn registered(&self, path: &str) -> bool {
        self.trees.iter().any(|t| t.path == path)
    }

    fn current(&self) -> String {
        self.trees
            .iter()
            .filter(|t| self.cwd.starts_with(&t.path))
            .last()
            .and_then(|t| t.branch.clone())
            .unwrap_or_default()
    }

    fn listing(&self) -> String {
        self.trees
            .iter()
            .map(|t| {
                let mut record = format!("worktree {}\nHEAD 1\n", t.path);
                match &t.branch {
                    Some(b) => record.push_str(&format!("branch refs/heads/{b}\n")),
                    None => record.push_str("detached\n"),
                }
                if t.missing {
                    record.push_str("prunable gone\n");
                }
                record.push('\n');
                record
            })
            .collect()
    }

    fn names(&self, keep: impl Fn(&Branch) -> bool) -> String {
        self.branches
            .iter()
            .filter(|b| keep(b))
            .map(|b| format!("{}\n", b.name))
            .collect()
    }

    fn tip_of(&mut self, refname: &str) -> Reply {
        let name = refname.strip_prefix("refs/heads/").unwrap_or("");
        if name == "main" && self.has("main") {
            let tip = self.anchor.clone();
            return ok(&format!("{tip}\n"));
        }
        match self.find(name) {
            Some(branch) => {
                let tip = branch.tip.clone();
                ok(&format!("{tip}\n"))
            }
            None => failed("fatal: bad revision"),
        }
    }

    fn delete(&mut self, name: &str, force: bool) -> Reply {
        if self
            .trees
            .iter()
            .any(|t| t.branch.as_deref() == Some(name))
        {
            return failed("error: cannot delete branch used by worktree");
        }
        match self.find(name) {
            None => failed("error: branch not found"),
            Some(branch) => {
                let ahead = match &branch.upstream {
                    Some((_, _, track)) if track != "gone" => track.starts_with("ahead"),
                    _ => !branch.merged,
                };
                if ahead && !force {
                    return failed("error: the branch is not fully merged");
                }
                self.branches.retain(|b| b.name != name);
                ok("")
            }
        }
    }

    fn remove_tree(&mut self, path: &str, force: bool) -> Reply {
        match self.at(path) {
            None => failed("fatal: not a working tree"),
            Some(tree) => {
                if tree.locked {
                    failed("fatal: cannot remove a locked working tree")
                } else if tree.submodule && !tree.missing {
                    failed("fatal: working trees containing submodules cannot be moved or removed")
                } else if tree.dirty && !tree.missing && !force {
                    failed("fatal: contains modified or untracked files, use --force to delete it")
                } else {
                    self.trees.retain(|t| t.path != path);
                    ok("")
                }
            }
        }
    }

    fn git(&mut self, dir: Option<&str>, args: &[String]) -> Reply {
        let words: Vec<&str> = args.iter().map(String::as_str).collect();
        match words.as_slice() {
            ["branch", "--show-current"] => ok(&format!("{}\n", self.current())),
            ["branch", "--format=%(refname:short)"] => ok(&self.names(|_| true)),
            ["branch", "--format=%(refname:short)", "--merged"] => {
                // Every branch is merged into itself.
                let here = match dir {
                    Some("/src/repo") => "main".to_string(),
                    _ => self.current(),
                };
                ok(&self.names(|b| b.merged || b.name == here))
            }
            ["branch", "--format=%(refname:short)", "--merged", _] => ok(&self.names(|b| b.merged)),
            ["branch", "-d", "--quiet", name] => self.delete(name, false),
            ["branch", "-D", "--quiet", name] => self.delete(name, true),
            ["for-each-ref", format, refname] if format.contains("remotename") => {
                let name = refname.strip_prefix("refs/heads/").unwrap().to_string();
                match self.find(&name).and_then(|b| b.upstream.clone()) {
                    Some((remote, branch, _)) => ok(&format!("{name}\t{remote}\t{branch}\n")),
                    None => ok(&format!("{name}\t\t\n")),
                }
            }
            ["for-each-ref", _, "refs/heads/"] => ok(&self
                .branches
                .iter()
                .map(|b| {
                    let (upstream, track) = match &b.upstream {
                        Some((_, upstream, track)) => (upstream.as_str(), track.as_str()),
                        None => ("", ""),
                    };
                    format!("{}\t{}\t{upstream}\t{track}\n", b.name, b.tip)
                })
                .collect::<String>()),
            ["worktree", "list", "--porcelain"] => ok(&self.listing()),
            ["worktree", "remove", "--force", path] => self.remove_tree(path, true),
            ["worktree", "remove", path] => self.remove_tree(path, false),
            ["worktree", "prune"] => {
                self.trees.retain(|t| !t.missing || t.locked);
                ok("")
            }
            ["status", "--porcelain", ..] => {
                let dirty = self.at(dir.unwrap_or("/src/repo")).is_some_and(|t| t.dirty);
                ok(if dirty { " M file\n" } else { "" })
            }
            ["rev-parse", "--path-format=absolute", "--git-common-dir"] => {
                ok("/src/repo/.git\n")
            }
            ["rev-parse", "--verify", _] => failed("fatal: needed a single revision"),
            ["rev-parse", refname] => self.tip_of(refname),
            ["symbolic-ref", _] => ok("refs/remotes/origin/main\n"),
            ["remote"] => ok("origin\n"),
            ["config", "--get", key] => {
                let key = key.to_string();
                match self.hooks.iter().find(|(event, _)| {
                    format!("perch.hook.{event}") == key
                }) {
                    Some((_, command)) => ok(&format!("{command}\n")),
                    None => failed(""),
                }
            }
            ["config", "--file", _, "--null", "--get-all", _] => failed(""),
            ["config", "--local", "--list", ..] => ok("core.bare\0"),
            ["config", "--get-all", _] => failed(""),
            ["config", ..] => ok(""),
            ["ls-remote", "--symref", "--", _, "HEAD", refname] => {
                if self.unreachable {
                    return failed("fatal: no such remote");
                }
                let name = refname.strip_prefix("refs/heads/").unwrap();
                let mut output = "ref: refs/heads/main\tHEAD\nm1\tHEAD\n".to_string();
                for (branch, tip) in &self.server {
                    if branch == name {
                        output.push_str(&format!("{tip}\t{refname}\n"));
                    }
                }
                ok(&output)
            }
            ["ls-remote", "--heads", "--", _, refname] => {
                let name = refname.strip_prefix("refs/heads/").unwrap();
                ok(&self
                    .server
                    .iter()
                    .filter(|(branch, _)| branch == name)
                    .map(|(_, tip)| format!("{tip}\t{refname}\n"))
                    .collect::<String>())
            }
            ["push", "--quiet", lease, "--", _, deleted] => {
                let name = deleted.strip_prefix(":refs/heads/").unwrap();
                if self.denies_deletes {
                    return failed("remote rejected");
                }
                let held = self
                    .server
                    .iter()
                    .any(|(n, tip)| n == name && lease.ends_with(&format!("{name}:{tip}")));
                if !held {
                    return failed("stale info");
                }
                self.server.retain(|(n, _)| n != name);
                ok("")
            }
            ["update-ref", "-d", refname, expected] => {
                let name = refname.strip_prefix("refs/heads/").unwrap().to_string();
                if self.find(&name).is_some_and(|b| b.tip == *expected) {
                    self.branches.retain(|b| b.name != name);
                    ok("")
                } else {
                    failed("error: cannot lock ref")
                }
            }
            ["merge-base", ..] => ok("base\n"),
            ["commit-tree", ..] => ok("probe\n"),
            ["cherry", ..] => ok("+ probe\n"),
            ["diff", ..] => ok("file\0"),
            ["--literal-pathspecs", ..] => {
                let tip = words[6].to_string();
                if self.branches.iter().any(|b| b.tip == tip && b.landed) {
                    ok("")
                } else {
                    failed("")
                }
            }
            ["checkout", name, "--quiet"] => {
                let name = name.to_string();
                let cwd = self.cwd.clone();
                self.at(&cwd).unwrap().branch = Some(name);
                ok("")
            }
            ["fetch", ..] => ok(""),
            _ => panic!("unexpected git {words:?}"),
        }
    }

    fn answer(&mut self, request: &Request) -> Reply {
        match request {
            Request::Git { dir, args, .. } => self.git(dir.as_deref(), args),
            Request::GitBytes { dir, .. } => {
                let path = dir.clone().unwrap();
                let index: &[u8] = if self.at(&path).is_some_and(|t| t.submodule) {
                    b"160000 abc 0\tmodule\0"
                } else {
                    b"100644 abc 0\tfile\0"
                };
                Reply::RanBytes(Ok(RawOutput {
                    code: Some(0),
                    stdout: index.to_vec(),
                }))
            }
            Request::Probe { .. } => Reply::Probed(perch::talk::Presence::Present),
            Request::Exists(path) => {
                Reply::Flag(self.at(path).is_some_and(|t| !t.missing))
            }
            Request::Interactive => Reply::Flag(self.interactive),
            Request::StdoutIsTerminal => Reply::Flag(false),
            Request::CurrentDirectory => Reply::Text(Some(self.cwd.clone())),
            Request::Enter(path) => {
                self.cwd = path.clone();
                Reply::Done
            }
            Request::Home => Reply::Text(Some("/src".to_string())),
            Request::Environment => Reply::Variables(if self.no_hooks {
                vec![("PERCH_NO_HOOKS".to_string(), "1".to_string())]
            } else {
                vec![("PATH".to_string(), "/bin".to_string())]
            }),
            Request::Shell { .. } => ran(self.hook_code, "", ""),
            Request::ReadKey => Reply::Pressed(match self.keys.pop_front() {
                Some(key) => Ok(key),
                None => Err(IoError {
                    kind: IoKind::Interrupted,
                    message: "interrupted".to_string(),
                }),
            }),
            Request::PickRows { rows, .. } => {
                if let Some(meanwhile) = self.meanwhile.take() {
                    meanwhile(self);
                }
                Reply::Ticked(Ok(match self.ticks.pop_front() {
                    Some(ticks) => ticks,
                    None => Some((0..rows.len()).collect()),
                }))
            }
            Request::Rename { from, to } => {
                for tree in &mut self.trees {
                    if tree.path == *from {
                        tree.missing = true;
                    } else if tree.path == *to {
                        tree.missing = false;
                    }
                }
                Reply::Tried(Ok(()))
            }
            Request::Lock(_) | Request::SpawnWorker(_) => Reply::Tried(Ok(())),
            Request::Stamp => Reply::Stamp {
                nonce: 7,
                process: 42,
            },
            _ => Reply::Done,
        }
    }
}

fn perch(world: World, words: &[&str]) -> (Result<(), Error>, Vec<Request>, World) {
    let words: Vec<String> = words.iter().map(|w| w.to_string()).collect();
    let world = RefCell::new(world);
    let (result, asked) = drive(
        |talk| perch::run(talk, &words),
        |request| world.borrow_mut().answer(request),
    );
    (result, asked, world.into_inner())
}

fn stdout_of(asked: &[Request]) -> String {
    asked
        .iter()
        .map(|request| match request {
            Request::Print(text) => text.as_str(),
            _ => "",
        })
        .collect()
}

fn stderr_of(asked: &[Request]) -> String {
    asked
        .iter()
        .map(|request| match request {
            Request::Tell { mark, text } => {
                let sign = match mark {
                    Mark::Plain => "",
                    Mark::Warning => "! ",
                    Mark::Arrow => "→ ",
                    Mark::Check => "✓ ",
                };
                format!("{sign}{text}\n")
            }
            Request::Prompt { question, hint } => format!("? {question} {hint}\n"),
            _ => String::new(),
        })
        .collect()
}

fn shells(asked: &[Request]) -> Vec<(String, Vec<(String, String)>)> {
    asked
        .iter()
        .filter_map(|request| match request {
            Request::Shell { command, env, .. } => Some((command.clone(), env.clone())),
            _ => None,
        })
        .collect()
}

/// What a list of rows showed: each name and what was said of it.
fn rows_shown(asked: &[Request]) -> Vec<(String, String)> {
    asked
        .iter()
        .filter_map(|request| match request {
            Request::PickRows { rows, .. } => Some(
                rows.iter()
                    .map(|row| (row.name.clone(), row.detail.clone()))
                    .collect::<Vec<_>>(),
            ),
            _ => None,
        })
        .flatten()
        .collect()
}

// ---------------------------------------------------------------------------
// `wt rm`
// ---------------------------------------------------------------------------

#[test]
fn wt_rm_removes_worktree_and_deletes_branch() {
    let mut world = World::new();
    let path = world.worktree("feature", true);

    let (result, asked, world) = perch(world, &["wt", "rm", "feature"]);

    assert_eq!(result, Ok(()));
    assert!(!world.registered(&path), "worktree should be removed");
    assert!(!world.has("feature"), "branch should be deleted");
    assert_eq!(
        stderr_of(&asked),
        "✓ removed worktree at ~/worktrees/repo/feature\n✓ deleted feature\n"
    );
    assert!(asked.contains(&Request::Spin("Removing feature…".to_string())));
}

#[test]
fn wt_rm_double_dash_allows_a_target_named_like_an_option() {
    let mut world = World::new();
    world.branch("feature", true);
    world.tree("/src/worktrees/repo/--force", Some("feature"));

    let (result, _, world) = perch(world, &["wt", "rm", "--force", "--", "--force"]);

    assert_eq!(result, Ok(()));
    assert!(
        !world.registered("/src/worktrees/repo/--force"),
        "the escaped target should be removed"
    );
}

/// What is lost is judged from the main worktree, and so is the delete run
/// there.
#[test]
fn wt_rm_deletes_an_untracked_merged_branch_from_an_unrelated_worktree() {
    let mut world = World::new();
    world.worktree("feature-done", true);
    world.cwd = world.worktree("feature-elsewhere", false);

    let (result, asked, world) = perch(world, &["wt", "rm", "feature-done"]);

    assert_eq!(result, Ok(()));
    assert!(!world.has("feature-done"));
    assert!(asked.contains(&Request::Git {
        dir: Some("/src/repo".to_string()),
        args: ["branch", "-d", "--quiet", "feature-done"]
            .map(str::to_string)
            .to_vec(),
        input: None,
        shown: false,
    }));
}

#[test]
fn wt_rm_refuses_unmerged_branch_non_interactively() {
    let mut world = World::new();
    let path = world.worktree("feature", false);

    let (result, _, world) = perch(world, &["wt", "rm", "feature"]);

    let error = result.unwrap_err().to_string();
    assert!(
        error.contains("--force"),
        "refusal should point at the escape hatch; got: {error}"
    );
    assert_eq!(
        error,
        "feature has unmerged commits and no upstream; pass --force to remove it anyway"
    );
    assert!(world.registered(&path), "worktree must survive a refusal");
    assert!(world.has("feature"), "branch must survive a refusal");
}

#[test]
fn wt_rm_refuses_dirty_worktree_non_interactively() {
    let mut world = World::new();
    let path = world.worktree("feature", true);
    world.at(&path).unwrap().dirty = true;

    let (result, _, world) = perch(world, &["wt", "rm", "feature"]);

    let error = result.unwrap_err().to_string();
    assert!(error.contains("uncommitted"), "should name the risk; got: {error}");
    assert!(world.registered(&path), "worktree must survive");
}

#[test]
fn wt_rm_does_not_rename_past_gits_initialized_submodule_guard() {
    let mut world = World::new();
    let path = world.worktree("feature", true);
    world.at(&path).unwrap().submodule = true;

    let (result, asked, world) = perch(world, &["wt", "rm", "feature"]);

    assert_eq!(result, Ok(()));
    assert!(
        stderr_of(&asked).contains("working trees containing submodules"),
        "Git's submodule guard should speak for the refusal: {}",
        stderr_of(&asked)
    );
    assert!(world.registered(&path), "the guarded worktree must survive");
    assert!(world.has("feature"));
    assert!(asked.iter().all(|r| !matches!(r, Request::Rename { .. })));
}

#[test]
fn wt_rm_force_removes_dirty_worktree_and_unmerged_branch() {
    let mut world = World::new();
    let path = world.worktree("feature", false);
    world.at(&path).unwrap().dirty = true;

    let (result, _, world) = perch(world, &["wt", "rm", "feature", "--force"]);

    assert_eq!(result, Ok(()));
    assert!(!world.registered(&path), "worktree should be removed");
    assert!(!world.has("feature"), "unmerged branch should be force-deleted");
}

#[test]
fn wt_rm_dot_removes_the_current_worktree() {
    let mut world = World::new();
    let path = world.worktree("feature", true);
    world.cwd = format!("{path}/deep/inside");

    let (result, asked, world) = perch(world, &["wt", "rm", "."]);

    assert_eq!(result, Ok(()));
    assert!(!world.registered(&path), "the worktree we stood in should be removed");
    assert_eq!(
        stdout_of(&asked),
        "/src/repo\n",
        "stdout should hand the main worktree to the shell wrapper"
    );
    assert_eq!(world.cwd, "/src/repo");
}

#[test]
fn wt_rm_dot_sees_its_own_branch_as_unmerged() {
    let mut world = World::new();
    let path = world.worktree("feature", false);
    world.cwd = path.clone();

    let (result, _, world) = perch(world, &["wt", "rm", "."]);

    let error = result.unwrap_err().to_string();
    assert!(
        error.contains("unmerged"),
        "should name the unmerged commits; got: {error}"
    );
    assert!(world.registered(&path), "worktree must survive");
}

#[test]
fn wt_rm_dot_force_leaves_no_branch_behind() {
    let mut world = World::new();
    let path = world.worktree("feature", false);
    world.cwd = path.clone();

    let (result, _, world) = perch(world, &["wt", "rm", ".", "--force"]);

    assert_eq!(result, Ok(()));
    assert!(!world.registered(&path), "worktree should be gone");
    assert!(!world.has("feature"), "no leftover branch");
}

#[test]
fn wt_rm_dot_in_the_main_worktree_errors() {
    let mut world = World::new();
    world.worktree("feature", true);

    let (result, _, _) = perch(world, &["wt", "rm", "."]);

    let error = result.unwrap_err().to_string();
    assert!(
        error.contains("main worktree cannot be removed"),
        "should explain why; got: {error}"
    );
}

#[test]
fn the_main_worktree_is_refused_by_name_too_and_unknown_names_are_unknown() {
    for (name, expected) in [
        ("repo", "git worktree remove: the main worktree cannot be removed"),
        ("main", "git worktree remove: the main worktree cannot be removed"),
        ("other", "git worktree remove: no worktree is called 'other'"),
    ] {
        let mut world = World::new();
        world.worktree("feature", true);
        let (result, _, _) = perch(world, &["wt", "rm", name]);
        assert_eq!(result.unwrap_err().to_string(), expected);
    }
}

#[test]
fn the_innermost_worktree_is_the_one_that_one_is_in() {
    let mut world = World::new();
    world.branch("outer", true);
    world.branch("inner", true);
    world.tree("/src/repo/.trees/outer/inner", Some("inner"));
    world.tree("/src/repo/.trees/outer", Some("outer"));
    world.cwd = "/src/repo/.trees/outer/inner/x".to_string();
    let (result, _, world) = perch(world, &["wt", "rm", "."]);
    assert_eq!(result, Ok(()));
    assert!(world.has("outer"));
    assert!(!world.has("inner"));
}

#[test]
fn wt_rm_dot_refuses_dirty_worktree_non_interactively() {
    let mut world = World::new();
    let path = world.worktree("feature", true);
    world.at(&path).unwrap().dirty = true;
    world.cwd = path.clone();

    let (result, _, world) = perch(world, &["wt", "rm", "."]);

    assert!(result.is_err());
    assert!(world.registered(&path), "worktree must survive");
}

#[test]
fn wt_rm_from_inside_doomed_worktree_hands_off_to_main() {
    let mut world = World::new();
    let path = world.worktree("feature", true);
    world.cwd = path.clone();

    let (result, asked, world) = perch(world, &["wt", "rm", "feature"]);

    assert_eq!(result, Ok(()));
    assert!(!world.registered(&path), "worktree dir should be removed");
    assert_eq!(stdout_of(&asked), "/src/repo\n");
}

#[test]
fn wt_rm_reports_failure_and_keeps_branch_when_worktree_is_locked() {
    let mut world = World::new();
    let path = world.worktree("feature", true);
    world.at(&path).unwrap().locked = true;

    let (result, asked, mut world) = perch(world, &["wt", "rm", "feature", "--force"]);

    assert_eq!(result, Ok(()));
    assert!(
        stderr_of(&asked).contains("failed to remove"),
        "should report the removal failure; stderr: {}",
        stderr_of(&asked)
    );
    assert!(
        !world.at(&path).unwrap().missing,
        "worktree dir should still exist on failure"
    );
    assert!(
        world.has("feature"),
        "branch must not be deleted when removal failed"
    );
}

#[test]
fn wt_rm_from_inside_locked_worktree_hands_off_to_main() {
    let mut world = World::new();
    let path = world.worktree("feature", true);
    world.at(&path).unwrap().locked = true;
    world.cwd = path;

    let (result, asked, _) = perch(world, &["wt", "rm", "feature", "--force"]);

    assert_eq!(result, Ok(()));
    assert_eq!(stdout_of(&asked), "/src/repo\n");
}

#[test]
fn wt_rm_clears_missing_detached_worktree_by_dir_name() {
    let mut world = World::new();
    world.tree("/src/worktrees/repo/scratch", None);
    world.at("/src/worktrees/repo/scratch").unwrap().missing = true;

    let (result, asked, world) = perch(world, &["wt", "rm", "scratch"]);

    assert_eq!(result, Ok(()));
    assert!(!world.registered("/src/worktrees/repo/scratch"));
    assert!(asked.iter().all(|r| !matches!(r, Request::Rename { .. })));
}

#[test]
fn wt_rm_complete_lists_every_name_rm_accepts() {
    let mut world = World::new();
    world.worktree("feat/login", true);
    world.tree("/src/worktrees/repo/spike", None);
    let gone = world.worktree("abandoned", true);
    world.at(&gone).unwrap().missing = true;

    let (result, asked, world) = perch(world, &["wt", "rm", "--complete"]);

    assert_eq!(result, Ok(()));
    let stdout = stdout_of(&asked);
    let mut names: Vec<&str> = stdout.lines().collect();
    names.sort_unstable();
    assert_eq!(names, ["abandoned", "feat/login", "login", "spike"]);
    assert_eq!(world.trees.len(), 4, "listing must not remove");
}

#[test]
fn a_marked_row_goes_and_an_unmarked_one_keeps_gits_guards() {
    let mut world = World::new();
    let dirty = world.worktree("dirty", false);
    world.at(&dirty).unwrap().dirty = true;
    let clean = world.worktree("clean", true);
    world.interactive = true;
    // Both turn risky while the list is open; only one was marked.
    world.meanwhile = Some(|world| {
        world.at("/src/worktrees/repo/clean").unwrap().dirty = true;
    });

    let (result, asked, world) = perch(world, &["wt", "rm"]);

    assert_eq!(result, Ok(()));
    assert_eq!(
        rows_shown(&asked),
        [
            ("dirty".to_string(), "● ↑".to_string()),
            ("clean".to_string(), String::new()),
        ]
    );
    assert!(!world.registered(&dirty));
    assert!(!world.has("dirty"));
    assert!(world.registered(&clean));
    assert!(world.has("clean"));
    assert_eq!(
        stderr_of(&asked),
        "✓ removed worktree at ~/worktrees/repo/dirty\n✓ deleted dirty\n\
         ! failed to remove ~/worktrees/repo/clean: \
         fatal: contains modified or untracked files, use --force to delete it\n"
    );
    assert!(asked.contains(&Request::Spin("Removing 2 worktrees…".to_string())));
    assert!(asked.iter().any(|r| matches!(
        r,
        Request::PickRows { legend, .. }
            if *legend == ["● uncommitted changes", "↑ unmerged commits"]
    )));
}

#[test]
fn a_named_target_is_asked_about_on_a_terminal() {
    let risky = || {
        let mut world = World::new();
        let path = world.worktree("spike", false);
        world.at(&path).unwrap().dirty = true;
        world.interactive = true;
        world
    };
    let mut world = risky();
    world.keys.push_back(Key::Char('y'));
    let (result, asked, world) = perch(world, &["wt", "rm", "spike"]);
    assert_eq!(result, Ok(()));
    assert!(stderr_of(&asked).starts_with(
        "! ~/worktrees/repo/spike has uncommitted changes\n\
         ! spike has unmerged commits and no upstream\n\
         ? Remove the worktree and delete spike anyway? [y/N] / esc\n"
    ));
    assert!(!world.has("spike"));

    let mut world = risky();
    world.keys.push_back(Key::Char('n'));
    let (result, _, world) = perch(world, &["wt", "rm", "spike"]);
    assert_eq!(result, Ok(()));
    assert!(world.has("spike"));
}

#[test]
fn nothing_to_remove_is_said() {
    let (result, asked, _) = perch(World::new(), &["wt", "rm"]);
    assert_eq!(result, Ok(()));
    assert_eq!(stderr_of(&asked), "No worktrees to remove.\n");
}

#[test]
fn a_worktree_is_moved_aside_and_recorded_before_git_forgets_it() {
    let mut world = World::new();
    let path = world.worktree("feature", true);
    let world = RefCell::new(world);
    let (outcome, asked) = drive(
        |talk| remove_worktree(talk, &path, false, false),
        |request| world.borrow_mut().answer(request),
    );
    assert_eq!(outcome, Ok(WorktreeRemoveOutcome::Removed));
    let at = |wanted: &dyn Fn(&Request) -> bool| asked.iter().position(|r| wanted(r)).unwrap();
    let moved = at(&|r| matches!(r, Request::Rename { .. }));
    let removed = at(&|r| {
        matches!(r, Request::Git { args, .. } if args.starts_with(&["worktree".to_string(), "remove".to_string()]))
    });
    let spawned = at(&|r| matches!(r, Request::SpawnWorker(_)));
    let unlocked = at(&|r| *r == Request::Unlock);
    assert!(moved < removed && removed < spawned && spawned < unlocked);
}

// ---------------------------------------------------------------------------
// `br rm`
// ---------------------------------------------------------------------------

#[test]
fn br_rm_deletes_a_merged_local_branch() {
    let mut world = World::new();
    world.branch("feature", true);

    let (result, asked, world) = perch(world, &["br", "rm", "feature"]);

    assert_eq!(result, Ok(()));
    assert!(!world.has("feature"));
    assert!(
        stderr_of(&asked).contains("deleted feature"),
        "the removal should be reported; got: {}",
        stderr_of(&asked)
    );
}

#[test]
fn br_rm_refuses_an_unmerged_branch_non_interactively() {
    let mut world = World::new();
    world.branch("feature", false);

    let (result, _, world) = perch(world, &["br", "rm", "feature"]);

    let error = result.unwrap_err().to_string();
    assert!(
        error.contains("pass --force"),
        "the refusal should name the non-interactive escape hatch; got: {error}"
    );
    assert!(world.has("feature"));
}

#[test]
fn br_rm_force_deletes_an_unmerged_branch() {
    let mut world = World::new();
    world.branch("feature", false);

    let (result, _, world) = perch(world, &["br", "rm", "feature", "--force"]);

    assert_eq!(result, Ok(()));
    assert!(!world.has("feature"));
}

#[test]
fn br_rm_refuses_a_branch_held_by_a_worktree() {
    let mut world = World::new();
    let path = world.worktree("feature", true);

    let (result, _, world) = perch(world, &["br", "rm", "feature", "--force"]);

    let error = result.unwrap_err().to_string();
    assert!(world.has("feature"));
    assert!(world.registered(&path));
    assert!(
        error.contains("perch wt rm feature"),
        "held branches should point to the owner of worktree removal; got: {error}"
    );
}

#[test]
fn br_rm_refuses_the_main_worktree_branch_without_a_wt_rm_hint() {
    let (result, _, world) = perch(World::new(), &["br", "rm", "main", "--force"]);

    let error = result.unwrap_err().to_string();
    assert!(world.has("main"));
    assert!(
        error.contains("check out another branch in the main worktree first"),
        "the refusal should explain how to release the main-worktree branch; got: {error}",
    );
    assert!(
        !error.contains("wt rm"),
        "the main worktree cannot be removed with wt rm; got: {error}",
    );
}

#[test]
fn br_rm_does_not_give_dot_a_special_meaning() {
    let (result, _, _) = perch(World::new(), &["br", "rm", "."]);

    let error = result.unwrap_err().to_string();
    assert!(
        error.contains("branch '.' does not exist locally"),
        "dot should be handled as an ordinary branch name; got: {error}"
    );
}

#[test]
fn br_rm_rejects_unknown_options_and_extra_targets() {
    for (words, expected) in [
        (&["br", "rm", "--remote", "feature"][..], "unknown option '--remote'"),
        (&["br", "rm", "one", "two"], "unexpected extra target 'two'"),
        (&["br", "rm", "feature", "-f"], "unknown option '-f'"),
    ] {
        let (result, asked, _) = perch(World::new(), words);
        assert!(result.unwrap_err().to_string().contains(expected));
        assert!(asked.is_empty());
    }
}

#[test]
fn br_rm_picker_shows_but_does_not_select_disabled_branches() {
    let mut world = World::new();
    world.branch("free", true);
    world.branch("current", true);
    world.trees[0].branch = Some("current".to_string());
    world.worktree("held", true);
    world.interactive = true;

    let (result, asked, world) = perch(world, &["br", "rm", "--force"]);

    assert_eq!(result, Ok(()));
    assert!(!world.has("free"));
    for branch in ["current", "held"] {
        assert!(world.has(branch), "disabled branch {branch} should survive");
    }
    let rows = rows_shown(&asked);
    assert!(rows.iter().any(|(name, _)| name == "current"));
    assert!(
        rows.iter()
            .any(|(name, detail)| name == "held" && detail.contains("use wt rm")),
        "held row should point to wt rm: {rows:?}"
    );
}

#[test]
fn br_rm_picker_offers_a_kept_branch_and_the_default_branch() {
    let mut world = World::new();
    world.branch("kept", true);
    world.branch("topic", true);
    world.trees[0].branch = Some("topic".to_string());
    world.interactive = true;

    let (result, _, world) = perch(world, &["br", "rm", "--force"]);

    assert_eq!(result, Ok(()));
    assert!(!world.has("kept"), "a kept branch is an ordinary picker row");
    assert!(
        !world.has("main"),
        "the local default branch is an ordinary picker row"
    );
}

#[test]
fn br_rm_named_local_default_branch_is_removable_when_unheld() {
    let mut world = World::new();
    world.branch("topic", true);
    world.trees[0].branch = Some("topic".to_string());

    let (result, _, world) = perch(world, &["br", "rm", "main"]);

    assert_eq!(result, Ok(()));
    assert!(!world.has("main"));
}

#[test]
fn br_rm_completion_lists_local_branches_only() {
    let mut world = World::new();
    world.branch("local", true);
    world.server.push(("remote-only".to_string(), "r1".to_string()));

    let (result, asked, _) = perch(world, &["br", "rm", "--complete"]);

    assert_eq!(result, Ok(()));
    let stdout = stdout_of(&asked);
    let mut branches: Vec<_> = stdout.lines().collect();
    branches.sort();
    assert_eq!(branches, ["local", "main"]);
}

#[test]
fn br_rm_upstream_deletes_an_explicit_same_named_upstream() {
    let mut world = World::new();
    world.branch("feature", true);
    world.publish("feature", "origin");

    let (result, asked, world) =
        perch(world, &["br", "rm", "feature", "--upstream", "--force"]);

    assert_eq!(result, Ok(()));
    assert!(!world.has("feature"));
    assert!(!world.on_server("feature"));
    assert!(
        stderr_of(&asked).contains("deleted upstream origin/feature"),
        "the upstream deletion should be reported; got: {}",
        stderr_of(&asked)
    );
}

#[test]
fn br_rm_upstream_uses_the_configured_non_origin_remote() {
    let mut world = World::new();
    world.branch("feature", true);
    world.publish("feature", "upstream");

    let (result, asked, world) =
        perch(world, &["br", "rm", "--upstream", "feature", "--force"]);

    assert_eq!(result, Ok(()));
    assert!(!world.on_server("feature"));
    assert!(stderr_of(&asked).contains("deleted upstream upstream/feature"));
}

#[test]
fn br_rm_upstream_refuses_a_mismatched_tracking_branch_before_local_deletion() {
    let mut world = World::new();
    world.branch("feature", true);
    world.find("feature").unwrap().upstream = Some((
        "origin".to_string(),
        "refs/heads/main".to_string(),
        String::new(),
    ));

    let (result, _, world) = perch(world, &["br", "rm", "feature", "--upstream", "--force"]);

    let error = result.unwrap_err().to_string();
    assert!(world.has("feature"));
    assert!(world.on_server("main"));
    assert!(
        error.contains("no explicit same-named upstream"),
        "a base branch must not become an inferred delete target; got: {error}"
    );
}

#[test]
fn br_rm_upstream_refuses_an_untracked_branch_before_local_deletion() {
    let mut world = World::new();
    world.branch("feature", true);

    let (result, _, world) = perch(world, &["br", "rm", "feature", "--upstream", "--force"]);

    assert!(world.has("feature"));
    assert!(result
        .unwrap_err()
        .to_string()
        .contains("no explicit same-named upstream"));
}

#[test]
fn br_rm_upstream_treats_an_already_absent_ref_as_finished() {
    let mut world = World::new();
    world.branch("feature", true);
    world.publish("feature", "origin");
    world.server.retain(|(name, _)| name != "feature");

    let (result, asked, world) =
        perch(world, &["br", "rm", "feature", "--upstream", "--force"]);

    assert_eq!(result, Ok(()));
    assert!(!world.has("feature"));
    assert!(
        stderr_of(&asked).contains("upstream origin/feature is already absent"),
        "the absent remote half should not become an error; got: {}",
        stderr_of(&asked)
    );
}

#[test]
fn br_rm_upstream_never_deletes_the_remote_default_branch() {
    let mut world = World::new();
    world.branch("feature", true);
    world.trees[0].branch = Some("feature".to_string());

    let (result, _, world) = perch(world, &["br", "rm", "main", "--upstream", "--force"]);

    let error = result.unwrap_err().to_string();
    assert!(world.has("main"));
    assert!(world.on_server("main"));
    assert!(
        error.contains("remote's default branch"),
        "the protected reason should be explicit; got: {error}"
    );
}

#[test]
fn br_rm_force_without_upstream_leaves_the_remote_branch_alone() {
    let mut world = World::new();
    world.branch("feature", true);
    world.publish("feature", "origin");
    world.interactive = true;

    let (result, asked, world) = perch(world, &["br", "rm", "feature", "--force"]);

    assert_eq!(result, Ok(()));
    assert!(!world.has("feature"));
    assert!(world.on_server("feature"));
    assert!(asked
        .iter()
        .all(|r| !matches!(r, Request::Git { args, .. } if args[0] == "ls-remote")));
}

fn published() -> World {
    let mut world = World::new();
    world.branch("feature", true);
    world.publish("feature", "origin");
    world.interactive = true;
    world
}

#[test]
fn br_rm_named_upstream_confirmation_defaults_off() {
    let mut world = published();
    world.keys.push_back(Key::Enter);

    let (result, asked, world) = perch(world, &["br", "rm", "feature"]);

    assert_eq!(result, Ok(()));
    assert!(!world.has("feature"));
    assert!(world.on_server("feature"));
    let output = stderr_of(&asked);
    assert!(output.contains("deleting origin/feature removes a shared upstream ref"));
    assert!(output.contains("Delete upstream origin/feature too?"));
}

#[test]
fn br_rm_upstream_flag_preselects_the_named_confirmation() {
    let mut world = published();
    world.keys.push_back(Key::Enter);

    let (result, asked, world) = perch(world, &["br", "rm", "feature", "--upstream"]);

    assert_eq!(result, Ok(()));
    assert!(!world.has("feature"));
    assert!(!world.on_server("feature"));
    assert!(stderr_of(&asked).contains("deleted upstream origin/feature"));
}

#[test]
fn br_rm_named_upstream_confirmation_advertises_escape() {
    let mut world = published();
    world.keys.push_back(Key::Escape);

    let (_, asked, _) = perch(world, &["br", "rm", "feature", "--upstream"]);

    let output = stderr_of(&asked);
    assert!(
        output.contains("[Y/n] / esc"),
        "the confirmation should advertise its cancellation key; got: {output}",
    );
}

#[test]
fn br_rm_escape_from_named_upstream_confirmation_cancels_every_removal() {
    let mut world = published();
    world.keys.push_back(Key::Escape);

    let (_, _, world) = perch(world, &["br", "rm", "feature", "--upstream"]);

    assert_eq!(
        (world.has("feature"), world.on_server("feature")),
        (true, true),
        "Escape from the named upstream confirmation must cancel the whole removal",
    );
}

#[test]
fn br_rm_escape_from_upstream_picker_cancels_every_removal() {
    let mut world = World::new();
    for branch in ["a", "b"] {
        world.branch(branch, true);
        world.publish(branch, "origin");
    }
    world.interactive = true;
    world.ticks.push_back(Some(vec![0, 1, 2]));
    world.ticks.push_back(None);

    let (result, asked, world) = perch(world, &["br", "rm", "--upstream"]);

    assert_eq!(result, Ok(()));
    assert!(asked.iter().any(|r| matches!(
        r,
        Request::PickRows { prompt, rows, .. }
            if prompt == "Also delete upstream branches?" && rows.iter().all(|row| row.ticked)
    )));
    assert_eq!(
        (
            world.has("a"),
            world.has("b"),
            world.on_server("a"),
            world.on_server("b"),
        ),
        (true, true, true, true),
        "Escape from the upstream picker must cancel the whole removal",
    );
}

#[test]
fn br_rm_batch_keeps_a_failed_local_and_its_upstream_then_continues() {
    let mut world = World::new();
    world.branch("a", true);
    world.branch("b", true);
    world.publish("a", "origin");
    world.interactive = true;
    world.meanwhile = Some(|world| world.tree("/src/held-a", Some("a")));

    let (result, asked, world) = perch(world, &["br", "rm", "--upstream", "--force"]);

    assert!(world.has("a"));
    assert!(!world.has("b"));
    assert!(world.on_server("a"));
    let output = stderr_of(&asked);
    assert!(
        output.contains("kept upstream origin/a because the local branch still exists"),
        "the remote half must follow local failure: {output}"
    );
    assert_eq!(
        result.unwrap_err().to_string(),
        "one or more requested removals failed"
    );
    assert!(
        output.find("could not delete a").unwrap() < output.find("deleted b").unwrap(),
        "pairs should report in picker order: {output}"
    );
}

#[test]
fn br_rm_batch_continues_after_explicit_upstream_inspection_failure() {
    let mut world = World::new();
    world.branch("a", true);
    world.branch("b", true);
    world.publish("a", "broken");
    world.unreachable = true;
    world.interactive = true;

    let (result, asked, world) = perch(world, &["br", "rm", "--upstream", "--force"]);

    assert!(world.has("a"));
    assert!(!world.has("b"));
    let output = stderr_of(&asked);
    assert!(
        output
            .find("could not prepare upstream removal for a")
            .unwrap()
            < output.find("deleted b").unwrap(),
        "preflight failures should keep pair order: {output}"
    );
    assert_eq!(
        result.unwrap_err().to_string(),
        "one or more requested removals failed"
    );
}

#[test]
fn br_rm_upstream_inspection_failure_preserves_the_local_branch() {
    let mut world = World::new();
    world.branch("feature", true);
    world.publish("feature", "origin");
    world.unreachable = true;

    let (result, _, world) = perch(world, &["br", "rm", "feature", "--upstream", "--force"]);

    assert!(result.is_err());
    assert!(world.has("feature"));
}

#[test]
fn br_rm_reports_partial_failure_when_the_server_refuses_upstream_deletion() {
    let mut world = World::new();
    world.branch("feature", true);
    world.publish("feature", "origin");
    world.denies_deletes = true;

    let (result, asked, world) =
        perch(world, &["br", "rm", "feature", "--upstream", "--force"]);

    assert!(result.is_err());
    assert!(!world.has("feature"));
    assert!(world.on_server("feature"));
    assert!(
        stderr_of(&asked).contains("could not delete upstream origin/feature"),
        "the completed local half and failed remote half should be visible; got: {}",
        stderr_of(&asked)
    );
}

#[test]
fn an_upstream_outside_a_terminal_needs_both_flags() {
    let mut world = World::new();
    world.branch("feature", true);
    world.publish("feature", "origin");
    let (result, _, world) = perch(world, &["br", "rm", "feature", "--upstream"]);
    assert!(result.unwrap_err().to_string().contains("pass --force"));
    assert!(world.has("feature"));
    assert!(world.on_server("feature"));
}

#[test]
fn an_upstream_that_moved_is_kept_and_said_so() {
    let mut world = published();
    world.keys.push_back(Key::Char('y'));
    let (result, asked, world) = {
        let words: Vec<String> = ["br", "rm", "feature"].map(str::to_string).to_vec();
        let world = RefCell::new(world);
        let (result, asked) = drive(
            |talk| perch::run(talk, &words),
            |request| {
                let mut world = world.borrow_mut();
                if matches!(request, Request::ReadKey) {
                    world.server[1].1 = "moved".to_string();
                }
                world.answer(request)
            },
        );
        (result, asked, world.into_inner())
    };
    assert!(result.is_err());
    assert!(world.on_server("feature"));
    assert!(stderr_of(&asked).contains(
        "kept upstream origin/feature because it moved from feature1 to moved"
    ));
}

// ---------------------------------------------------------------------------
// The sweep
// ---------------------------------------------------------------------------

/// A stale branch: it was published, and its upstream is gone.
fn swept(merged: bool, landed: bool) -> World {
    let mut world = World::new();
    world.branch("feature", merged);
    let feature = world.find("feature").unwrap();
    feature.landed = landed;
    feature.upstream = Some((
        "origin".to_string(),
        "refs/heads/feature".to_string(),
        "gone".to_string(),
    ));
    world.branch("dest", true);
    world.find("dest").unwrap().tip = "m1".to_string();
    world.interactive = true;
    world
}

#[test]
fn a_squash_merged_branch_is_deleted_without_a_warning() {
    let (result, asked, world) = perch(swept(false, true), &["dest"]);

    assert_eq!(result, Ok(()));
    assert_eq!(
        rows_shown(&asked),
        [("feature".to_string(), "gone".to_string())],
        "a proven branch destroys nothing, so no marker"
    );
    assert!(!world.has("feature"), "the branch should be gone");
    assert!(stderr_of(&asked).ends_with("✓ deleted feature\n"));
}

#[test]
fn a_commit_on_top_of_a_squash_merge_keeps_its_warning() {
    let (result, asked, world) = perch(swept(false, false), &["dest"]);

    assert_eq!(result, Ok(()));
    assert_eq!(
        rows_shown(&asked),
        [("feature".to_string(), "gone ↑".to_string())],
        "unique work is still at risk, so the marker stands"
    );
    assert!(asked.iter().any(|r| matches!(
        r,
        Request::PickRows { legend, .. } if legend.iter().any(|l| l.contains("unmerged commits"))
    )));
    assert!(!world.has("feature"), "a warned row is still deleted when ticked");
}

#[test]
fn dirty_uncommitted_worktree_reports_its_ref_ground() {
    let mut world = World::new();
    let path = world.worktree("uncommitted", true);
    world.at(&path).unwrap().dirty = true;
    world.branch("dest", true);
    world.find("dest").unwrap().tip = "m1".to_string();
    world.interactive = true;

    let (result, asked, _) = perch(world, &["dest"]);

    assert_eq!(result, Ok(()));
    assert_eq!(
        rows_shown(&asked),
        [(
            "uncommitted".to_string(),
            "untracked, tip in anchor (+ worktree ●)".to_string()
        )],
        "the row should state the ref evidence"
    );
}

#[test]
fn a_branch_ahead_of_the_anchor_it_tracks_says_so_and_no_more() {
    let mut world = World::new();
    world.branch("topic", true);
    world.find("topic").unwrap().upstream = Some((
        "origin".to_string(),
        "refs/heads/main".to_string(),
        "ahead 2".to_string(),
    ));
    world.branch("dest", true);
    world.find("dest").unwrap().tip = "m1".to_string();
    world.interactive = true;

    let (result, asked, _) = perch(world, &["dest"]);

    assert_eq!(result, Ok(()));
    assert_eq!(
        rows_shown(&asked),
        [("topic".to_string(), "tracks anchor, ahead ↑2".to_string())]
    );
    assert!(asked.iter().any(|r| matches!(
        r,
        Request::PickRows { legend, .. } if *legend == ["↑ unmerged commits".to_string()]
    )));
}

#[test]
fn a_ground_stands_in_no_legend() {
    let (result, asked, _) = perch(swept(true, false), &["dest"]);
    assert_eq!(result, Ok(()));
    assert!(asked.iter().any(|r| matches!(
        r,
        Request::PickRows { legend, rows, .. }
            if legend.is_empty() && rows.len() == 1 && rows[0].detail == "gone"
    )));
}

#[test]
fn a_branch_that_moves_after_the_proof_is_no_longer_covered_by_it() {
    let mut world = swept(false, true);
    world.meanwhile = Some(|world| world.find("feature").unwrap().tip = "parked".to_string());

    let (result, asked, world) = perch(world, &["dest"]);

    assert_eq!(result, Ok(()));
    assert!(
        world.has("feature"),
        "the proof no longer covers where the branch points, so git refuses"
    );
    assert!(stderr_of(&asked)
        .contains("! could not delete feature: it has unmerged commits\n"));
}

#[test]
fn an_anchor_that_moves_after_the_proof_ends_it_too() {
    let mut world = swept(false, true);
    world.meanwhile = Some(|world| world.anchor = "rewound".to_string());
    let (_, _, world) = perch(world, &["dest"]);
    assert!(world.has("feature"));
}

#[test]
fn a_worktree_taken_on_the_proven_branch_mid_prompt_saves_it() {
    let mut world = swept(false, true);
    world.meanwhile = Some(|world| world.tree("/src/held", Some("feature")));

    let (_, _, world) = perch(world, &["dest"]);

    assert!(world.has("feature"), "a branch a worktree now holds must survive");
}

#[test]
fn the_branch_just_left_starts_out_ticked() {
    let mut world = swept(true, false);
    world.trees[0].branch = Some("feature".to_string());
    world.ticks.push_back(None);
    let (result, asked, world) = perch(world, &["dest"]);
    assert_eq!(result, Ok(()));
    assert!(asked.iter().any(|r| matches!(
        r,
        Request::PickRows { prompt, rows, .. }
            if prompt == "Delete stale branches (space to toggle, →/← all/none)"
                && rows.len() == 1 && rows[0].name == "feature" && rows[0].ticked
    )));
    assert!(world.has("feature"));
}

#[test]
fn a_stale_branch_taking_its_worktree_fires_the_removal_hook() {
    let mut world = swept(false, false);
    world.tree("/src/wt", Some("feature"));
    world.hooks = vec![("removed".to_string(), "tell removed".to_string())];

    let (result, asked, world) = perch(world, &["dest"]);

    assert_eq!(result, Ok(()));
    assert!(!world.registered("/src/wt"), "the held worktree should be gone");
    assert_eq!(
        rows_shown(&asked),
        [("feature".to_string(), "gone (+ worktree) ↑".to_string())]
    );
    let told = shells(&asked);
    assert_eq!(told.len(), 1);
    assert!(told[0].1.contains(&("PERCH_BRANCH".to_string(), "feature".to_string())));
    assert!(told[0].1.contains(&("PERCH_WORKTREE".to_string(), "/src/wt".to_string())));
}

#[test]
fn an_interrupt_of_the_sweep_travels() {
    let world = RefCell::new(swept(true, false));
    let words = vec!["dest".to_string()];
    let (result, _) = drive(
        |talk| perch::run(talk, &words),
        |request| match request {
            Request::PickRows { .. } => Reply::Ticked(Err(Error::Io(IoError {
                kind: IoKind::Interrupted,
                message: "interrupted".to_string(),
            }))),
            _ => world.borrow_mut().answer(request),
        },
    );
    assert!(result.unwrap_err().is_interrupt());
}

// ---------------------------------------------------------------------------
// Hooks
// ---------------------------------------------------------------------------

#[test]
fn br_rm_does_not_fire_the_worktree_removal_hook() {
    let mut world = World::new();
    world.branch("feature", true);
    world.hooks = vec![("removed".to_string(), "tell".to_string())];

    let (result, asked, _) = perch(world, &["br", "rm", "feature"]);

    assert_eq!(result, Ok(()));
    assert!(
        shells(&asked).is_empty(),
        "br rm must not masquerade as worktree removal"
    );
}

#[test]
fn wt_rm_reports_the_removal_before_the_hook_runs() {
    let mut world = World::new();
    world.worktree("feature", true);
    world.hooks = vec![("removed".to_string(), "tell".to_string())];

    let (result, asked, _) = perch(world, &["wt", "rm", "feature", "--force"]);

    assert_eq!(result, Ok(()));
    let removal = asked
        .iter()
        .position(|r| matches!(r, Request::Tell { text, .. } if text.contains("removed worktree")))
        .expect("removal report");
    let hook = asked
        .iter()
        .position(|r| matches!(r, Request::Shell { .. }))
        .expect("hook");
    assert!(removal < hook, "the removal report must precede its hook");
}

#[test]
fn a_hook_is_told_everything_and_its_failure_is_only_said() {
    let mut world = World::new();
    world.worktree("feature", true);
    world.hooks = vec![("removed".to_string(), "tell".to_string())];
    world.hook_code = 3;

    let (result, asked, world) = perch(world, &["wt", "rm", "feature", "--force"]);

    assert_eq!(result, Ok(()));
    assert!(!world.has("feature"));
    assert_eq!(
        shells(&asked),
        [(
            "tell".to_string(),
            [
                ("PERCH_BRANCH", "feature"),
                ("PERCH_EVENT", "removed"),
                ("PERCH_MAIN", "/src/repo"),
                ("PERCH_WORKTREE", "/src/worktrees/repo/feature"),
            ]
            .map(|(k, v)| (k.to_string(), v.to_string()))
            .to_vec()
        )]
    );
    assert!(stderr_of(&asked).contains("! removed hook exited 3\n"));
}

#[test]
fn hooks_can_be_turned_off_for_a_run() {
    let mut world = World::new();
    world.worktree("feature", true);
    world.hooks = vec![("removed".to_string(), "tell".to_string())];
    world.no_hooks = true;
    let (_, asked, _) = perch(world, &["wt", "rm", "feature"]);
    assert!(shells(&asked).is_empty());
}

// ---------------------------------------------------------------------------
// The pieces
// ---------------------------------------------------------------------------

#[test]
fn rows_say_what_goes_and_what_is_lost() {
    let mut world = World::new();
    let missing = world.worktree("missing", true);
    world.at(&missing).unwrap().missing = true;
    world.worktree("ahead", true);
    world.find("ahead").unwrap().upstream = Some((
        "origin".to_string(),
        "refs/heads/ahead".to_string(),
        "ahead 3".to_string(),
    ));
    world.tree("/src/worktrees/repo/spike", None);
    let world = RefCell::new(world);
    let (rows, _) = drive(
        |talk| {
            let trees = match worktree_list(talk)? {
                Ok(trees) => trees,
                Err(e) => return Some(Err(e)),
            };
            match assess_worktrees(talk, &trees, None)? {
                Ok(assessment) => Some(Ok(rows_of(&assessment))),
                Err(e) => Some(Err(e)),
            }
        },
        |request| world.borrow_mut().answer(request),
    );
    let shown: Vec<(String, String)> = rows
        .unwrap()
        .into_iter()
        .map(|row| (row.name, row.detail))
        .collect();
    assert_eq!(
        shown,
        [("missing", "missing"), ("ahead", "↑3"), ("spike", "")]
            .map(|(a, b)| (a.to_string(), b.to_string()))
    );
}

#[test]
fn branches_without_a_main_worktree_cannot_be_assessed() {
    let (assessed, _) = drive(
        |talk| assess_branches(talk, &["a".to_string()], &[]),
        |_: &Request| Reply::Done,
    );
    assert_eq!(
        assessed.unwrap_err().to_string(),
        "git worktree list: no main worktree found"
    );
}

#[test]
fn a_delete_without_force_or_proof_is_gits_to_decide() {
    let proof = Some(Proof {
        anchor_ref: "refs/heads/main".to_string(),
        anchor_tip: "m1".to_string(),
        tip: "feature1".to_string(),
    });
    for (force, proof, landed, expected) in [
        (true, &None, false, BranchDeleteOutcome::Deleted),
        (false, &None, false, BranchDeleteOutcome::NotMerged),
        (false, &proof, true, BranchDeleteOutcome::Deleted),
    ] {
        let mut world = World::new();
        world.branch("feature", false);
        world.find("feature").unwrap().landed = landed;
        let world = RefCell::new(world);
        let (outcome, _) = drive(
            |talk| delete_local(talk, Some("/src/repo"), "feature", force, proof),
            |request| world.borrow_mut().answer(request),
        );
        assert_eq!(outcome, Ok(expected));
    }
}
