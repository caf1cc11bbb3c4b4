//! The fetch that `wt` starts before its list opens, so that the round trip
//! overlaps the local reads and the wait for a key.
use vstd::prelude::*;
use vstd::string::*;

use crate::ask::{ask_done, ask_run, done_asked, flag_asked, run_asked};
use crate::git::worktrees::declares_submodules_spec;
use crate::git::{self, FetchOutcome};
use crate::grammar::Words;
use crate::model::{borrowed, models, Modelled};

use crate::talk::{asked, heard, Answer, Asked, Progress, Reply, Request, Talk};
use crate::text;

use super::reports::{report_fetch_failure, report_fetch_failure_spec};

verus! {

/// A remote that this run has fetched and reported on, and what came of it.
#[derive(Debug, PartialEq, Eq)]
pub struct FetchedRemote<S = String> {
    pub remote: S,
    pub outcome: FetchOutcome<S>,
}

impl Modelled for FetchedRemote {
    type Model = FetchedRemote<Seq<char>>;

    open spec fn model(&self) -> FetchedRemote<Seq<char>> {
        FetchedRemote { remote: self.remote@, outcome: self.outcome.model() }
    }
}

/// What a reference to an optional fetch means.
pub open spec fn fetched_model(fetched: Option<&FetchedRemote>) -> Option<
    FetchedRemote<Seq<char>>,
> {
    match fetched {
        Some(f) => Some(f.model()),
        None => None,
    }
}

impl FetchedRemote {
    /// Whether it is this remote, where it was fetched from, that was fetched.
    pub fn covers(&self, remote: &str) -> (r: bool)
        ensures
            r == (self.model().remote == remote@),
    {
        text::same(&self.remote, remote)
    }
}

// ---------------------------------------------------------------------------
// Whether a fetch means the same from another directory
// ---------------------------------------------------------------------------

/// Whether each word of a command that is a path is an absolute one.
pub open spec fn fixed_command(command: Seq<char>) -> bool {
    forall|i: int|
        0 <= i < text::split_white(command).len() ==> fixed_word(
            #[trigger] text::split_white(command)[i],
        )
}

pub open spec fn fixed_word(word: Seq<char>) -> bool {
    word.contains('/') ==> word.len() > 0 && word[0] == '/'
}

/// Whether each word of a command that a shell runs is no relative path.
pub open spec fn fixed_script(script: Seq<char>) -> bool {
    forall|i: int|
        0 <= i < text::split_white(script).len() ==> fixed_in_shell(
            #[trigger] text::split_white(script)[i],
        )
}

/// Whether a word holds no path, or one from the root or from the user's home
/// as a shell reads it, be it quoted or assigned.
pub open spec fn fixed_in_shell(word: Seq<char>) -> bool {
    text::split_once(word, '/') matches Some((before, _)) ==> {
        ||| before.len() == 0
        ||| before == "~"@
        ||| before == "'"@
        ||| before == "\""@
        ||| text::ends_with(before, "="@)
    }
}

/// Whether an address is a host and a path on it, a colon between them. A
/// slash before the colon makes it a path here, and two slashes or another
/// colon behind it hand it to a transport by its name.
pub open spec fn names_host(url: Seq<char>) -> bool {
    text::split_once(url, ':') matches Some((host, path)) && !host.contains('/')
        && !text::starts_with(path, ":"@) && !text::starts_with(path, "//"@)
}

/// Whether a URL names the same repository from every directory: an absolute
/// path, or a host behind one of git's own transports.
pub open spec fn fixed_url(url: Seq<char>) -> bool {
    ||| text::starts_with(url, "/"@)
    ||| text::starts_with(url, "file:///"@)
    ||| text::starts_with(url, "https://"@)
    ||| text::starts_with(url, "http://"@)
    ||| text::starts_with(url, "ssh://"@)
    ||| text::starts_with(url, "git://"@)
    ||| names_host(url)
}

/// A configuration entry: its key and its value, a line feed between them.
pub open spec fn entry_parts(entry: Seq<char>) -> (Seq<char>, Seq<char>) {
    match text::split_once(entry, '\n') {
        Some((key, value)) => (key, value),
        None => (entry, Seq::empty()),
    }
}

/// Whether a configuration entry leaves a fetch the same from everywhere. One
/// that hands the remote to a helper does not, and neither does a relative
/// path to hooks or to a program that carries the transport.
pub open spec fn fixed_entry(entry: Seq<char>) -> bool {
    let (key, value) = entry_parts(entry);
    if text::starts_with(key, "remote."@) && text::ends_with(key, ".vcs"@) {
        false
    } else if key == "core.hookspath"@ {
        text::starts_with(value, "/"@) || text::starts_with(value, "~/"@)
    } else if key == "core.sshcommand"@ {
        fixed_script(value)
    } else if key == "core.gitproxy"@ {
        fixed_command(value)
    } else {
        true
    }
}

/// Whether a variable leaves a fetch the same from everywhere. One that picks
/// the repository or its configuration does not, and neither does a relative
/// path to the user's home, to git's programs or to a program that carries the
/// transport.
pub open spec fn fixed_variable(name: Seq<char>, value: Seq<char>) -> bool {
    if name == "GIT_DIR"@ || name == "GIT_COMMON_DIR"@ || name == "GIT_WORK_TREE"@ || name
        == "GIT_CONFIG"@ || name == "GIT_OBJECT_DIRECTORY"@ || name == "GIT_NAMESPACE"@ {
        false
    } else if name == "GIT_EXEC_PATH"@ || name == "HOME"@ {
        text::starts_with(value, "/"@)
    } else if name == "GIT_SSH_COMMAND"@ {
        fixed_script(value)
    } else if name == "GIT_SSH"@ || name == "GIT_PROXY_COMMAND"@ {
        fixed_command(value)
    } else if name == "PATH"@ {
        forall|i: int|
            0 <= i < text::split(value, ':').len() ==> text::starts_with(
                #[trigger] text::split(value, ':')[i],
                "/"@,
            )
    } else {
        true
    }
}

/// What a fetch depends on where it runs: the URL and the configuration.
#[derive(Debug, PartialEq, Eq)]
pub struct Reach {
    pub url: Option<String>,
    pub config: Vec<String>,
}

/// What a [`Reach`] means.
pub struct ReachModel {
    pub url: Option<Seq<char>>,
    pub config: Words,
}

impl Modelled for Reach {
    type Model = ReachModel;

    open spec fn model(&self) -> ReachModel {
        ReachModel { url: self.url.model(), config: self.config.model() }
    }
}

/// Variables by name and value.
pub type Variables = Seq<(Seq<char>, Seq<char>)>;

/// Whether a fetch from one directory does what the same fetch from another
/// would: both read the same URL and configuration, and nothing in them or in
/// the environment is resolved from where git runs.
pub open spec fn reach_alike(here: ReachModel, there: ReachModel, env: Variables) -> bool {
    &&& here.url == there.url
    &&& here.config == there.config
    &&& here.url matches Some(url) && fixed_url(url)
    &&& forall|i: int| 0 <= i < here.config.len() ==> fixed_entry(#[trigger] here.config[i])
    &&& forall|i: int|
        0 <= i < env.len() ==> fixed_variable((#[trigger] env[i]).0, env[i].1)
}

fn is_fixed_word(word: &str) -> (r: bool)
    ensures
        r == fixed_word(word@),
{
    proof {
        reveal_strlit("/");
        if word@.len() > 0 {
            assert(word@.take(1)[0] == word@[0]);
            if word@[0] == '/' {
                assert(word@.take(1) =~= "/"@);
            }
        }
    }
    !text::holds_char(word, '/') || text::begins(word, "/")
}

fn is_fixed_command(command: &str) -> (r: bool)
    ensures
        r == fixed_command(command@),
{
    let words: Vec<String> = text::words_of(command);
    let ghost all = text::split_white(command@);
    let mut i: usize = 0;
    while i < words.len()
        invariant
            i <= words@.len(),
            all == models(words@),
            all == text::split_white(command@),
            forall|j: int| 0 <= j < i ==> fixed_word(#[trigger] all[j]),
        decreases words@.len() - i,
    {
        if !is_fixed_word(&words[i]) {
            assert(!fixed_word(all[i as int]));
            return false;
        }
        assert(fixed_word(all[i as int]));
        i += 1;
    }
    true
}

fn is_fixed_in_shell(word: &str) -> (r: bool)
    ensures
        r == fixed_in_shell(word@),
{
    match text::parted(word, '/') {
        Some((before, _)) => before.as_str().is_empty() || text::same(&before, "~") || text::same(
            &before,
            "'",
        ) || text::same(&before, "\"") || text::finishes(&before, "="),
        None => true,
    }
}

fn is_fixed_script(script: &str) -> (r: bool)
    ensures
        r == fixed_script(script@),
{
    let words: Vec<String> = text::words_of(script);
    let ghost all = text::split_white(script@);
    let mut i: usize = 0;
    while i < words.len()
        invariant
            i <= words@.len(),
            all == models(words@),
            all == text::split_white(script@),
            forall|j: int| 0 <= j < i ==> fixed_in_shell(#[trigger] all[j]),
        decreases words@.len() - i,
    {
        if !is_fixed_in_shell(&words[i]) {
            assert(!fixed_in_shell(all[i as int]));
            return false;
        }
        assert(fixed_in_shell(all[i as int]));
        i += 1;
    }
    true
}

fn is_host_named(url: &str) -> (r: bool)
    ensures
        r == names_host(url@),
{
    match text::parted(url, ':') {
        Some((host, path)) => !text::holds_char(&host, '/') && !text::begins(&path, ":")
            && !text::begins(&path, "//"),
        None => false,
    }
}

fn is_fixed_url(url: &str) -> (r: bool)
    ensures
        r == fixed_url(url@),
{
    text::begins(url, "/") || text::begins(url, "file:///") || text::begins(url, "https://")
        || text::begins(url, "http://") || text::begins(url, "ssh://") || text::begins(
        url,
        "git://",
    ) || is_host_named(url)
}

fn is_fixed_entry(entry: &str) -> (r: bool)
    ensures
        r == fixed_entry(entry@),
{
    let parts: (String, String) = match text::parted(entry, '\n') {
        Some(parts) => parts,
        None => {
            let none: String = String::new();
            assert(none@ =~= Seq::empty());
            (entry.to_owned(), none)
        },
    };
    let key: &str = parts.0.as_str();
    let value: &str = parts.1.as_str();
    if text::begins(key, "remote.") && text::finishes(key, ".vcs") {
        false
    } else if text::same(key, "core.hookspath") {
        text::begins(value, "/") || text::begins(value, "~/")
    } else if text::same(key, "core.sshcommand") {
        is_fixed_script(value)
    } else if text::same(key, "core.gitproxy") {
        is_fixed_command(value)
    } else {
        true
    }
}

fn is_fixed_path_list(value: &str) -> (r: bool)
    ensures
        r == forall|i: int|
            0 <= i < text::split(value@, ':').len() ==> text::starts_with(
                #[trigger] text::split(value@, ':')[i],
                "/"@,
            ),
{
    let entries: Vec<String> = text::split_at_each(value, ':');
    let ghost all = text::split(value@, ':');
    let mut i: usize = 0;
    while i < entries.len()
        invariant
            i <= entries@.len(),
            all == models(entries@),
            all == text::split(value@, ':'),
            forall|j: int| 0 <= j < i ==> text::starts_with(#[trigger] all[j], "/"@),
        decreases entries@.len() - i,
    {
        if !text::begins(&entries[i], "/") {
            assert(!text::starts_with(all[i as int], "/"@));
            return false;
        }
        assert(text::starts_with(all[i as int], "/"@));
        i += 1;
    }
    true
}

fn is_fixed_variable(name: &str, value: &str) -> (r: bool)
    ensures
        r == fixed_variable(name@, value@),
{
    if text::same(name, "GIT_DIR") || text::same(name, "GIT_COMMON_DIR") || text::same(
        name,
        "GIT_WORK_TREE",
    ) || text::same(name, "GIT_CONFIG") || text::same(name, "GIT_OBJECT_DIRECTORY") || text::same(
        name,
        "GIT_NAMESPACE",
    ) {
        false
    } else if text::same(name, "GIT_EXEC_PATH") || text::same(name, "HOME") {
        text::begins(value, "/")
    } else if text::same(name, "GIT_SSH_COMMAND") {
        is_fixed_script(value)
    } else if text::same(name, "GIT_SSH") || text::same(name, "GIT_PROXY_COMMAND") {
        is_fixed_command(value)
    } else if text::same(name, "PATH") {
        is_fixed_path_list(value)
    } else {
        true
    }
}

fn entries_fixed(entries: &[String]) -> (r: bool)
    ensures
        r == forall|i: int|
            0 <= i < models(entries@).len() ==> fixed_entry(#[trigger] models(entries@)[i]),
{
    let ghost all = models(entries@);
    let mut i: usize = 0;
    while i < entries.len()
        invariant
            i <= entries@.len(),
            all == models(entries@),
            forall|j: int| 0 <= j < i ==> fixed_entry(#[trigger] all[j]),
        decreases entries@.len() - i,
    {
        if !is_fixed_entry(&entries[i]) {
            assert(!fixed_entry(all[i as int]));
            return false;
        }
        assert(fixed_entry(all[i as int]));
        i += 1;
    }
    true
}

fn variables_fixed(env: &[(String, String)]) -> (r: bool)
    ensures
        r == forall|i: int|
            0 <= i < models(env@).len() ==> fixed_variable(
                (#[trigger] models(env@)[i]).0,
                models(env@)[i].1,
            ),
{
    let ghost all = models(env@);
    let mut i: usize = 0;
    while i < env.len()
        invariant
            i <= env@.len(),
            all == models(env@),
            forall|j: int| 0 <= j < i ==> fixed_variable((#[trigger] all[j]).0, all[j].1),
        decreases env@.len() - i,
    {
        assert(all[i as int] == env@[i as int].model());
        if !is_fixed_variable(&env[i].0, &env[i].1) {
            assert(!fixed_variable(all[i as int].0, all[i as int].1));
            return false;
        }
        assert(fixed_variable(all[i as int].0, all[i as int].1));
        i += 1;
    }
    true
}

/// Whether a fetch from one directory does what it would do from another.
pub fn reaches_alike(here: &Reach, there: &Reach, env: &[(String, String)]) -> (r: bool)
    ensures
        r == reach_alike(here.model(), there.model(), models(env@)),
{
    let url: &String = match &here.url {
        Some(url) => url,
        None => return false,
    };
    let same_url: bool = match &there.url {
        Some(other) => text::same(url, other),
        None => false,
    };
    same_url && crate::path::same_words(&here.config, &there.config) && is_fixed_url(url)
        && entries_fixed(&here.config) && variables_fixed(env)
}

pub open spec fn reach_spec(
    rest: Seq<Answer>,
    dir: Option<Seq<char>>,
    remote: Seq<char>,
) -> Progress<ReachModel> {
    match git::remote_url_spec(rest, dir, remote) {
        Progress::Waiting(q) => Progress::Waiting(q),
        Progress::Finished(url, rest) => match git::config_entries_spec(rest, dir) {
            Progress::Waiting(q) => Progress::Waiting(q),
            Progress::Finished(config, rest) => Progress::Finished(
                ReachModel { url, config },
                rest,
            ),
        },
    }
}

fn reach(talk: &mut Talk, dir: Option<&str>, remote: &str) -> (r: Option<Reach>)
    ensures
        heard(r, *final(talk)) == reach_spec(old(talk).rest(), borrowed(dir), remote@),
{
    let url: Option<String> = git::remote_url(talk, dir, remote)?;
    let config: Vec<String> = git::config_entries(talk, dir)?;
    Some(Reach { url, config })
}

pub open spec fn environment_asked(rest: Seq<Answer>) -> Progress<Variables> {
    match asked(rest, Asked::Environment) {
        Progress::Waiting(q) => Progress::Waiting(q),
        Progress::Finished(a, rest) => Progress::Finished(
            match a {
                Answer::Variables(v) => v,
                _ => Seq::empty(),
            },
            rest,
        ),
    }
}

pub fn ask_environment(talk: &mut Talk) -> (r: Option<Vec<(String, String)>>)
    ensures
        heard(r, *final(talk)) == environment_asked(old(talk).rest()),
{
    match talk.ask(Request::Environment)? {
        Reply::Variables(v) => Some(v),
        _ => {
            let none: Vec<(String, String)> = Vec::new();
            assert(models(none@) =~= Seq::empty());
            Some(none)
        },
    }
}

/// What an earlier fetch leaves to be fetched.
#[derive(Clone, Copy, Debug, PartialEq, Eq, Structural)]
pub enum Coverage {
    /// Nothing: it did what this fetch would do.
    Spared,
    /// What this fetch would do by itself.
    Own,
    /// That, and every submodule: the earlier fetch has moved the shared refs,
    /// so that nothing new is left for this one to go into submodules for.
    Deep,
}

impl Modelled for Coverage {
    type Model = Coverage;

    open spec fn model(&self) -> Coverage {
        *self
    }
}

/// Whether a fetch from `dir` would do what the earlier one did from here.
pub open spec fn alike_spec(rest: Seq<Answer>, dir: Seq<char>, remote: Seq<char>) -> Progress<
    Coverage,
> {
    match reach_spec(rest, None, remote) {
        Progress::Waiting(q) => Progress::Waiting(q),
        Progress::Finished(here, rest) => match reach_spec(rest, Some(dir), remote) {
            Progress::Waiting(q) => Progress::Waiting(q),
            Progress::Finished(there, rest) => match environment_asked(rest) {
                Progress::Waiting(q) => Progress::Waiting(q),
                Progress::Finished(env, rest) => Progress::Finished(
                    if reach_alike(here, there, env) {
                        Coverage::Spared
                    } else {
                        Coverage::Own
                    },
                    rest,
                ),
            },
        },
    }
}

/// What an earlier fetch leaves to be fetched. Where it ran, the remote's name
/// settles it: one that failed there a moment ago would fail again. From
/// another directory it has to have succeeded, and to reach there what it
/// would from here. A worktree there that declares submodules by now fetches
/// in any case, and into all of them.
pub open spec fn covered_spec(
    rest: Seq<Answer>,
    dir: Option<Seq<char>>,
    remote: Seq<char>,
    fetched: Option<FetchedRemote<Seq<char>>>,
) -> Progress<Coverage> {
    match (fetched, dir) {
        (None, _) => Progress::Finished(Coverage::Own, rest),
        (Some(f), None) => Progress::Finished(
            if f.remote == remote {
                Coverage::Spared
            } else {
                Coverage::Own
            },
            rest,
        ),
        (Some(f), Some(path)) => match declares_submodules_spec(rest, path) {
            Progress::Waiting(q) => Progress::Waiting(q),
            Progress::Finished(true, rest) => Progress::Finished(Coverage::Deep, rest),
            Progress::Finished(false, rest) => if f.remote != remote || f.outcome
                != FetchOutcome::<Seq<char>>::Fetched {
                Progress::Finished(Coverage::Own, rest)
            } else {
                alike_spec(rest, path, remote)
            },
        },
    }
}

fn covered(talk: &mut Talk, dir: Option<&str>, remote: &str, fetched: Option<&FetchedRemote>) -> (r:
    Option<Coverage>)
    ensures
        heard(r, *final(talk)) == covered_spec(
            old(talk).rest(),
            borrowed(dir),
            remote@,
            fetched_model(fetched),
        ),
{
    let fetched: &FetchedRemote = match fetched {
        Some(fetched) => fetched,
        None => return Some(Coverage::Own),
    };
    let path: &str = match dir {
        Some(path) => path,
        None => {
            return Some(
                if fetched.covers(remote) {
                    Coverage::Spared
                } else {
                    Coverage::Own
                },
            );
        },
    };
    if git::declares_submodules(talk, path)? {
        return Some(Coverage::Deep);
    }
    let succeeded: bool = match &fetched.outcome {
        FetchOutcome::Fetched => true,
        FetchOutcome::Failed(_) => false,
    };
    if !fetched.covers(remote) || !succeeded {
        return Some(Coverage::Own);
    }
    let here: Reach = reach(talk, None, remote)?;
    let there: Reach = reach(talk, dir, remote)?;
    let env: Vec<(String, String)> = ask_environment(talk)?;
    if reaches_alike(&here, &there, &env) {
        Some(Coverage::Spared)
    } else {
        Some(Coverage::Own)
    }
}

/// A fetch that has run, to be reported.
pub open spec fn ran(fetch: Progress<FetchOutcome<Seq<char>>>) -> Progress<
    Option<FetchOutcome<Seq<char>>>,
> {
    match fetch {
        Progress::Waiting(q) => Progress::Waiting(q),
        Progress::Finished(outcome, rest) => Progress::Finished(Some(outcome), rest),
    }
}

/// Fetches `remote` unless an earlier fetch covers it. None is then that there
/// is nothing to report, as distinct from a fetch that ran and succeeded.
pub open spec fn fetch_unless_covered_spec(
    rest: Seq<Answer>,
    dir: Option<Seq<char>>,
    remote: Seq<char>,
    fetched: Option<FetchedRemote<Seq<char>>>,
) -> Progress<Option<FetchOutcome<Seq<char>>>> {
    match covered_spec(rest, dir, remote, fetched) {
        Progress::Waiting(q) => Progress::Waiting(q),
        Progress::Finished(Coverage::Spared, rest) => Progress::Finished(None, rest),
        Progress::Finished(Coverage::Own, rest) => ran(git::fetch_spec(rest, dir, remote)),
        Progress::Finished(Coverage::Deep, rest) => ran(git::fetch_deep_spec(rest, dir, remote)),
    }
}

pub fn fetch_unless_covered(
    talk: &mut Talk,
    dir: Option<&str>,
    remote: &str,
    fetched: Option<&FetchedRemote>,
) -> (r: Option<Option<FetchOutcome>>)
    ensures
        heard(r, *final(talk)) == fetch_unless_covered_spec(
            old(talk).rest(),
            borrowed(dir),
            remote@,
            fetched_model(fetched),
        ),
{
    let outcome: FetchOutcome = match covered(talk, dir, remote, fetched)? {
        Coverage::Spared => return Some(None),
        Coverage::Own => git::fetch(talk, dir, remote)?,
        Coverage::Deep => git::fetch_deep(talk, dir, remote)?,
    };
    Some(Some(outcome))
}

/// What is left to report of a fetch: nothing of one that did not run, and
/// nothing of one that failed as the fetch before it did, which was reported.
pub open spec fn unreported(
    outcome: Option<FetchOutcome<Seq<char>>>,
    fetched: Option<FetchedRemote<Seq<char>>>,
) -> FetchOutcome<Seq<char>> {
    match outcome {
        None => FetchOutcome::Fetched,
        Some(outcome) => match fetched {
            Some(f) if f.outcome == outcome => FetchOutcome::Fetched,
            _ => outcome,
        },
    }
}

/// What is left to report of a fetch.
pub fn left_to_report(outcome: Option<FetchOutcome>, fetched: Option<&FetchedRemote>) -> (r:
    FetchOutcome)
    ensures
        r.model() == unreported(outcome.model(), fetched_model(fetched)),
{
    let detail: String = match outcome {
        Some(FetchOutcome::Failed(detail)) => detail,
        _ => return FetchOutcome::Fetched,
    };
    match fetched {
        Some(fetched) => match &fetched.outcome {
            FetchOutcome::Failed(before) => {
                if text::same(before, &detail) {
                    return FetchOutcome::Fetched;
                }
            },
            FetchOutcome::Fetched => {},
        },
        None => {},
    }
    FetchOutcome::Failed(detail)
}

// ---------------------------------------------------------------------------
// The fetch in the background
// ---------------------------------------------------------------------------

/// A fetch running in the background, or one that could not be started.
#[derive(Debug, PartialEq, Eq)]
pub struct Prefetch<S = String> {
    pub started: bool,
    pub remote: S,
}

impl Modelled for Prefetch {
    type Model = Prefetch<Seq<char>>;

    open spec fn model(&self) -> Prefetch<Seq<char>> {
        Prefetch { started: self.started, remote: self.remote@ }
    }
}

pub open spec fn start_spec(rest: Seq<Answer>, remote: Seq<char>) -> Progress<Prefetch<Seq<char>>> {
    match flag_asked(
        rest,
        Asked::Background { args: git::fetch_args_spec(remote), env: git::unattended() },
    ) {
        Progress::Waiting(q) => Progress::Waiting(q),
        Progress::Finished(started, rest) => Progress::Finished(Prefetch { started, remote }, rest),
    }
}

pub open spec fn fetching(remote: Seq<char>) -> Seq<char> {
    "Fetching "@ + remote + "…"@
}

fn fetching_line(remote: &str) -> (r: String)
    ensures
        r@ == fetching(remote@),
{
    text::joined3("Fetching ", remote, "…")
}

/// Whether the background fetch succeeded, once it has been waited for.
pub open spec fn wait_for_spec(rest: Seq<Answer>, remote: Seq<char>) -> Progress<bool> {
    match run_asked(rest, Asked::Await(fetching(remote))) {
        Progress::Waiting(q) => Progress::Waiting(q),
        Progress::Finished(ran, rest) => Progress::Finished(
            ran matches Ok(output) && output.succeeded(),
            rest,
        ),
    }
}

fn wait_for(talk: &mut Talk, remote: &str) -> (r: Option<bool>)
    ensures
        heard(r, *final(talk)) == wait_for_spec(old(talk).rest(), remote@),
{
    match ask_run(talk, Request::Await(fetching_line(remote)))? {
        Ok(output) => Some(output.success()),
        Err(_) => Some(false),
    }
}

/// A fetch that the user waits for, and can be asked in.
pub open spec fn fetch_in_foreground_spec(rest: Seq<Answer>, remote: Seq<char>) -> Progress<
    FetchOutcome<Seq<char>>,
> {
    match done_asked(rest, Asked::Spin(fetching(remote))) {
        Progress::Waiting(q) => Progress::Waiting(q),
        Progress::Finished(_, rest) => match git::fetch_spec(rest, None, remote) {
            Progress::Waiting(q) => Progress::Waiting(q),
            Progress::Finished(outcome, rest) => match done_asked(rest, Asked::Still) {
                Progress::Waiting(q) => Progress::Waiting(q),
                Progress::Finished(_, rest) => Progress::Finished(outcome, rest),
            },
        },
    }
}

pub fn fetch_in_foreground(talk: &mut Talk, remote: &str) -> (r: Option<FetchOutcome>)
    ensures
        heard(r, *final(talk)) == fetch_in_foreground_spec(old(talk).rest(), remote@),
{
    ask_done(talk, Request::Spin(fetching_line(remote)))?;
    let outcome: FetchOutcome = git::fetch(talk, None, remote)?;
    ask_done(talk, Request::Still)?;
    Some(outcome)
}

/// What the fetch came to, in the end: one that failed in the background is
/// tried again in the foreground, where a passphrase can be asked for.
pub open spec fn settled_spec(rest: Seq<Answer>, prefetch: Prefetch<Seq<char>>) -> Progress<
    FetchOutcome<Seq<char>>,
> {
    if prefetch.started {
        match wait_for_spec(rest, prefetch.remote) {
            Progress::Waiting(q) => Progress::Waiting(q),
            Progress::Finished(true, rest) => Progress::Finished(FetchOutcome::Fetched, rest),
            Progress::Finished(false, rest) => fetch_in_foreground_spec(rest, prefetch.remote),
        }
    } else {
        fetch_in_foreground_spec(rest, prefetch.remote)
    }
}

pub open spec fn join_spec(rest: Seq<Answer>, prefetch: Prefetch<Seq<char>>) -> Progress<
    FetchedRemote<Seq<char>>,
> {
    match settled_spec(rest, prefetch) {
        Progress::Waiting(q) => Progress::Waiting(q),
        Progress::Finished(outcome, rest) => match report_fetch_failure_spec(rest, outcome) {
            Progress::Waiting(q) => Progress::Waiting(q),
            Progress::Finished(_, rest) => Progress::Finished(
                FetchedRemote { remote: prefetch.remote, outcome },
                rest,
            ),
        },
    }
}

impl Prefetch {
    /// Starts the fetch. One that cannot be started is no reason to stop: it
    /// is then fetched in the foreground.
    pub fn start(talk: &mut Talk, remote: &str) -> (r: Option<Prefetch>)
        ensures
            heard(r, *final(talk)) == start_spec(old(talk).rest(), remote@),
    {
        let started: bool = git::fetch_in_background(talk, remote)?;
        Some(Prefetch { started, remote: remote.to_owned() })
    }

    /// Waits for the fetch. Only its final outcome is reported.
    pub fn join(self, talk: &mut Talk) -> (r: Option<FetchedRemote>)
        ensures
            heard(r, *final(talk)) == join_spec(old(talk).rest(), self.model()),
    {
        let mut outcome: FetchOutcome = FetchOutcome::Fetched;
        let mut settled: bool = false;
        if self.started {
            settled = wait_for(talk, &self.remote)?;
        }
        if !settled {
            outcome = fetch_in_foreground(talk, &self.remote)?;
        }
        report_fetch_failure(talk, &outcome)?;
        Some(FetchedRemote { remote: self.remote, outcome })
    }
}

/// From another directory without submodules, an earlier fetch that failed or
/// was of another remote spares nothing; from where it ran, one of the same
/// remote spares the next in any case.
pub proof fn failed_fetch_covers_only_where_it_ran(
    rest: Seq<Answer>,
    dir: Seq<char>,
    remote: Seq<char>,
    fetched: FetchedRemote<Seq<char>>,
)
    ensures
        fetched.outcome != FetchOutcome::<Seq<char>>::Fetched || fetched.remote != remote ==> (
        declares_submodules_spec(rest, dir) matches Progress::Finished(false, left)
            ==> fetch_unless_covered_spec(rest, Some(dir), remote, Some(fetched))
            == fetch_unless_covered_spec(left, Some(dir), remote, None)),
        fetched.remote == remote ==> fetch_unless_covered_spec(rest, None, remote, Some(fetched))
            == Progress::<Option<FetchOutcome<Seq<char>>>>::Finished(None, rest),
{
}

/// No earlier fetch spares a worktree elsewhere that has come to declare
/// submodules: it runs its own fetch, into all of them.
pub proof fn submodules_gained_meanwhile_are_fetched(
    rest: Seq<Answer>,
    dir: Seq<char>,
    remote: Seq<char>,
    fetched: FetchedRemote<Seq<char>>,
    left: Seq<Answer>,
)
    requires
        declares_submodules_spec(rest, dir) == Progress::Finished(true, left),
    ensures
        fetch_unless_covered_spec(rest, Some(dir), remote, Some(fetched)) == ran(
            git::fetch_deep_spec(left, Some(dir), remote),
        ),
{
}

} // verus!
