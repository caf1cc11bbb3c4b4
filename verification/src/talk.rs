//! How the library is run.
//!
//! Nothing here starts a process, reads a file or draws on a terminal. A
//! function that needs the world to act or to answer takes a [`Talk`], which
//! holds the replies received so far. It reads them in order; at the first
//! question without a reply it returns `None`, with the question left in the
//! talk. Whoever runs it carries the request out, adds the reply, and calls the
//! function again with a talk that holds one reply more.
//!
//! So each such function is a function of the replies alone, and its contract
//! says, for every row of replies, which request comes next or what it ends in.
use vstd::prelude::*;
use vstd::string::*;

use crate::app::signs::Sign;
use crate::error::{AppResult, IoError, Meant};
use crate::grammar::Words;
use crate::model::{models, Modelled};
use crate::text;

verus! {

/// What a process printed, and how it ended; no code where a signal ended it.
#[derive(Debug, PartialEq, Eq)]
pub struct Output<S = String> {
    pub code: Option<i32>,
    pub stdout: S,
    pub stderr: S,
}

impl Modelled for Output {
    type Model = Output<Seq<char>>;

    open spec fn model(&self) -> Output<Seq<char>> {
        Output { code: self.code, stdout: self.stdout@, stderr: self.stderr@ }
    }
}

impl Clone for Output {
    fn clone(&self) -> (r: Self)
        ensures
            r.model() == self.model(),
    {
        Output { code: self.code, stdout: self.stdout.clone(), stderr: self.stderr.clone() }
    }
}

impl Output<Seq<char>> {
    pub open spec fn succeeded(self) -> bool {
        self.code == Some(0i32)
    }
}

impl Output {
    pub fn success(&self) -> (r: bool)
        ensures
            r == self.model().succeeded(),
    {
        match self.code {
            Some(code) => code == 0,
            None => false,
        }
    }
}

/// The bytes that a process printed, and how it ended.
#[derive(Debug, PartialEq, Eq)]
pub struct RawOutput<B = Vec<u8>> {
    pub code: Option<i32>,
    pub stdout: B,
}

impl Modelled for RawOutput {
    type Model = RawOutput<Seq<u8>>;

    open spec fn model(&self) -> RawOutput<Seq<u8>> {
        RawOutput { code: self.code, stdout: self.stdout@ }
    }
}

impl Clone for RawOutput {
    fn clone(&self) -> (r: Self)
        ensures
            r.model() == self.model(),
    {
        let mut stdout: Vec<u8> = Vec::new();
        stdout.extend_from_slice(self.stdout.as_slice());
        assert(stdout@ =~= self.stdout@);
        RawOutput { code: self.code, stdout }
    }
}

/// A key pressed at a prompt.
#[derive(Clone, Copy, Debug, PartialEq, Eq, Structural)]
pub enum Key {
    Char(char),
    Enter,
    Escape,
    Other,
}

impl Modelled for Key {
    type Model = Key;

    open spec fn model(&self) -> Key {
        *self
    }
}

/// The sign in front of a line.
#[derive(Clone, Copy, Debug, PartialEq, Eq, Structural)]
pub enum Mark {
    Plain,
    Warning,
    Arrow,
    Check,
}

/// Whether a path is there.
#[derive(Clone, Copy, Debug, PartialEq, Eq, Structural)]
pub enum Presence {
    Present,
    Absent,
    Unreadable,
}

impl Modelled for Presence {
    type Model = Presence;

    open spec fn model(&self) -> Presence {
        *self
    }
}

/// What a row picked from the branch list, or typed into its filter, names.
#[derive(Debug, PartialEq, Eq)]
pub enum Picked<S = String> {
    Create(S),
    Existing(S),
}

impl Modelled for Picked {
    type Model = Picked<Seq<char>>;

    open spec fn model(&self) -> Picked<Seq<char>> {
        match self {
            Picked::Create(name) => Picked::Create(name@),
            Picked::Existing(name) => Picked::Existing(name@),
        }
    }
}

impl Clone for Picked {
    fn clone(&self) -> (r: Self)
        ensures
            r.model() == self.model(),
    {
        match self {
            Picked::Create(name) => Picked::Create(name.clone()),
            Picked::Existing(name) => Picked::Existing(name.clone()),
        }
    }
}

/// A row of a list: a name, what there is to know about it, whether it can be
/// selected, and whether it starts out marked.
#[derive(Debug, PartialEq, Eq)]
pub struct Row<S = String> {
    pub name: S,
    pub detail: S,
    pub selectable: bool,
    pub ticked: bool,
}

impl Modelled for Row {
    type Model = Row<Seq<char>>;

    open spec fn model(&self) -> Row<Seq<char>> {
        Row {
            name: self.name@,
            detail: self.detail@,
            selectable: self.selectable,
            ticked: self.ticked,
        }
    }
}

/// What the library asks of the world.
#[derive(Debug, PartialEq, Eq)]
pub enum Request {
    /// Run git, in a directory of its own if one is given, with `input` on its
    /// standard input. Where it is shown, its output goes to the terminal.
    Git { dir: Option<String>, args: Vec<String>, input: Option<String>, shown: bool },
    /// Run git and read its output as bytes.
    GitBytes { dir: Option<String>, args: Vec<String> },
    /// Look for `.git` below an entry of a directory.
    Probe { below: String, entry: Vec<u8> },
    Exists(String),
    /// Whether there is a terminal to ask on.
    Interactive,
    /// Whether standard output is a terminal.
    StdoutIsTerminal,
    ReadKey,
    /// Write a line for the user.
    Tell { mark: Mark, text: String },
    /// Write a question for the user, with the keys that answer it.
    Prompt { question: String, hint: String },
    /// Write to standard output, as it is.
    Print(String),
    /// Show that something is under way, until `Still`.
    Spin(String),
    Still,
    /// The user's home directory.
    Home,
    /// The current directory, resolved.
    CurrentDirectory,
    /// The record that this process was started to reclaim, if any.
    WorkerRecord,
    /// The version of this program.
    Version,
    /// The time and this process's number.
    Stamp,
    MakeDirectories(String),
    Rename { from: String, to: String },
    /// Wait for and take the lock of a file, until `Unlock`.
    Lock(String),
    Unlock,
    /// Open a directory, to claim it.
    Open(String),
    /// Claim the directory opened last, without waiting.
    TryLock(String),
    RemoveTree(String),
    SpawnWorker(String),
    /// Start git with these variables set and no terminal, and do not wait for
    /// it; it ends with this run at the latest.
    Background { args: Vec<String>, env: Vec<(String, String)> },
    /// Wait for what was started, under a message where it still runs.
    Await(String),
    /// The variables of the environment.
    Environment,
    /// Run a shell command in a directory, with these variables set. What it
    /// prints goes to standard error.
    Shell { dir: String, command: String, env: Vec<(String, String)> },
    /// Render the signs of a worktree for a terminal, one after the other.
    Status(Vec<Sign>),
    /// Let the user pick a branch, or type the name of one to create.
    PickBranch { prompt: String, local: Vec<Row>, remote_only: Vec<Row>, allow_create: bool },
    /// Let the user tick some rows. Those that cannot be selected are shown
    /// all the same.
    PickRows { prompt: String, legend: Vec<String>, rows: Vec<Row> },
    /// Make a directory the current one.
    Enter(String),
}

/// What a [`Request`] means.
pub enum Asked {
    Git { dir: Option<Seq<char>>, args: Words, input: Option<Seq<char>>, shown: bool },
    GitBytes { dir: Option<Seq<char>>, args: Words },
    Probe { below: Seq<char>, entry: Seq<u8> },
    Exists(Seq<char>),
    Interactive,
    StdoutIsTerminal,
    ReadKey,
    Tell { mark: Mark, text: Seq<char> },
    Prompt { question: Seq<char>, hint: Seq<char> },
    Print(Seq<char>),
    Spin(Seq<char>),
    Still,
    Home,
    CurrentDirectory,
    WorkerRecord,
    Version,
    Stamp,
    MakeDirectories(Seq<char>),
    Rename { from: Seq<char>, to: Seq<char> },
    Lock(Seq<char>),
    Unlock,
    Open(Seq<char>),
    TryLock(Seq<char>),
    RemoveTree(Seq<char>),
    SpawnWorker(Seq<char>),
    Background { args: Words, env: Seq<(Seq<char>, Seq<char>)> },
    Await(Seq<char>),
    Environment,
    Shell { dir: Seq<char>, command: Seq<char>, env: Seq<(Seq<char>, Seq<char>)> },
    Status(Seq<Sign>),
    PickBranch {
        prompt: Seq<char>,
        local: Seq<Row<Seq<char>>>,
        remote_only: Seq<Row<Seq<char>>>,
        allow_create: bool,
    },
    PickRows { prompt: Seq<char>, legend: Words, rows: Seq<Row<Seq<char>>> },
    Enter(Seq<char>),
}

impl Modelled for Request {
    type Model = Asked;

    open spec fn model(&self) -> Asked {
        match self {
            Request::Git { dir, args, input, shown } => Asked::Git {
                dir: dir.model(),
                args: args.model(),
                input: input.model(),
                shown: *shown,
            },
            Request::GitBytes { dir, args } => Asked::GitBytes {
                dir: dir.model(),
                args: args.model(),
            },
            Request::Probe { below, entry } => Asked::Probe { below: below@, entry: entry@ },
            Request::Exists(path) => Asked::Exists(path@),
            Request::Interactive => Asked::Interactive,
            Request::StdoutIsTerminal => Asked::StdoutIsTerminal,
            Request::ReadKey => Asked::ReadKey,
            Request::Tell { mark, text } => Asked::Tell { mark: *mark, text: text@ },
            Request::Prompt { question, hint } => Asked::Prompt {
                question: question@,
                hint: hint@,
            },
            Request::Print(text) => Asked::Print(text@),
            Request::Spin(text) => Asked::Spin(text@),
            Request::Still => Asked::Still,
            Request::Home => Asked::Home,
            Request::CurrentDirectory => Asked::CurrentDirectory,
            Request::WorkerRecord => Asked::WorkerRecord,
            Request::Version => Asked::Version,
            Request::Stamp => Asked::Stamp,
            Request::MakeDirectories(path) => Asked::MakeDirectories(path@),
            Request::Rename { from, to } => Asked::Rename { from: from@, to: to@ },
            Request::Lock(path) => Asked::Lock(path@),
            Request::Unlock => Asked::Unlock,
            Request::Open(path) => Asked::Open(path@),
            Request::TryLock(path) => Asked::TryLock(path@),
            Request::RemoveTree(path) => Asked::RemoveTree(path@),
            Request::SpawnWorker(value) => Asked::SpawnWorker(value@),
            Request::Background { args, env } => Asked::Background {
                args: args.model(),
                env: env.model(),
            },
            Request::Await(message) => Asked::Await(message@),
            Request::Environment => Asked::Environment,
            Request::Shell { dir, command, env } => Asked::Shell {
                dir: dir@,
                command: command@,
                env: env.model(),
            },
            Request::Status(signs) => Asked::Status(signs@),
            Request::PickBranch { prompt, local, remote_only, allow_create } => Asked::PickBranch {
                prompt: prompt@,
                local: local.model(),
                remote_only: remote_only.model(),
                allow_create: *allow_create,
            },
            Request::PickRows { prompt, legend, rows } => Asked::PickRows {
                prompt: prompt@,
                legend: legend.model(),
                rows: rows.model(),
            },
            Request::Enter(path) => Asked::Enter(path@),
        }
    }
}

/// What the world answers.
#[derive(Debug, PartialEq, Eq)]
pub enum Reply {
    /// Done, with nothing to say.
    Done,
    Flag(bool),
    Ran(Result<Output, IoError>),
    RanBytes(Result<RawOutput, IoError>),
    Probed(Presence),
    Pressed(Result<Key, IoError>),
    Text(Option<String>),
    Variables(Vec<(String, String)>),
    Stamp { nonce: u128, process: u32 },
    Tried(Result<(), IoError>),
    Picked(AppResult<Option<Picked>>),
    Ticked(AppResult<Option<Vec<usize>>>),
}

/// What a [`Reply`] means.
pub enum Answer {
    Done,
    Flag(bool),
    Ran(Result<Output<Seq<char>>, IoError<Seq<char>>>),
    RanBytes(Result<RawOutput<Seq<u8>>, IoError<Seq<char>>>),
    Probed(Presence),
    Pressed(Result<Key, IoError<Seq<char>>>),
    Text(Option<Seq<char>>),
    Variables(Seq<(Seq<char>, Seq<char>)>),
    Stamp { nonce: u128, process: u32 },
    Tried(Result<(), IoError<Seq<char>>>),
    Picked(Meant<Option<Picked<Seq<char>>>>),
    Ticked(Meant<Option<Seq<usize>>>),
}

impl Modelled for Reply {
    type Model = Answer;

    open spec fn model(&self) -> Answer {
        match self {
            Reply::Done => Answer::Done,
            Reply::Flag(b) => Answer::Flag(*b),
            Reply::Ran(r) => Answer::Ran(r.model()),
            Reply::RanBytes(r) => Answer::RanBytes(r.model()),
            Reply::Probed(p) => Answer::Probed(*p),
            Reply::Pressed(r) => Answer::Pressed(r.model()),
            Reply::Text(t) => Answer::Text(t.model()),
            Reply::Variables(v) => Answer::Variables(v.model()),
            Reply::Stamp { nonce, process } => Answer::Stamp { nonce: *nonce, process: *process },
            Reply::Tried(r) => Answer::Tried(r.model()),
            Reply::Picked(r) => Answer::Picked(r.model()),
            Reply::Ticked(r) => Answer::Ticked(r.model()),
        }
    }
}

/// The same variables again.
fn copy_variables(variables: &[(String, String)]) -> (r: Vec<(String, String)>)
    ensures
        models(r@) == models(variables@),
{
    let mut r: Vec<(String, String)> = Vec::new();
    let mut i: usize = 0;
    while i < variables.len()
        invariant
            i <= variables@.len(),
            r@.len() == i,
            forall|j: int| 0 <= j < i ==> (#[trigger] r@[j]).model() == variables@[j].model(),
        decreases variables@.len() - i,
    {
        r.push((variables[i].0.clone(), variables[i].1.clone()));
        i += 1;
    }
    assert(models(r@) =~= models(variables@));
    r
}

/// The same rows again.
fn copy_rows(rows: &[usize]) -> (r: Vec<usize>)
    ensures
        r@ == rows@,
{
    let mut r: Vec<usize> = Vec::new();
    let mut i: usize = 0;
    while i < rows.len()
        invariant
            i <= rows@.len(),
            r@ == rows@.take(i as int),
        decreases rows@.len() - i,
    {
        r.push(rows[i]);
        i += 1;
        assert(r@ =~= rows@.take(i as int));
    }
    assert(r@ =~= rows@);
    r
}

impl Clone for Reply {
    fn clone(&self) -> (r: Self)
        ensures
            r.model() == self.model(),
    {
        match self {
            Reply::Done => Reply::Done,
            Reply::Flag(b) => Reply::Flag(*b),
            Reply::Ran(Ok(output)) => Reply::Ran(Ok(output.clone())),
            Reply::Ran(Err(e)) => Reply::Ran(Err(e.clone())),
            Reply::RanBytes(Ok(output)) => Reply::RanBytes(Ok(output.clone())),
            Reply::RanBytes(Err(e)) => Reply::RanBytes(Err(e.clone())),
            Reply::Probed(p) => Reply::Probed(*p),
            Reply::Pressed(Ok(key)) => Reply::Pressed(Ok(*key)),
            Reply::Pressed(Err(e)) => Reply::Pressed(Err(e.clone())),
            Reply::Text(Some(t)) => Reply::Text(Some(t.clone())),
            Reply::Text(None) => Reply::Text(None),
            Reply::Variables(v) => Reply::Variables(copy_variables(v)),
            Reply::Stamp { nonce, process } => Reply::Stamp { nonce: *nonce, process: *process },
            Reply::Tried(Ok(())) => Reply::Tried(Ok(())),
            Reply::Tried(Err(e)) => Reply::Tried(Err(e.clone())),
            Reply::Picked(Ok(Some(p))) => Reply::Picked(Ok(Some(p.clone()))),
            Reply::Picked(Ok(None)) => Reply::Picked(Ok(None)),
            Reply::Picked(Err(e)) => Reply::Picked(Err(e.clone())),
            Reply::Ticked(Ok(Some(rows))) => Reply::Ticked(Ok(Some(copy_rows(rows)))),
            Reply::Ticked(Ok(None)) => Reply::Ticked(Ok(None)),
            Reply::Ticked(Err(e)) => Reply::Ticked(Err(e.clone())),
        }
    }
}

/// How far a row of replies takes a function: to a request that has no reply
/// yet, or to its end, with the replies that are left.
pub enum Progress<T> {
    Waiting(Asked),
    Finished(T, Seq<Answer>),
}

/// The replies received so far, and the request that has none.
#[derive(Debug)]
pub struct Talk {
    /// The replies still to be read, the next one last.
    upcoming: Vec<Reply>,
    pending: Option<Request>,
}

impl Talk {
    /// The replies still to be read, in order.
    pub closed spec fn rest(&self) -> Seq<Answer> {
        models(self.upcoming@).reverse()
    }

    /// The request that found no reply.
    pub closed spec fn waiting(&self) -> Option<Asked> {
        self.pending.model()
    }

    /// A talk in which `replies` have been received.
    pub fn new(replies: Vec<Reply>) -> (r: Talk)
        ensures
            r.rest() == models(replies@),
            r.waiting() is None,
    {
        let mut replies: Vec<Reply> = replies;
        let mut upcoming: Vec<Reply> = Vec::new();
        let ghost all = models(replies@);
        let ghost n = replies@.len();
        while replies.len() > 0
            invariant
                n == all.len(),
                replies@.len() + upcoming@.len() == n,
                models(replies@) == all.take(replies@.len() as int),
                models(upcoming@) == all.reverse().take(upcoming@.len() as int),
            decreases replies@.len(),
        {
            let ghost had = models(replies@);
            match replies.pop() {
                Some(reply) => {
                    assert(reply.model() == had.last());
                    upcoming.push(reply);
                },
                None => {},
            }
            assert(models(replies@) =~= all.take(replies@.len() as int));
            assert(models(upcoming@) =~= all.reverse().take(upcoming@.len() as int));
        }
        assert(models(upcoming@).reverse() =~= all);
        Talk { upcoming, pending: None }
    }

    /// The next reply, or `None` where there is none yet and `request` is what
    /// has to be carried out.
    pub fn ask(&mut self, request: Request) -> (r: Option<Reply>)
        ensures
            heard(r, *final(self)) == asked(old(self).rest(), request.model()),
    {
        match self.upcoming.pop() {
            Some(reply) => {
                assert(self.rest() =~= old(self).rest().drop_first());
                Some(reply)
            },
            None => {
                self.pending = Some(request);
                None
            },
        }
    }

    /// The request to carry out next, once a function has returned `None`.
    pub fn pending(self) -> (r: Option<Request>)
        ensures
            r.model() == self.waiting(),
    {
        self.pending
    }
}

/// What a function's result and its talk amount to.
pub open spec fn heard<T: Modelled>(r: Option<T>, talk: Talk) -> Progress<T::Model> {
    match r {
        None => Progress::Waiting(talk.waiting()->0),
        Some(value) => Progress::Finished(value.model(), talk.rest()),
    }
}

/// One question.
pub open spec fn asked(rest: Seq<Answer>, request: Asked) -> Progress<Answer> {
    if rest.len() == 0 {
        Progress::Waiting(request)
    } else {
        Progress::Finished(rest[0], rest.drop_first())
    }
}

} // verus!
