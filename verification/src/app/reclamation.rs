//! Recovering the space of removed worktrees, durably and in the background.
//!
//! A removed worktree's directory is first moved aside, to a hidden sibling.
//! That is recorded in the repository's configuration before it happens, so
//! that a crash leaves a record of every directory moved. Only a directory
//! whose removal git has confirmed is ever deleted.
use vstd::prelude::*;
use vstd::string::*;
use vstd::utf8::{decode_utf8, encode_utf8, valid_utf8};

use crate::ask::{
    args3, args6, args7, ask_done, ask_flag, ask_git, ask_run, ask_text, ask_try, done_asked,
    flag_asked, git_asked, run_asked, text_asked, try_asked, words3, words6, words7, Ran,
};
use crate::error::{AppResult, Error, IoError, IoKind, Meant};
use crate::git::worktrees::worktree_remove_spec;
use crate::git::{self, WorktreeRemoveOutcome};
use crate::grammar::Words;
use crate::model::{models, Modelled};
use crate::path;
use crate::rows::{self, keep_map};
use crate::talk::{asked, heard, Answer, Asked, Output, Progress, Reply, Request, Talk};
use crate::text;

verus! {

pub const CONFIG_KEY: &'static str = "perch.reclamation.worktree";

pub const LOCK_FILE: &'static str = "perch-reclamation.lock";

pub const TRASH_PREFIX: &'static str = ".perch-trash.";

// ---------------------------------------------------------------------------
// Hexadecimal text
// ---------------------------------------------------------------------------

/// The digit for a number below sixteen.
pub open spec fn hex_digit(n: int) -> char {
    if n < 10 {
        text::digit(n)
    } else if n == 10 {
        'a'
    } else if n == 11 {
        'b'
    } else if n == 12 {
        'c'
    } else if n == 13 {
        'd'
    } else if n == 14 {
        'e'
    } else {
        'f'
    }
}

/// The number that a digit stands for, in either case.
pub open spec fn hex_value(c: char) -> Option<int> {
    if '0' <= c <= '9' {
        Some(c as int - '0' as int)
    } else if 'a' <= c <= 'f' {
        Some(c as int - 'a' as int + 10)
    } else if 'A' <= c <= 'F' {
        Some(c as int - 'A' as int + 10)
    } else {
        None
    }
}

/// Two digits for each byte.
pub open spec fn hex(bytes: Seq<u8>) -> Seq<char> {
    Seq::new(
        2 * bytes.len(),
        |i: int|
            hex_digit(
                if i % 2 == 0 {
                    bytes[i / 2] as int / 16
                } else {
                    bytes[i / 2] as int % 16
                },
            ),
    )
}

/// The bytes that pairs of digits stand for, where there is nothing else.
pub open spec fn unhex(s: Seq<char>) -> Option<Seq<u8>> {
    if s.len() % 2 == 0 && forall|i: int| 0 <= i < s.len() ==> hex_value(#[trigger] s[i]) is Some {
        Some(
            Seq::new(
                s.len() / 2,
                |i: int| (16 * hex_value(s[2 * i])->0 + hex_value(s[2 * i + 1])->0) as u8,
            ),
        )
    } else {
        None
    }
}

proof fn lemma_hex_digit(n: int)
    requires
        0 <= n < 16,
    ensures
        hex_value(hex_digit(n)) == Some(n),
        hex_digit(n) != ':',
{
}

/// What is written in hexadecimal reads back as it was.
pub proof fn hex_reads_back(bytes: Seq<u8>)
    ensures
        unhex(hex(bytes)) == Some(bytes),
{
    let s = hex(bytes);
    assert forall|i: int| 0 <= i < s.len() implies hex_value(#[trigger] s[i]) is Some by {
        lemma_hex_digit(bytes[i / 2] as int / 16);
        lemma_hex_digit(bytes[i / 2] as int % 16);
    }
    let back = unhex(s)->0;
    assert forall|i: int| 0 <= i < bytes.len() implies back[i] == bytes[i] by {
        let b = bytes[i] as int;
        lemma_hex_digit(b / 16);
        lemma_hex_digit(b % 16);
        assert((2 * i) / 2 == i && (2 * i) % 2 == 0);
        assert((2 * i + 1) / 2 == i && (2 * i + 1) % 2 == 1);
        assert(s[2 * i] == hex_digit(b / 16));
        assert(s[2 * i + 1] == hex_digit(b % 16));
    }
    assert(back =~= bytes);
}

fn hex_char(n: u8) -> (r: char)
    requires
        n < 16,
    ensures
        r == hex_digit(n as int),
{
    if n == 0 {
        '0'
    } else if n == 1 {
        '1'
    } else if n == 2 {
        '2'
    } else if n == 3 {
        '3'
    } else if n == 4 {
        '4'
    } else if n == 5 {
        '5'
    } else if n == 6 {
        '6'
    } else if n == 7 {
        '7'
    } else if n == 8 {
        '8'
    } else if n == 9 {
        '9'
    } else if n == 10 {
        'a'
    } else if n == 11 {
        'b'
    } else if n == 12 {
        'c'
    } else if n == 13 {
        'd'
    } else if n == 14 {
        'e'
    } else {
        'f'
    }
}

fn hex_number(c: char) -> (r: Option<u8>)
    ensures
        hex_value(c) == (match r {
            Some(n) => Some(n as int),
            None => None,
        }),
        r matches Some(n) ==> n < 16,
{
    if '0' <= c && c <= '9' {
        Some((c as u32 - '0' as u32) as u8)
    } else if 'a' <= c && c <= 'f' {
        Some((c as u32 - 'a' as u32 + 10) as u8)
    } else if 'A' <= c && c <= 'F' {
        Some((c as u32 - 'A' as u32 + 10) as u8)
    } else {
        None
    }
}

pub fn encode_hex(bytes: &[u8]) -> (r: String)
    ensures
        r@ == hex(bytes@),
{
    let mut r: String = String::new();
    let mut i: usize = 0;
    assert(r@ =~= hex(bytes@.take(0)));
    while i < bytes.len()
        invariant
            i <= bytes@.len(),
            r@ == hex(bytes@.take(i as int)),
        decreases bytes@.len() - i,
    {
        let b: u8 = bytes[i];
        let ghost had = r@;
        r.push(hex_char(b / 16));
        r.push(hex_char(b % 16));
        proof {
            let after = hex(bytes@.take(i + 1));
            assert forall|j: int| 0 <= j < after.len() implies r@[j] == after[j] by {
                if j < 2 * i {
                    assert(had[j] == after[j]);
                } else if j == 2 * i {
                    assert(j / 2 == i && j % 2 == 0);
                } else {
                    assert(j == 2 * i + 1);
                    assert(j / 2 == i && j % 2 == 1);
                }
            }
            assert(r@ =~= after);
        }
        i += 1;
    }
    assert(bytes@.take(i as int) =~= bytes@);
    r
}

pub fn decode_hex(encoded: &str) -> (r: Option<Vec<u8>>)
    ensures
        unhex(encoded@) == (match r {
            Some(bytes) => Some(bytes@),
            None => None,
        }),
{
    let cs: Vec<char> = text::chars_of(encoded);
    if cs.len() % 2 != 0 {
        return None;
    }
    let mut r: Vec<u8> = Vec::new();
    let mut i: usize = 0;
    while i < cs.len()
        invariant
            cs@ == encoded@,
            cs@.len() % 2 == 0,
            i <= cs@.len(),
            i % 2 == 0,
            r@.len() == i / 2,
            forall|j: int| 0 <= j < i ==> hex_value(#[trigger] cs@[j]) is Some,
            forall|j: int|
                0 <= j < r@.len() ==> #[trigger] r@[j] == (16 * hex_value(cs@[2 * j])->0
                    + hex_value(cs@[2 * j + 1])->0) as u8,
        decreases cs@.len() - i,
    {
        let high: u8 = match hex_number(cs[i]) {
            Some(n) => n,
            None => {
                assert(hex_value(encoded@[i as int]) is None);
                return None;
            },
        };
        let low: u8 = match hex_number(cs[i + 1]) {
            Some(n) => n,
            None => {
                assert(hex_value(encoded@[i + 1]) is None);
                return None;
            },
        };
        r.push(high * 16 + low);
        i += 2;
    }
    assert(r@ =~= unhex(encoded@)->0);
    Some(r)
}

/// `String::from_utf8`: the text that the bytes encode, where they are valid
/// UTF-8, and nothing otherwise.
#[verifier::external_body]
fn text_of_bytes(bytes: Vec<u8>) -> (r: Option<String>)
    ensures
        r.model() == (if valid_utf8(bytes@) {
            Some(decode_utf8(bytes@))
        } else {
            None
        }),
{
    String::from_utf8(bytes).ok()
}

// ---------------------------------------------------------------------------
// Records
// ---------------------------------------------------------------------------

#[derive(Clone, Copy, Debug, PartialEq, Eq, Structural)]
pub enum State {
    /// Moved aside, with its registration perhaps still there.
    Staged,
    /// Safe to delete.
    Ready,
}

/// A directory that was moved aside.
#[derive(Debug, PartialEq, Eq)]
pub struct Record<S = String> {
    pub state: State,
    pub original: S,
    pub trash: S,
}

impl Modelled for Record {
    type Model = Record<Seq<char>>;

    open spec fn model(&self) -> Record<Seq<char>> {
        Record { state: self.state, original: self.original@, trash: self.trash@ }
    }
}

impl Clone for Record {
    fn clone(&self) -> (r: Self)
        ensures
            r.model() == self.model(),
    {
        Record {
            state: self.state,
            original: self.original.clone(),
            trash: self.trash.clone(),
        }
    }
}

/// Whether two optional parents are the same.
pub open spec fn same_parent(a: Seq<char>, b: Seq<char>) -> bool {
    match (path::parent(a), path::parent(b)) {
        (Some(x), Some(y)) => path::same_path(x, y),
        (None, None) => true,
        _ => false,
    }
}

/// Whether a record's paths may be acted on: both are absolute, they are
/// siblings, and the one to be deleted has a name of the hidden kind.
pub open spec fn acceptable(original: Seq<char>, trash: Seq<char>) -> bool {
    &&& path::is_absolute(original)
    &&& path::is_absolute(trash)
    &&& same_parent(original, trash)
    &&& path::file_name(trash) matches Some(name) && text::starts_with(name, TRASH_PREFIX@)
        && name.len() > TRASH_PREFIX@.len()
}

pub fn valid_record_paths(original: &str, trash: &str) -> (r: bool)
    ensures
        r == acceptable(original@, trash@),
{
    if !path::absolute(original) || !path::absolute(trash) {
        return false;
    }
    let siblings: bool = match (path::parent_of(original), path::parent_of(trash)) {
        (Some(x), Some(y)) => path::same(&x, &y),
        (None, None) => true,
        _ => false,
    };
    if !siblings {
        return false;
    }
    match path::file_name_of(trash) {
        None => false,
        Some(name) => {
            let cs: Vec<char> = text::chars_of(&name);
            let ps: Vec<char> = text::chars_of(TRASH_PREFIX);
            text::begins(&name, TRASH_PREFIX) && cs.len() > ps.len()
        },
    }
}

pub open spec fn state_word(state: State) -> Seq<char> {
    match state {
        State::Staged => "staged"@,
        State::Ready => "ready"@,
    }
}

/// A record as one value of the configuration. The paths stand in it in
/// hexadecimal, so that nothing in them is syntax.
pub open spec fn encoded(record: Record<Seq<char>>) -> Seq<char> {
    state_word(record.state) + ":"@ + hex(encode_utf8(record.original)) + ":"@ + hex(
        encode_utf8(record.trash),
    )
}

/// The path that a field holds.
pub open spec fn path_field(field: Seq<char>) -> Option<Seq<char>> {
    match unhex(field) {
        Some(bytes) => if valid_utf8(bytes) {
            Some(decode_utf8(bytes))
        } else {
            None
        },
        None => None,
    }
}

pub open spec fn state_of(word: Seq<char>) -> Option<State> {
    if word == "staged"@ {
        Some(State::Staged)
    } else if word == "ready"@ {
        Some(State::Ready)
    } else {
        None
    }
}

/// The record that a value holds: three fields, and paths that may be acted
/// on.
pub open spec fn decoded(value: Seq<char>) -> Option<Record<Seq<char>>> {
    let fields = text::split(value, ':');
    if fields.len() != 3 {
        None
    } else {
        match (state_of(fields[0]), path_field(fields[1]), path_field(fields[2])) {
            (Some(state), Some(original), Some(trash)) => if acceptable(original, trash) {
                Some(Record { state, original, trash })
            } else {
                None
            },
            _ => None,
        }
    }
}

/// A record reads back as it was written, whatever its paths hold, if they may
/// be acted on; one whose paths may not does not read back at all.
pub proof fn record_reads_back(record: Record<Seq<char>>)
    ensures
        decoded(encoded(record)) == (if acceptable(record.original, record.trash) {
            Some(record)
        } else {
            None
        }),
{
    let a = state_word(record.state);
    let ob = encode_utf8(record.original);
    let tb = encode_utf8(record.trash);
    let b = hex(ob);
    let c = hex(tb);
    reveal_strlit("staged");
    reveal_strlit("ready");
    reveal_strlit(":");
    assert(!a.contains(':')) by {
        assert forall|i: int| 0 <= i < a.len() implies a[i] != ':' by {}
    }
    lemma_hex_plain(ob);
    lemma_hex_plain(tb);
    text::lemma_split_first(a, ':', b.push(':') + c);
    text::lemma_split_first(b, ':', c);
    text::lemma_split_first(c, ':', c);
    let whole = a.push(':') + (b.push(':') + c);
    assert(encoded(record) =~= whole);
    let fields = text::split(whole, ':');
    assert(fields =~= seq![a, b, c]);
    hex_reads_back(ob);
    hex_reads_back(tb);
    vstd::utf8::encode_utf8_valid_utf8(record.original);
    vstd::utf8::encode_utf8_valid_utf8(record.trash);
    vstd::utf8::encode_utf8_decode_utf8(record.original);
    vstd::utf8::encode_utf8_decode_utf8(record.trash);
    assert("staged"@.len() != "ready"@.len());
}

proof fn lemma_hex_plain(bytes: Seq<u8>)
    ensures
        !hex(bytes).contains(':'),
{
    let s = hex(bytes);
    assert forall|i: int| 0 <= i < s.len() implies s[i] != ':' by {
        lemma_hex_digit(bytes[i / 2] as int / 16);
        lemma_hex_digit(bytes[i / 2] as int % 16);
    }
}

/// What decodes may be acted on: nothing but an absolute hidden sibling is
/// ever read from the configuration.
pub proof fn decoded_record_is_acceptable(value: Seq<char>)
    ensures
        decoded(value) matches Some(record) ==> acceptable(record.original, record.trash),
{
}

fn read_path_field(field: &str) -> (r: Option<String>)
    ensures
        r.model() == path_field(field@),
{
    match decode_hex(field) {
        Some(bytes) => text_of_bytes(bytes),
        None => None,
    }
}

impl Record {
    pub fn staged(original: &str, trash: &str) -> (r: Self)
        ensures
            r.model() == (Record { state: State::Staged, original: original@, trash: trash@ }),
    {
        Record { state: State::Staged, original: original.to_owned(), trash: trash.to_owned() }
    }

    pub fn ready(original: &str, trash: &str) -> (r: Self)
        ensures
            r.model() == (Record { state: State::Ready, original: original@, trash: trash@ }),
    {
        Record { state: State::Ready, original: original.to_owned(), trash: trash.to_owned() }
    }

    /// The record as one value of the configuration.
    pub fn encode(&self) -> (r: AppResult<String>)
        ensures
            r.model() == Ok::<Seq<char>, Error<Seq<char>>>(encoded(self.model())),
    {
        let state: &str = match self.state {
            State::Staged => "staged",
            State::Ready => "ready",
        };
        let mut value: String = text::joined(state, ":");
        value.append(&encode_hex(self.original.as_str().as_bytes()));
        value.append(":");
        value.append(&encode_hex(self.trash.as_str().as_bytes()));
        Ok(value)
    }

    /// The record that a value holds.
    pub fn decode(value: &str) -> (r: Option<Self>)
        ensures
            r.model() == decoded(value@),
    {
        let fields: Vec<String> = text::split_at_each(value, ':');
        let ghost fs = text::split(value@, ':');
        if fields.len() != 3 {
            return None;
        }
        assert(fs[0] == fields@[0].model() && fs[1] == fields@[1].model() && fs[2]
            == fields@[2].model());
        let state: State = if text::same(&fields[0], "staged") {
            State::Staged
        } else if text::same(&fields[0], "ready") {
            State::Ready
        } else {
            return None;
        };
        let original: String = match read_path_field(&fields[1]) {
            Some(path) => path,
            None => return None,
        };
        let trash: String = match read_path_field(&fields[2]) {
            Some(path) => path,
            None => return None,
        };
        if !valid_record_paths(&original, &trash) {
            return None;
        }
        Some(Record { state, original, trash })
    }
}

/// Whether two records are the same directory in the same state.
pub open spec fn same_record(a: Record<Seq<char>>, b: Record<Seq<char>>) -> bool {
    &&& a.state == b.state
    &&& path::same_path(a.original, b.original)
    &&& path::same_path(a.trash, b.trash)
}

fn is_same_record(a: &Record, b: &Record) -> (r: bool)
    ensures
        r == same_record(a.model(), b.model()),
{
    a.state == b.state && path::same(&a.original, &b.original) && path::same(&a.trash, &b.trash)
}

// ---------------------------------------------------------------------------
// Failures
// ---------------------------------------------------------------------------

pub open spec fn no_parent(path: Seq<char>) -> Error<Seq<char>> {
    Error::Reclamation(path + " has no parent directory"@)
}

pub open spec fn non_utf8_spec(path: Seq<char>) -> Error<Seq<char>> {
    Error::Reclamation("non-utf8 worktree path: "@ + path)
}

/// A path whose last piece cannot be named.
pub fn non_utf8(path: &str) -> (r: Error)
    ensures
        r.model() == non_utf8_spec(path@),
{
    Error::Reclamation(text::joined("non-utf8 worktree path: ", path))
}

pub open spec fn reclamation_failure(
    action: Seq<char>,
    recovery: Seq<char>,
    error: IoError<Seq<char>>,
) -> Error<Seq<char>> {
    Error::Reclamation(
        "could not "@ + action + ": "@ + error.message + "; files remain at "@ + recovery,
    )
}

/// A failure of the file system, with where the files are left.
pub fn reclamation_error(action: &str, recovery: &str, error: &IoError) -> (r: Error)
    ensures
        r.model() == reclamation_failure(action@, recovery@, error.model()),
{
    let mut m: String = text::joined3("could not ", action, ": ");
    m.append(&error.message);
    m.append("; files remain at ");
    m.append(recovery);
    Error::Reclamation(m)
}

// ---------------------------------------------------------------------------
// The configuration
// ---------------------------------------------------------------------------

pub open spec fn config_path(ran: Ran) -> Meant<Seq<char>> {
    match git::printed("rev-parse --git-common-dir"@, ran) {
        Ok(output) => Ok(path::join(text::trim(output), "config"@)),
        Err(e) => Err(e),
    }
}

/// The repository's own configuration file.
pub open spec fn repository_config_spec(rest: Seq<Answer>) -> Progress<Meant<Seq<char>>> {
    match git_asked(
        rest,
        None,
        args3("rev-parse"@, "--path-format=absolute"@, "--git-common-dir"@),
    ) {
        Progress::Waiting(q) => Progress::Waiting(q),
        Progress::Finished(ran, rest) => Progress::Finished(config_path(ran), rest),
    }
}

pub fn repository_config(talk: &mut Talk) -> (r: Option<AppResult<String>>)
    ensures
        heard(r, *final(talk)) == repository_config_spec(old(talk).rest()),
{
    let ran: Result<Output, IoError> = ask_git(
        talk,
        None,
        words3("rev-parse", "--path-format=absolute", "--git-common-dir"),
    )?;
    match git::read_output("rev-parse --git-common-dir", ran) {
        Ok(output) => Some(Ok(path::joined(&text::trimmed(&output), "config"))),
        Err(e) => Some(Err(e)),
    }
}

/// The lock beside the configuration, held until it is let go.
pub open spec fn repository_lock_spec(rest: Seq<Answer>, config: Seq<char>) -> Progress<Meant<()>> {
    match path::parent(config) {
        None => Progress::Finished(Err(no_parent(config)), rest),
        Some(dir) => match try_asked(rest, Asked::Lock(path::join(dir, LOCK_FILE@))) {
            Progress::Waiting(q) => Progress::Waiting(q),
            Progress::Finished(Ok(_), rest) => Progress::Finished(Ok(()), rest),
            Progress::Finished(Err(e), rest) => Progress::Finished(Err(Error::Io(e)), rest),
        },
    }
}

pub fn repository_lock(talk: &mut Talk, config: &str) -> (r: Option<AppResult<()>>)
    ensures
        heard(r, *final(talk)) == repository_lock_spec(old(talk).rest(), config@),
{
    let dir: String = match path::parent_of(config) {
        Some(dir) => dir,
        None => {
            return Some(
                Err(Error::Reclamation(text::joined(config, " has no parent directory"))),
            );
        },
    };
    match ask_try(talk, Request::Lock(path::joined(&dir, LOCK_FILE)))? {
        Ok(()) => Some(Ok(())),
        Err(e) => Some(Err(Error::Io(e))),
    }
}

pub open spec fn decodes() -> spec_fn(Seq<char>) -> Option<Record<Seq<char>>> {
    |value: Seq<char>| decoded(value)
}

/// The records that git printed. Git exits with 1 where there are none.
pub open spec fn records_in(ran: Ran) -> Meant<Seq<Record<Seq<char>>>> {
    match ran {
        Err(e) => Err(Error::Io(e)),
        Ok(output) => if output.succeeded() {
            Ok(keep_map(text::split(output.stdout, '\0'), decodes()))
        } else if output.code == Some(1i32) {
            Ok(Seq::empty())
        } else {
            Err(
                Error::Git {
                    command: "config --get-all"@,
                    message: text::trim(output.stderr),
                },
            )
        },
    }
}

pub open spec fn configured_records_spec(rest: Seq<Answer>, config: Seq<char>) -> Progress<
    Meant<Seq<Record<Seq<char>>>>,
> {
    match git_asked(
        rest,
        None,
        args6("config"@, "--file"@, config, "--null"@, "--get-all"@, CONFIG_KEY@),
    ) {
        Progress::Waiting(q) => Progress::Waiting(q),
        Progress::Finished(ran, rest) => Progress::Finished(records_in(ran), rest),
    }
}

fn read_records(output: &str) -> (r: Vec<Record>)
    ensures
        models(r@) == keep_map(text::split(output@, '\0'), decodes()),
{
    let values: Vec<String> = text::split_at_each(output, '\0');
    let ghost all = text::split(output@, '\0');
    let mut r: Vec<Record> = Vec::new();
    let mut i: usize = 0;
    proof {
        rows::lemma_take_all(all);
        assert(models(r@) =~= Seq::empty());
    }
    while i < values.len()
        invariant
            i <= values@.len(),
            all == models(values@),
            models(r@) == keep_map(all.take(i as int), decodes()),
        decreases values@.len() - i,
    {
        broadcast use crate::model::lemma_models_push;

        proof {
            rows::lemma_take_one_more(all, i as int);
        }
        match Record::decode(&values[i]) {
            Some(record) => r.push(record),
            None => {},
        }
        i += 1;
    }
    r
}

pub fn configured_records(talk: &mut Talk, config: &str) -> (r: Option<AppResult<Vec<Record>>>)
    ensures
        heard(r, *final(talk)) == configured_records_spec(old(talk).rest(), config@),
{
    let output: Output = match ask_git(
        talk,
        None,
        words6("config", "--file", config, "--null", "--get-all", CONFIG_KEY),
    )? {
        Ok(output) => output,
        Err(e) => return Some(Err(Error::Io(e))),
    };
    if output.success() {
        return Some(Ok(read_records(&output.stdout)));
    }
    match output.code {
        Some(1) => {
            let none: Vec<Record> = Vec::new();
            assert(models(none@) =~= Seq::empty());
            Some(Ok(none))
        },
        _ => Some(
            Err(
                Error::Git {
                    command: "config --get-all".to_owned(),
                    message: text::trimmed(&output.stderr),
                },
            ),
        ),
    }
}

pub open spec fn record_args(config: Seq<char>, record: Record<Seq<char>>) -> Words {
    args6("config"@, "--file"@, config, "--add"@, CONFIG_KEY@, encoded(record))
}

pub open spec fn record_config_spec(
    rest: Seq<Answer>,
    config: Seq<char>,
    record: Record<Seq<char>>,
) -> Progress<Meant<()>> {
    match git_asked(rest, None, record_args(config, record)) {
        Progress::Waiting(q) => Progress::Waiting(q),
        Progress::Finished(ran, rest) => Progress::Finished(
            match git::printed("config --add"@, ran) {
                Ok(_) => Ok(()),
                Err(e) => Err(e),
            },
            rest,
        ),
    }
}

/// Adds a record.
pub fn record_config(talk: &mut Talk, config: &str, record: &Record) -> (r: Option<AppResult<()>>)
    ensures
        heard(r, *final(talk)) == record_config_spec(
            old(talk).rest(),
            config@,
            record.model(),
        ),
{
    let value: String = match record.encode() {
        Ok(value) => value,
        Err(e) => return Some(Err(e)),
    };
    let ran: Result<Output, IoError> = ask_git(
        talk,
        None,
        words6("config", "--file", config, "--add", CONFIG_KEY, &value),
    )?;
    match git::read_output("config --add", ran) {
        Ok(_) => Some(Ok(())),
        Err(e) => Some(Err(e)),
    }
}

pub open spec fn forget_args(config: Seq<char>, record: Record<Seq<char>>) -> Words {
    args7(
        "config"@,
        "--file"@,
        config,
        "--fixed-value"@,
        "--unset-all"@,
        CONFIG_KEY@,
        encoded(record),
    )
}

/// A record that is gone already is forgotten: git exits with 5 for it.
pub open spec fn forgotten(ran: Ran) -> Meant<()> {
    match ran {
        Err(e) => Err(Error::Io(e)),
        Ok(output) => if output.succeeded() || output.code == Some(5i32) {
            Ok(())
        } else {
            Err(
                Error::Git {
                    command: "config --unset-all"@,
                    message: text::trim(output.stderr),
                },
            )
        },
    }
}

pub open spec fn forget_config_spec(
    rest: Seq<Answer>,
    config: Seq<char>,
    record: Record<Seq<char>>,
) -> Progress<Meant<()>> {
    match git_asked(rest, None, forget_args(config, record)) {
        Progress::Waiting(q) => Progress::Waiting(q),
        Progress::Finished(ran, rest) => Progress::Finished(forgotten(ran), rest),
    }
}

/// Removes a record.
pub fn forget_config(talk: &mut Talk, config: &str, record: &Record) -> (r: Option<AppResult<()>>)
    ensures
        heard(r, *final(talk)) == forget_config_spec(
            old(talk).rest(),
            config@,
            record.model(),
        ),
{
    let value: String = match record.encode() {
        Ok(value) => value,
        Err(e) => return Some(Err(e)),
    };
    let output: Output = match ask_git(
        talk,
        None,
        words7(
            "config",
            "--file",
            config,
            "--fixed-value",
            "--unset-all",
            CONFIG_KEY,
            &value,
        ),
    )? {
        Ok(output) => output,
        Err(e) => return Some(Err(Error::Io(e))),
    };
    if output.success() {
        return Some(Ok(()));
    }
    match output.code {
        Some(5) => Some(Ok(())),
        _ => Some(
            Err(
                Error::Git {
                    command: "config --unset-all".to_owned(),
                    message: text::trimmed(&output.stderr),
                },
            ),
        ),
    }
}

// ---------------------------------------------------------------------------
// Workers
// ---------------------------------------------------------------------------

/// Starts a process that reclaims a record, if its paths may be acted on.
pub open spec fn spawn_worker_spec(rest: Seq<Answer>, record: Record<Seq<char>>) -> Progress<
    Result<(), IoError<Seq<char>>>,
> {
    if acceptable(record.original, record.trash) {
        try_asked(rest, Asked::SpawnWorker(encoded(record)))
    } else {
        Progress::Finished(
            Err(
                IoError {
                    kind: IoKind::Other,
                    message: "refusing reclamation path "@ + record.trash,
                },
            ),
            rest,
        )
    }
}

pub fn spawn_worker(talk: &mut Talk, record: &Record) -> (r: Option<Result<(), IoError>>)
    ensures
        heard(r, *final(talk)) == spawn_worker_spec(old(talk).rest(), record.model()),
{
    if !valid_record_paths(&record.original, &record.trash) {
        return Some(
            Err(
                IoError {
                    kind: IoKind::Other,
                    message: text::joined("refusing reclamation path ", &record.trash),
                },
            ),
        );
    }
    let value: String = match record.encode() {
        Ok(value) => value,
        Err(e) => return Some(Err(IoError { kind: IoKind::Other, message: e.to_string() })),
    };
    ask_try(talk, Request::SpawnWorker(value))
}

/// A worker for each record; one that does not start is passed over.
pub open spec fn spawn_each(rest: Seq<Answer>, records: Seq<Record<Seq<char>>>) -> Progress<()>
    decreases records.len(),
{
    if records.len() == 0 {
        Progress::Finished((), rest)
    } else {
        match spawn_worker_spec(rest, records[0]) {
            Progress::Waiting(q) => Progress::Waiting(q),
            Progress::Finished(_, rest) => spawn_each(rest, records.drop_first()),
        }
    }
}

fn spawn_workers(talk: &mut Talk, records: &[Record]) -> (r: Option<()>)
    ensures
        heard(r, *final(talk)) == spawn_each(old(talk).rest(), models(records@)),
{
    let ghost all = models(records@);
    let mut i: usize = 0;
    proof {
        rows::lemma_take_all(all);
    }
    while i < records.len()
        invariant
            i <= records@.len(),
            all == models(records@),
            spawn_each(old(talk).rest(), all) == spawn_each(talk.rest(), all.skip(i as int)),
        decreases records@.len() - i,
    {
        proof {
            rows::lemma_take_one_more(all, i as int);
        }
        let _spawned: Result<(), IoError> = spawn_worker(talk, &records[i])?;
        i += 1;
    }
    Some(())
}

/// Starts a worker for every record that an earlier removal left. It is a
/// best effort: no lock is waited for, and no failure is told.
pub open spec fn retry_spec(rest: Seq<Answer>) -> Progress<()> {
    match repository_config_spec(rest) {
        Progress::Waiting(q) => Progress::Waiting(q),
        Progress::Finished(Err(_), rest) => Progress::Finished((), rest),
        Progress::Finished(Ok(config), rest) => match configured_records_spec(rest, config) {
            Progress::Waiting(q) => Progress::Waiting(q),
            Progress::Finished(Err(_), rest) => Progress::Finished((), rest),
            Progress::Finished(Ok(records), rest) => spawn_each(rest, records),
        },
    }
}

pub fn retry(talk: &mut Talk) -> (r: Option<()>)
    ensures
        heard(r, *final(talk)) == retry_spec(old(talk).rest()),
{
    let config: String = match repository_config(talk)? {
        Ok(config) => config,
        Err(_) => return Some(()),
    };
    let records: Vec<Record> = match configured_records(talk, &config)? {
        Ok(records) => records,
        Err(_) => return Some(()),
    };
    spawn_workers(talk, &records)
}

// ---------------------------------------------------------------------------
// Moving aside
// ---------------------------------------------------------------------------

/// A worktree that was moved aside, under the lock.
#[derive(Debug, PartialEq, Eq)]
pub struct Staged<S = String> {
    pub config: S,
    pub original: S,
    pub trash: S,
}

impl Modelled for Staged {
    type Model = Staged<Seq<char>>;

    open spec fn model(&self) -> Staged<Seq<char>> {
        Staged { config: self.config@, original: self.original@, trash: self.trash@ }
    }
}

/// The name to move to, on an attempt.
pub open spec fn trash_name(name: Seq<char>, process: u32, nonce: u128, attempt: nat) -> Seq<char> {
    TRASH_PREFIX@ + name + "."@ + text::decimal(process as nat) + "."@ + text::decimal(nonce as nat)
        + "."@ + text::decimal(attempt)
}

/// The first name from `attempt` on that is not taken, of a hundred.
pub open spec fn unused_from(
    rest: Seq<Answer>,
    original: Seq<char>,
    dir: Seq<char>,
    name: Seq<char>,
    process: u32,
    nonce: u128,
    attempt: nat,
) -> Progress<Meant<Seq<char>>>
    decreases 100 - attempt,
{
    if attempt >= 100 {
        Progress::Finished(
            Err(Error::Reclamation("could not choose a trash path beside "@ + original)),
            rest,
        )
    } else {
        let candidate = path::join(dir, trash_name(name, process, nonce, attempt));
        match flag_asked(rest, Asked::Exists(candidate)) {
            Progress::Waiting(q) => Progress::Waiting(q),
            Progress::Finished(false, rest) => Progress::Finished(Ok(candidate), rest),
            Progress::Finished(true, rest) => unused_from(
                rest,
                original,
                dir,
                name,
                process,
                nonce,
                attempt + 1,
            ),
        }
    }
}

pub open spec fn stamp_asked(rest: Seq<Answer>) -> Progress<(u128, u32)> {
    match asked(rest, Asked::Stamp) {
        Progress::Waiting(q) => Progress::Waiting(q),
        Progress::Finished(a, rest) => Progress::Finished(
            match a {
                Answer::Stamp { nonce, process } => (nonce, process),
                _ => (0u128, 0u32),
            },
            rest,
        ),
    }
}

/// A path beside `original` that is not taken.
pub open spec fn unused_trash_path_spec(rest: Seq<Answer>, original: Seq<char>) -> Progress<
    Meant<Seq<char>>,
> {
    match path::parent(original) {
        None => Progress::Finished(Err(no_parent(original)), rest),
        Some(dir) => match path::file_name(original) {
            None => Progress::Finished(Err(non_utf8_spec(original)), rest),
            Some(name) => match stamp_asked(rest) {
                Progress::Waiting(q) => Progress::Waiting(q),
                Progress::Finished((nonce, process), rest) => unused_from(
                    rest,
                    original,
                    dir,
                    name,
                    process,
                    nonce,
                    0,
                ),
            },
        },
    }
}

pub fn unused_trash_path(talk: &mut Talk, original: &str) -> (r: Option<AppResult<String>>)
    ensures
        heard(r, *final(talk)) == unused_trash_path_spec(old(talk).rest(), original@),
{
    let dir: String = match path::parent_of(original) {
        Some(dir) => dir,
        None => {
            return Some(
                Err(Error::Reclamation(text::joined(original, " has no parent directory"))),
            );
        },
    };
    let name: String = match path::file_name_of(original) {
        Some(name) => name,
        None => return Some(Err(non_utf8(original))),
    };
    let (nonce, process): (u128, u32) = match talk.ask(Request::Stamp)? {
        Reply::Stamp { nonce, process } => (nonce, process),
        _ => (0, 0),
    };
    let ghost start = talk.rest();
    let mut attempt: u8 = 0;
    while attempt < 100
        invariant
            attempt <= 100,
            unused_trash_path_spec(old(talk).rest(), original@) == unused_from(
                start,
                original@,
                dir@,
                name@,
                process,
                nonce,
                0,
            ),
            unused_from(start, original@, dir@, name@, process, nonce, 0) == unused_from(
                talk.rest(),
                original@,
                dir@,
                name@,
                process,
                nonce,
                attempt as nat,
            ),
        decreases 100 - attempt,
    {
        let mut leaf: String = text::joined3(TRASH_PREFIX, &name, ".");
        leaf.append(&text::decimal_of(process as u128));
        leaf.append(".");
        leaf.append(&text::decimal_of(nonce));
        leaf.append(".");
        leaf.append(&text::decimal_of(attempt as u128));
        let candidate: String = path::joined(&dir, &leaf);
        if !ask_flag(talk, Request::Exists(candidate.clone()))? {
            return Some(Ok(candidate));
        }
        attempt += 1;
    }
    Some(
        Err(Error::Reclamation(text::joined("could not choose a trash path beside ", original))),
    )
}

/// Records the move, and then makes it.
pub open spec fn moved_aside_spec(
    rest: Seq<Answer>,
    config: Seq<char>,
    original: Seq<char>,
) -> Progress<Meant<Staged<Seq<char>>>> {
    match unused_trash_path_spec(rest, original) {
        Progress::Waiting(q) => Progress::Waiting(q),
        Progress::Finished(Err(e), rest) => Progress::Finished(Err(e), rest),
        Progress::Finished(Ok(trash), rest) => match record_config_spec(
            rest,
            config,
            Record { state: State::Staged, original, trash },
        ) {
            Progress::Waiting(q) => Progress::Waiting(q),
            Progress::Finished(Err(e), rest) => Progress::Finished(Err(e), rest),
            Progress::Finished(Ok(_), rest) => match try_asked(
                rest,
                Asked::Rename { from: original, to: trash },
            ) {
                Progress::Waiting(q) => Progress::Waiting(q),
                Progress::Finished(Err(e), rest) => Progress::Finished(
                    Err(reclamation_failure("move worktree"@, original, e)),
                    rest,
                ),
                Progress::Finished(Ok(_), rest) => Progress::Finished(
                    Ok(Staged { config, original, trash }),
                    rest,
                ),
            },
        },
    }
}

/// Moves a worktree aside, to a hidden sibling on the same volume. The lock is
/// held from then on, so that no retry sees the record before git has removed
/// the registration; a move that fails lets it go.
pub open spec fn stage_spec(rest: Seq<Answer>, original: Seq<char>) -> Progress<
    Meant<Staged<Seq<char>>>,
> {
    match repository_config_spec(rest) {
        Progress::Waiting(q) => Progress::Waiting(q),
        Progress::Finished(Err(e), rest) => Progress::Finished(Err(e), rest),
        Progress::Finished(Ok(config), rest) => match repository_lock_spec(rest, config) {
            Progress::Waiting(q) => Progress::Waiting(q),
            Progress::Finished(Err(e), rest) => Progress::Finished(Err(e), rest),
            Progress::Finished(Ok(_), rest) => match moved_aside_spec(rest, config, original) {
                Progress::Waiting(q) => Progress::Waiting(q),
                Progress::Finished(Ok(staged), rest) => Progress::Finished(Ok(staged), rest),
                Progress::Finished(Err(e), rest) => match done_asked(rest, Asked::Unlock) {
                    Progress::Waiting(q) => Progress::Waiting(q),
                    Progress::Finished(_, rest) => Progress::Finished(Err(e), rest),
                },
            },
        },
    }
}

fn move_aside(talk: &mut Talk, config: String, original: &str) -> (r: Option<AppResult<Staged>>)
    ensures
        heard(r, *final(talk)) == moved_aside_spec(old(talk).rest(), config@, original@),
{
    let trash: String = match unused_trash_path(talk, original)? {
        Ok(trash) => trash,
        Err(e) => return Some(Err(e)),
    };
    let record: Record = Record::staged(original, &trash);
    match record_config(talk, &config, &record)? {
        Ok(()) => {},
        Err(e) => return Some(Err(e)),
    }
    match ask_try(talk, Request::Rename { from: original.to_owned(), to: trash.clone() })? {
        Ok(()) => Some(Ok(Staged { config, original: original.to_owned(), trash })),
        Err(e) => Some(Err(reclamation_error("move worktree", original, &e))),
    }
}

pub fn stage(talk: &mut Talk, original: &str) -> (r: Option<AppResult<Staged>>)
    ensures
        heard(r, *final(talk)) == stage_spec(old(talk).rest(), original@),
{
    let config: String = match repository_config(talk)? {
        Ok(config) => config,
        Err(e) => return Some(Err(e)),
    };
    match repository_lock(talk, &config)? {
        Ok(()) => {},
        Err(e) => return Some(Err(e)),
    }
    match move_aside(talk, config, original)? {
        Ok(staged) => Some(Ok(staged)),
        Err(e) => {
            ask_done(talk, Request::Unlock)?;
            Some(Err(e))
        },
    }
}

/// Puts a worktree back after git refused to remove its registration.
pub open spec fn restore_spec(rest: Seq<Answer>, staged: Staged<Seq<char>>) -> Progress<Meant<()>> {
    match try_asked(rest, Asked::Rename { from: staged.trash, to: staged.original }) {
        Progress::Waiting(q) => Progress::Waiting(q),
        Progress::Finished(Err(e), rest) => Progress::Finished(
            Err(reclamation_failure("restore worktree"@, staged.trash, e)),
            rest,
        ),
        Progress::Finished(Ok(_), rest) => match forget_config_spec(
            rest,
            staged.config,
            Record { state: State::Staged, original: staged.original, trash: staged.trash },
        ) {
            Progress::Waiting(q) => Progress::Waiting(q),
            Progress::Finished(_, rest) => Progress::Finished(Ok(()), rest),
        },
    }
}

pub fn restore(talk: &mut Talk, staged: &Staged) -> (r: Option<AppResult<()>>)
    ensures
        heard(r, *final(talk)) == restore_spec(old(talk).rest(), staged.model()),
{
    let request: Request = Request::Rename {
        from: staged.trash.clone(),
        to: staged.original.clone(),
    };
    match ask_try(talk, request)? {
        Ok(()) => {},
        Err(e) => return Some(Err(reclamation_error("restore worktree", &staged.trash, &e))),
    }
    let record: Record = Record::staged(&staged.original, &staged.trash);
    let _forgotten: AppResult<()> = forget_config(talk, &staged.config, &record)?;
    Some(Ok(()))
}

/// Marks a directory as safe to delete and starts a worker. The new record is
/// added before the old one goes: a crash between them leaves both, and never
/// neither.
pub open spec fn start_spec(rest: Seq<Answer>, staged: Staged<Seq<char>>) -> Progress<Meant<()>> {
    let before = Record { state: State::Staged, original: staged.original, trash: staged.trash };
    let ready = Record { state: State::Ready, original: staged.original, trash: staged.trash };
    match record_config_spec(rest, staged.config, ready) {
        Progress::Waiting(q) => Progress::Waiting(q),
        Progress::Finished(Err(e), rest) => Progress::Finished(Err(e), rest),
        Progress::Finished(Ok(_), rest) => match forget_config_spec(rest, staged.config, before) {
            Progress::Waiting(q) => Progress::Waiting(q),
            Progress::Finished(_, rest) => match spawn_worker_spec(rest, ready) {
                Progress::Waiting(q) => Progress::Waiting(q),
                Progress::Finished(Ok(_), rest) => Progress::Finished(Ok(()), rest),
                Progress::Finished(Err(e), rest) => Progress::Finished(
                    Err(
                        reclamation_failure(
                            "start background reclamation"@,
                            staged.trash,
                            e,
                        ),
                    ),
                    rest,
                ),
            },
        },
    }
}

pub fn start(talk: &mut Talk, staged: &Staged) -> (r: Option<AppResult<()>>)
    ensures
        heard(r, *final(talk)) == start_spec(old(talk).rest(), staged.model()),
{
    let before: Record = Record::staged(&staged.original, &staged.trash);
    let ready: Record = Record::ready(&staged.original, &staged.trash);
    match record_config(talk, &staged.config, &ready)? {
        Ok(()) => {},
        Err(e) => return Some(Err(e)),
    }
    let _forgotten: AppResult<()> = forget_config(talk, &staged.config, &before)?;
    match spawn_worker(talk, &ready)? {
        Ok(()) => Some(Ok(())),
        Err(e) => Some(Err(reclamation_error("start background reclamation", &staged.trash, &e))),
    }
}

// ---------------------------------------------------------------------------
// Reclaiming
// ---------------------------------------------------------------------------

/// Settles a crash while a directory was moved aside. Only where the original
/// path is gone may git remove the registration, and only that makes the
/// directory one to delete.
pub open spec fn recover_staged_spec(
    rest: Seq<Answer>,
    config: Seq<char>,
    staged: Record<Seq<char>>,
) -> Progress<Meant<Option<Record<Seq<char>>>>> {
    let ready = Record { state: State::Ready, original: staged.original, trash: staged.trash };
    match flag_asked(rest, Asked::Exists(staged.original)) {
        Progress::Waiting(q) => Progress::Waiting(q),
        Progress::Finished(true, rest) => match flag_asked(rest, Asked::Exists(staged.trash)) {
            Progress::Waiting(q) => Progress::Waiting(q),
            Progress::Finished(true, rest) => Progress::Finished(Ok(None), rest),
            Progress::Finished(false, rest) => match forget_config_spec(rest, config, staged) {
                Progress::Waiting(q) => Progress::Waiting(q),
                Progress::Finished(_, rest) => Progress::Finished(Ok(None), rest),
            },
        },
        Progress::Finished(false, rest) => match worktree_remove_spec(
            rest,
            staged.original,
            false,
        ) {
            Progress::Waiting(q) => Progress::Waiting(q),
            Progress::Finished(Err(e), rest) => Progress::Finished(Err(e), rest),
            Progress::Finished(Ok(WorktreeRemoveOutcome::Failed(_)), rest) => Progress::Finished(
                Ok(None),
                rest,
            ),
            Progress::Finished(Ok(WorktreeRemoveOutcome::Removed), rest) => match record_config_spec(
                rest,
                config,
                ready,
            ) {
                Progress::Waiting(q) => Progress::Waiting(q),
                Progress::Finished(Err(e), rest) => Progress::Finished(Err(e), rest),
                Progress::Finished(Ok(_), rest) => match forget_config_spec(rest, config, staged) {
                    Progress::Waiting(q) => Progress::Waiting(q),
                    Progress::Finished(_, rest) => Progress::Finished(Ok(Some(ready)), rest),
                },
            },
        },
    }
}

pub fn recover_staged(talk: &mut Talk, config: &str, staged: &Record) -> (r: Option<
    AppResult<Option<Record>>,
>)
    ensures
        heard(r, *final(talk)) == recover_staged_spec(
            old(talk).rest(),
            config@,
            staged.model(),
        ),
{
    if ask_flag(talk, Request::Exists(staged.original.clone()))? {
        if !ask_flag(talk, Request::Exists(staged.trash.clone()))? {
            let _forgotten: AppResult<()> = forget_config(talk, config, staged)?;
        }
        return Some(Ok(None));
    }
    match git::worktree_remove(talk, &staged.original, false)? {
        Err(e) => return Some(Err(e)),
        Ok(WorktreeRemoveOutcome::Failed(_)) => return Some(Ok(None)),
        Ok(WorktreeRemoveOutcome::Removed) => {},
    }
    let ready: Record = Record::ready(&staged.original, &staged.trash);
    match record_config(talk, config, &ready)? {
        Ok(()) => {},
        Err(e) => return Some(Err(e)),
    }
    let _forgotten: AppResult<()> = forget_config(talk, config, staged)?;
    Some(Ok(Some(ready)))
}

/// A record that is the one asked for.
pub open spec fn requested_record(requested: Record<Seq<char>>) -> spec_fn(
    Record<Seq<char>>,
) -> Option<Record<Seq<char>>> {
    |record: Record<Seq<char>>|
        if same_record(record, requested) {
            Some(record)
        } else {
            None
        }
}

/// The record to delete, decided under the lock: the one asked for, if it is
/// still recorded and ready or can be made so.
pub open spec fn ready_record_spec(
    rest: Seq<Answer>,
    config: Seq<char>,
    requested: Record<Seq<char>>,
) -> Progress<Meant<Option<Record<Seq<char>>>>> {
    match configured_records_spec(rest, config) {
        Progress::Waiting(q) => Progress::Waiting(q),
        Progress::Finished(Err(e), rest) => Progress::Finished(Err(e), rest),
        Progress::Finished(Ok(records), rest) => match rows::first_of(
            records,
            requested_record(requested),
        ) {
            None => Progress::Finished(Ok(None), rest),
            Some(record) => match record.state {
                State::Ready => Progress::Finished(Ok(Some(record)), rest),
                State::Staged => recover_staged_spec(rest, config, record),
            },
        },
    }
}

fn find_record(records: &[Record], requested: &Record) -> (r: Option<Record>)
    ensures
        r.model() == rows::first_of(models(records@), requested_record(requested.model())),
{
    let ghost all = models(records@);
    let ghost f = requested_record(requested.model());
    let mut i: usize = 0;
    proof {
        rows::lemma_take_all(all);
    }
    while i < records.len()
        invariant
            i <= records@.len(),
            all == models(records@),
            f == requested_record(requested.model()),
            rows::first_of(all, f) == rows::first_of(all.skip(i as int), f),
        decreases records@.len() - i,
    {
        proof {
            rows::lemma_take_one_more(all, i as int);
        }
        if is_same_record(&records[i], requested) {
            return Some(records[i].clone());
        }
        i += 1;
    }
    None
}

fn ready_record(talk: &mut Talk, config: &str, requested: &Record) -> (r: Option<
    AppResult<Option<Record>>,
>)
    ensures
        heard(r, *final(talk)) == ready_record_spec(
            old(talk).rest(),
            config@,
            requested.model(),
        ),
{
    let records: Vec<Record> = match configured_records(talk, config)? {
        Ok(records) => records,
        Err(e) => return Some(Err(e)),
    };
    match find_record(&records, requested) {
        None => Some(Ok(None)),
        Some(record) => match record.state {
            State::Ready => Some(Ok(Some(record))),
            State::Staged => recover_staged(talk, config, &record),
        },
    }
}

/// Deletes a directory that is ready, if no other worker has claimed it. One
/// that is gone already is only forgotten.
pub open spec fn delete_ready_spec(
    rest: Seq<Answer>,
    config: Seq<char>,
    ready: Record<Seq<char>>,
) -> Progress<Meant<()>> {
    match try_asked(rest, Asked::Open(ready.trash)) {
        Progress::Waiting(q) => Progress::Waiting(q),
        Progress::Finished(Err(e), rest) => if e.kind == IoKind::NotFound {
            match forget_config_spec(rest, config, ready) {
                Progress::Waiting(q) => Progress::Waiting(q),
                Progress::Finished(_, rest) => Progress::Finished(Ok(()), rest),
            }
        } else {
            Progress::Finished(Err(Error::Io(e)), rest)
        },
        Progress::Finished(Ok(_), rest) => match try_asked(rest, Asked::TryLock(ready.trash)) {
            Progress::Waiting(q) => Progress::Waiting(q),
            Progress::Finished(Err(e), rest) => if e.kind == IoKind::WouldBlock {
                Progress::Finished(Ok(()), rest)
            } else {
                Progress::Finished(Err(Error::Io(e)), rest)
            },
            Progress::Finished(Ok(_), rest) => match run_asked(
                rest,
                Asked::RemoveTree(ready.trash),
            ) {
                Progress::Waiting(q) => Progress::Waiting(q),
                Progress::Finished(Err(e), rest) => Progress::Finished(Err(Error::Io(e)), rest),
                Progress::Finished(Ok(output), rest) => if output.succeeded() {
                    match forget_config_spec(rest, config, ready) {
                        Progress::Waiting(q) => Progress::Waiting(q),
                        Progress::Finished(_, rest) => Progress::Finished(Ok(()), rest),
                    }
                } else {
                    Progress::Finished(Ok(()), rest)
                },
            },
        },
    }
}

fn delete_ready(talk: &mut Talk, config: &str, ready: &Record) -> (r: Option<AppResult<()>>)
    ensures
        heard(r, *final(talk)) == delete_ready_spec(old(talk).rest(), config@, ready.model()),
{
    match ask_try(talk, Request::Open(ready.trash.clone()))? {
        Ok(()) => {},
        Err(e) => {
            match e.kind {
                IoKind::NotFound => {},
                _ => return Some(Err(Error::Io(e))),
            }
            let _forgotten: AppResult<()> = forget_config(talk, config, ready)?;
            return Some(Ok(()));
        },
    }
    match ask_try(talk, Request::TryLock(ready.trash.clone()))? {
        Ok(()) => {},
        Err(e) => {
            return match e.kind {
                IoKind::WouldBlock => Some(Ok(())),
                _ => Some(Err(Error::Io(e))),
            };
        },
    }
    let output: Output = match ask_run(talk, Request::RemoveTree(ready.trash.clone()))? {
        Ok(output) => output,
        Err(e) => return Some(Err(Error::Io(e))),
    };
    if output.success() {
        let _forgotten: AppResult<()> = forget_config(talk, config, ready)?;
    }
    Some(Ok(()))
}

/// Reclaims the directory of a record. What to delete is decided under the
/// lock, which is let go before the deletion.
pub open spec fn reclaim_spec(rest: Seq<Answer>, requested: Record<Seq<char>>) -> Progress<
    Meant<()>,
> {
    match repository_config_spec(rest) {
        Progress::Waiting(q) => Progress::Waiting(q),
        Progress::Finished(Err(e), rest) => Progress::Finished(Err(e), rest),
        Progress::Finished(Ok(config), rest) => match repository_lock_spec(rest, config) {
            Progress::Waiting(q) => Progress::Waiting(q),
            Progress::Finished(Err(e), rest) => Progress::Finished(Err(e), rest),
            Progress::Finished(Ok(_), rest) => match ready_record_spec(rest, config, requested) {
                Progress::Waiting(q) => Progress::Waiting(q),
                Progress::Finished(found, rest) => match done_asked(rest, Asked::Unlock) {
                    Progress::Waiting(q) => Progress::Waiting(q),
                    Progress::Finished(_, rest) => match found {
                        Err(e) => Progress::Finished(Err(e), rest),
                        Ok(None) => Progress::Finished(Ok(()), rest),
                        Ok(Some(ready)) => delete_ready_spec(rest, config, ready),
                    },
                },
            },
        },
    }
}

pub fn reclaim(talk: &mut Talk, requested: &Record) -> (r: Option<AppResult<()>>)
    ensures
        heard(r, *final(talk)) == reclaim_spec(old(talk).rest(), requested.model()),
{
    let config: String = match repository_config(talk)? {
        Ok(config) => config,
        Err(e) => return Some(Err(e)),
    };
    match repository_lock(talk, &config)? {
        Ok(()) => {},
        Err(e) => return Some(Err(e)),
    }
    let found: AppResult<Option<Record>> = ready_record(talk, &config, requested)?;
    ask_done(talk, Request::Unlock)?;
    match found {
        Err(e) => Some(Err(e)),
        Ok(None) => Some(Ok(())),
        Ok(Some(ready)) => delete_ready(talk, &config, &ready),
    }
}

/// The worker that this process may have been started as.
pub open spec fn run_worker_spec(rest: Seq<Answer>) -> Progress<Option<Meant<()>>> {
    match text_asked(rest, Asked::WorkerRecord) {
        Progress::Waiting(q) => Progress::Waiting(q),
        Progress::Finished(None, rest) => Progress::Finished(None, rest),
        Progress::Finished(Some(value), rest) => match decoded(value) {
            None => Progress::Finished(
                Some(Err(Error::Reclamation("invalid background record"@))),
                rest,
            ),
            Some(record) => match reclaim_spec(rest, record) {
                Progress::Waiting(q) => Progress::Waiting(q),
                Progress::Finished(result, rest) => Progress::Finished(Some(result), rest),
            },
        },
    }
}

pub fn run_worker(talk: &mut Talk) -> (r: Option<Option<AppResult<()>>>)
    ensures
        heard(r, *final(talk)) == run_worker_spec(old(talk).rest()),
{
    let value: String = match ask_text(talk, Request::WorkerRecord)? {
        Some(value) => value,
        None => return Some(None),
    };
    match Record::decode(&value) {
        None => Some(Some(Err(Error::Reclamation("invalid background record".to_owned())))),
        Some(record) => {
            let result: AppResult<()> = reclaim(talk, &record)?;
            Some(Some(result))
        },
    }
}

// ---------------------------------------------------------------------------
// What holds of every reclamation
// ---------------------------------------------------------------------------

proof fn lemma_recovery_keeps_the_tree(
    rest: Seq<Answer>,
    config: Seq<char>,
    staged: Record<Seq<char>>,
)
    ensures
        recover_staged_spec(rest, config, staged) matches Progress::Waiting(q)
            ==> !(q is RemoveTree),
        recover_staged_spec(rest, config, staged) matches Progress::Finished(Ok(Some(ready)), _)
            ==> {
            &&& ready.state == State::Ready
            &&& ready.original == staged.original
            &&& ready.trash == staged.trash
            &&& rest.len() > 0 && rest[0] != Answer::Flag(true)
        },
{
}

/// Where a record that is ready comes from: from the records in the
/// configuration, of which it is the one asked for, or what the recovery of
/// that one came to.
pub open spec fn answers_request(
    rest: Seq<Answer>,
    config: Seq<char>,
    requested: Record<Seq<char>>,
    ready: Record<Seq<char>>,
) -> bool {
    configured_records_spec(rest, config) matches Progress::Finished(Ok(records), listed)
        && exists|record: Record<Seq<char>>| #[trigger]
        records.contains(record) && same_record(record, requested) && match record.state {
            State::Ready => ready == record,
            State::Staged => recover_staged_spec(listed, config, record)
                matches Progress::Finished(Ok(Some(made)), _) && made == ready && made.original
                == record.original && made.trash == record.trash,
        }
}

proof fn lemma_ready_record(
    rest: Seq<Answer>,
    config: Seq<char>,
    requested: Record<Seq<char>>,
)
    ensures
        ready_record_spec(rest, config, requested) matches Progress::Waiting(q) ==> !(
        q is RemoveTree),
        ready_record_spec(rest, config, requested) matches Progress::Finished(Ok(Some(ready)), _)
            ==> ready.state == State::Ready && acceptable(ready.original, ready.trash)
            && answers_request(rest, config, requested, ready),
{
    match configured_records_spec(rest, config) {
        Progress::Finished(Ok(records), after) => {
            lemma_first_is_there(records, requested_record(requested));
            match rows::first_of(records, requested_record(requested)) {
                Some(record) => {
                    assert(records.contains(record));
                    let ran = crate::ask::ran(rest[0]);
                    let values = text::split(ran->Ok_0.stdout, '\0');
                    if ran->Ok_0.succeeded() {
                        rows::lemma_keep_map_from(values, decodes(), record);
                    }
                    lemma_recovery_keeps_the_tree(after, config, record);
                },
                None => {},
            }
        },
        _ => {},
    }
}

proof fn lemma_first_is_there(
    records: Seq<Record<Seq<char>>>,
    f: spec_fn(Record<Seq<char>>) -> Option<Record<Seq<char>>>,
)
    requires
        forall|r: Record<Seq<char>>| #[trigger] f(r) matches Some(x) ==> x == r,
    ensures
        rows::first_of(records, f) matches Some(x) ==> records.contains(x) && f(x) == Some(x),
    decreases records.len(),
{
    if records.len() > 0 {
        let rest = records.drop_first();
        lemma_first_is_there(rest, f);
        match f(records[0]) {
            Some(x) => {
                assert(records[0] == x);
            },
            None => {
                if let Some(x) = rows::first_of(rest, f) {
                    let i = choose|i: int| 0 <= i < rest.len() && rest[i] == x;
                    assert(records[i + 1] == x);
                }
            },
        }
    }
}

/// What a reclamation decides on under the lock: the configuration it reads,
/// the replies it reads it from, and the record that is ready to be deleted.
pub open spec fn decided_on(rest: Seq<Answer>, requested: Record<Seq<char>>) -> Option<
    (Seq<char>, Seq<Answer>, Record<Seq<char>>),
> {
    match repository_config_spec(rest) {
        Progress::Finished(Ok(config), rest) => match repository_lock_spec(rest, config) {
            Progress::Finished(Ok(_), rest) => match ready_record_spec(rest, config, requested) {
                Progress::Finished(Ok(Some(ready)), _) => Some((config, rest, ready)),
                _ => None,
            },
            _ => None,
        },
        _ => None,
    }
}

/// The only directory that a reclamation ever deletes is the one it was asked
/// to: the hidden sibling of an absolute path, by a record that is in the
/// configuration and ready, or staged and recovered first.
pub proof fn only_the_requested_hidden_sibling_is_deleted(
    rest: Seq<Answer>,
    requested: Record<Seq<char>>,
)
    ensures
        reclaim_spec(rest, requested) matches Progress::Waiting(Asked::RemoveTree(trash)) ==> (
        decided_on(rest, requested) matches Some((config, locked, ready)) && {
            &&& ready.trash == trash
            &&& ready.state == State::Ready
            &&& acceptable(ready.original, trash)
            &&& path::same_path(trash, requested.trash)
            &&& path::same_path(ready.original, requested.original)
            &&& answers_request(locked, config, requested, ready)
        }),
{
    match repository_config_spec(rest) {
        Progress::Finished(Ok(config), after) => match repository_lock_spec(after, config) {
            Progress::Finished(Ok(_), held) => {
                lemma_ready_record(held, config, requested);
                match ready_record_spec(held, config, requested) {
                    Progress::Finished(Ok(Some(ready)), decided) => {
                        assert(acceptable(ready.original, ready.trash));
                        match done_asked(decided, Asked::Unlock) {
                            Progress::Finished(_, free) => {
                                assert(delete_ready_spec(free, config, ready)
                                    matches Progress::Waiting(Asked::RemoveTree(trash)) ==> trash
                                    == ready.trash);
                            },
                            _ => {},
                        }
                    },
                    _ => {},
                }
            },
            _ => {},
        },
        _ => {},
    }
}

/// A directory whose original path is there again is never made one to delete:
/// recovery ends without a record that is ready, and deletes nothing.
pub proof fn staged_is_never_reclaimed_beside_its_original(
    rest: Seq<Answer>,
    config: Seq<char>,
    staged: Record<Seq<char>>,
)
    requires
        rest.len() > 0,
        rest[0] == Answer::Flag(true),
    ensures
        recover_staged_spec(rest, config, staged) matches Progress::Finished(r, _) ==> r
            == Ok::<Option<Record<Seq<char>>>, Error<Seq<char>>>(None),
        recover_staged_spec(rest, config, staged) matches Progress::Waiting(q) ==> q
            == Asked::Exists(staged.trash) || q == crate::ask::git(
            None,
            forget_args(config, staged),
        ),
{
}

/// While a directory is marked as ready, some record of it is there: the new
/// one is added first, and the old one is removed only once that succeeded.
pub proof fn ready_is_recorded_before_staged_is_forgotten(
    rest: Seq<Answer>,
    staged: Staged<Seq<char>>,
)
    ensures
        rest.len() == 0 ==> start_spec(rest, staged) == Progress::<Meant<()>>::Waiting(
            crate::ask::git(
                None,
                record_args(
                    staged.config,
                    Record { state: State::Ready, original: staged.original, trash: staged.trash },
                ),
            ),
        ),
        start_spec(rest, staged) == Progress::<Meant<()>>::Waiting(
            crate::ask::git(
                None,
                forget_args(
                    staged.config,
                    Record { state: State::Staged, original: staged.original, trash: staged.trash },
                ),
            ),
        ) ==> rest.len() > 0 && (crate::ask::ran(rest[0]) matches Ok(output)
            && output.succeeded()),
{
    let ready = Record { state: State::Ready, original: staged.original, trash: staged.trash };
    let before = Record { state: State::Staged, original: staged.original, trash: staged.trash };
    lemma_forget_is_not_record(staged.config, before, ready);
}

proof fn lemma_forget_is_not_record(
    config: Seq<char>,
    a: Record<Seq<char>>,
    b: Record<Seq<char>>,
)
    ensures
        forget_args(config, a).len() != record_args(config, b).len(),
{
}

} // verus!
