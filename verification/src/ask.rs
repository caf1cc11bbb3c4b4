//! The questions that are put to the world, each with the reply it expects.
//!
//! A reply of another kind counts as no answer: as a failure where the reply
//! can say so, and otherwise as the answer that lets nothing happen.
use vstd::prelude::*;
use vstd::string::*;

use crate::error::{IoError, IoKind};
use crate::grammar::Words;
use crate::model::{borrowed, models, Modelled};
use crate::talk::{asked, heard, Answer, Asked, Key, Mark, Output, Progress, Reply, Request, Talk};
use crate::text;

verus! {

// ---------------------------------------------------------------------------
// Command lines
// ---------------------------------------------------------------------------

pub open spec fn args1(a: Seq<char>) -> Words {
    Seq::empty().push(a)
}

pub open spec fn args2(a: Seq<char>, b: Seq<char>) -> Words {
    Seq::empty().push(a).push(b)
}

pub open spec fn args3(a: Seq<char>, b: Seq<char>, c: Seq<char>) -> Words {
    Seq::empty().push(a).push(b).push(c)
}

pub open spec fn args4(a: Seq<char>, b: Seq<char>, c: Seq<char>, d: Seq<char>) -> Words {
    Seq::empty().push(a).push(b).push(c).push(d)
}

pub open spec fn args5(
    a: Seq<char>,
    b: Seq<char>,
    c: Seq<char>,
    d: Seq<char>,
    e: Seq<char>,
) -> Words {
    Seq::empty().push(a).push(b).push(c).push(d).push(e)
}

pub open spec fn args6(
    a: Seq<char>,
    b: Seq<char>,
    c: Seq<char>,
    d: Seq<char>,
    e: Seq<char>,
    f: Seq<char>,
) -> Words {
    Seq::empty().push(a).push(b).push(c).push(d).push(e).push(f)
}

pub open spec fn args7(
    a: Seq<char>,
    b: Seq<char>,
    c: Seq<char>,
    d: Seq<char>,
    e: Seq<char>,
    f: Seq<char>,
    g: Seq<char>,
) -> Words {
    Seq::empty().push(a).push(b).push(c).push(d).push(e).push(f).push(g)
}

pub open spec fn args8(
    a: Seq<char>,
    b: Seq<char>,
    c: Seq<char>,
    d: Seq<char>,
    e: Seq<char>,
    f: Seq<char>,
    g: Seq<char>,
    h: Seq<char>,
) -> Words {
    Seq::empty().push(a).push(b).push(c).push(d).push(e).push(f).push(g).push(h)
}

pub fn words1(a: &str) -> (r: Vec<String>)
    ensures
        r.model() == args1(a@),
{
    let mut r: Vec<String> = Vec::new();
    r.push(a.to_owned());
    assert(models(r@) =~= args1(a@));
    r
}

pub fn words2(a: &str, b: &str) -> (r: Vec<String>)
    ensures
        r.model() == args2(a@, b@),
{
    let mut r: Vec<String> = words1(a);
    r.push(b.to_owned());
    assert(models(r@) =~= args2(a@, b@));
    r
}

pub fn words3(a: &str, b: &str, c: &str) -> (r: Vec<String>)
    ensures
        r.model() == args3(a@, b@, c@),
{
    let mut r: Vec<String> = words2(a, b);
    r.push(c.to_owned());
    assert(models(r@) =~= args3(a@, b@, c@));
    r
}

pub fn words4(a: &str, b: &str, c: &str, d: &str) -> (r: Vec<String>)
    ensures
        r.model() == args4(a@, b@, c@, d@),
{
    let mut r: Vec<String> = words3(a, b, c);
    r.push(d.to_owned());
    assert(models(r@) =~= args4(a@, b@, c@, d@));
    r
}

pub fn words5(a: &str, b: &str, c: &str, d: &str, e: &str) -> (r: Vec<String>)
    ensures
        r.model() == args5(a@, b@, c@, d@, e@),
{
    let mut r: Vec<String> = words4(a, b, c, d);
    r.push(e.to_owned());
    assert(models(r@) =~= args5(a@, b@, c@, d@, e@));
    r
}

pub fn words6(a: &str, b: &str, c: &str, d: &str, e: &str, f: &str) -> (r: Vec<String>)
    ensures
        r.model() == args6(a@, b@, c@, d@, e@, f@),
{
    let mut r: Vec<String> = words5(a, b, c, d, e);
    r.push(f.to_owned());
    assert(models(r@) =~= args6(a@, b@, c@, d@, e@, f@));
    r
}

pub fn words7(a: &str, b: &str, c: &str, d: &str, e: &str, f: &str, g: &str) -> (r: Vec<String>)
    ensures
        r.model() == args7(a@, b@, c@, d@, e@, f@, g@),
{
    let mut r: Vec<String> = words6(a, b, c, d, e, f);
    r.push(g.to_owned());
    assert(models(r@) =~= args7(a@, b@, c@, d@, e@, f@, g@));
    r
}

pub fn words8(
    a: &str,
    b: &str,
    c: &str,
    d: &str,
    e: &str,
    f: &str,
    g: &str,
    h: &str,
) -> (r: Vec<String>)
    ensures
        r.model() == args8(a@, b@, c@, d@, e@, f@, g@, h@),
{
    let mut r: Vec<String> = words7(a, b, c, d, e, f, g);
    r.push(h.to_owned());
    assert(models(r@) =~= args8(a@, b@, c@, d@, e@, f@, g@, h@));
    r
}

/// An owned copy of an optional text.
pub fn owned(word: Option<&str>) -> (r: Option<String>)
    ensures
        r.model() == borrowed(word),
{
    match word {
        Some(w) => Some(w.to_owned()),
        None => None,
    }
}

/// A borrowed view of an optional text.
pub fn lent(word: &Option<String>) -> (r: Option<&str>)
    ensures
        borrowed(r) == word.model(),
{
    match word {
        Some(w) => Some(w.as_str()),
        None => None,
    }
}

// ---------------------------------------------------------------------------
// Asking git
// ---------------------------------------------------------------------------

pub open spec fn unanswered() -> IoError<Seq<char>> {
    IoError { kind: IoKind::Other, message: "no answer"@ }
}

fn no_answer() -> (r: IoError)
    ensures
        r.model() == unanswered(),
{
    IoError { kind: IoKind::Other, message: "no answer".to_owned() }
}

/// How git ended.
pub type Ran = Result<Output<Seq<char>>, IoError<Seq<char>>>;

pub open spec fn ran(a: Answer) -> Ran {
    match a {
        Answer::Ran(r) => r,
        _ => Err(unanswered()),
    }
}

/// Any request that is answered by how a process ended.
pub open spec fn run_asked(rest: Seq<Answer>, request: Asked) -> Progress<Ran> {
    match asked(rest, request) {
        Progress::Waiting(q) => Progress::Waiting(q),
        Progress::Finished(a, rest) => Progress::Finished(ran(a), rest),
    }
}

pub fn ask_run(talk: &mut Talk, request: Request) -> (r: Option<Result<Output, IoError>>)
    ensures
        heard(r, *final(talk)) == run_asked(old(talk).rest(), request.model()),
{
    match talk.ask(request)? {
        Reply::Ran(r) => Some(r),
        _ => Some(Err(no_answer())),
    }
}

/// The request to run git quietly, with nothing on its standard input.
pub open spec fn git(dir: Option<Seq<char>>, args: Words) -> Asked {
    Asked::Git { dir, args, input: None, shown: false }
}

pub open spec fn git_asked(
    rest: Seq<Answer>,
    dir: Option<Seq<char>>,
    args: Words,
) -> Progress<Ran> {
    run_asked(rest, git(dir, args))
}

pub fn ask_git(talk: &mut Talk, dir: Option<&str>, args: Vec<String>) -> (r: Option<
    Result<Output, IoError>,
>)
    ensures
        heard(r, *final(talk)) == git_asked(old(talk).rest(), borrowed(dir), args.model()),
{
    let dir: Option<String> = owned(dir);
    ask_run(talk, Request::Git { dir, args, input: None, shown: false })
}

// ---------------------------------------------------------------------------
// Asking the rest
// ---------------------------------------------------------------------------

pub open spec fn flag_asked(rest: Seq<Answer>, request: Asked) -> Progress<bool> {
    match asked(rest, request) {
        Progress::Waiting(q) => Progress::Waiting(q),
        Progress::Finished(a, rest) => Progress::Finished(a == Answer::Flag(true), rest),
    }
}

pub fn ask_flag(talk: &mut Talk, request: Request) -> (r: Option<bool>)
    ensures
        heard(r, *final(talk)) == flag_asked(old(talk).rest(), request.model()),
{
    match talk.ask(request)? {
        Reply::Flag(b) => Some(b),
        _ => Some(false),
    }
}

/// A request whose reply says nothing.
pub open spec fn done_asked(rest: Seq<Answer>, request: Asked) -> Progress<()> {
    match asked(rest, request) {
        Progress::Waiting(q) => Progress::Waiting(q),
        Progress::Finished(_, rest) => Progress::Finished((), rest),
    }
}

pub fn ask_done(talk: &mut Talk, request: Request) -> (r: Option<()>)
    ensures
        heard(r, *final(talk)) == done_asked(old(talk).rest(), request.model()),
{
    let _reply: Reply = talk.ask(request)?;
    Some(())
}

pub open spec fn tell_asked(rest: Seq<Answer>, mark: Mark, text: Seq<char>) -> Progress<()> {
    done_asked(rest, Asked::Tell { mark, text })
}

/// Writes a line for the user.
pub fn tell(talk: &mut Talk, mark: Mark, text: String) -> (r: Option<()>)
    ensures
        heard(r, *final(talk)) == tell_asked(old(talk).rest(), mark, text@),
{
    ask_done(talk, Request::Tell { mark, text })
}

pub open spec fn text_asked(rest: Seq<Answer>, request: Asked) -> Progress<Option<Seq<char>>> {
    match asked(rest, request) {
        Progress::Waiting(q) => Progress::Waiting(q),
        Progress::Finished(a, rest) => Progress::Finished(
            match a {
                Answer::Text(t) => t,
                _ => None,
            },
            rest,
        ),
    }
}

pub fn ask_text(talk: &mut Talk, request: Request) -> (r: Option<Option<String>>)
    ensures
        heard(r, *final(talk)) == text_asked(old(talk).rest(), request.model()),
{
    match talk.ask(request)? {
        Reply::Text(t) => Some(t),
        _ => Some(None),
    }
}

pub open spec fn key_asked(rest: Seq<Answer>) -> Progress<Result<Key, IoError<Seq<char>>>> {
    match asked(rest, Asked::ReadKey) {
        Progress::Waiting(q) => Progress::Waiting(q),
        Progress::Finished(a, rest) => Progress::Finished(
            match a {
                Answer::Pressed(r) => r,
                _ => Err(unanswered()),
            },
            rest,
        ),
    }
}

pub fn ask_key(talk: &mut Talk) -> (r: Option<Result<Key, IoError>>)
    ensures
        heard(r, *final(talk)) == key_asked(old(talk).rest()),
{
    match talk.ask(Request::ReadKey)? {
        Reply::Pressed(r) => Some(r),
        _ => Some(Err(no_answer())),
    }
}

pub open spec fn try_asked(rest: Seq<Answer>, request: Asked) -> Progress<
    Result<(), IoError<Seq<char>>>,
> {
    match asked(rest, request) {
        Progress::Waiting(q) => Progress::Waiting(q),
        Progress::Finished(a, rest) => Progress::Finished(
            match a {
                Answer::Tried(r) => r,
                _ => Err(unanswered()),
            },
            rest,
        ),
    }
}

pub fn ask_try(talk: &mut Talk, request: Request) -> (r: Option<Result<(), IoError>>)
    ensures
        heard(r, *final(talk)) == try_asked(old(talk).rest(), request.model()),
{
    match talk.ask(request)? {
        Reply::Tried(r) => Some(r),
        _ => Some(Err(no_answer())),
    }
}

} // verus!
