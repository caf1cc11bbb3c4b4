//! Paths as text: pieces between slashes, where empty pieces and `.` between
//! others mean nothing.
use vstd::prelude::*;
use vstd::string::*;

use crate::grammar::Words;
use crate::model::{models, Modelled};
use crate::rows::{self, keep_map};
use crate::text;

verus! {

pub open spec fn is_absolute(p: Seq<char>) -> bool {
    p.len() > 0 && p[0] == '/'
}

/// A piece that names nothing.
pub open spec fn is_void(piece: Seq<char>) -> bool {
    piece.len() == 0 || piece == "."@
}

/// Whether a relative path starts with `.` itself.
pub open spec fn starts_here(p: Seq<char>) -> bool {
    !is_absolute(p) && text::split(p, '/')[0] == "."@
}

/// How much of a path stands before its body: the root, or a leading `.`.
pub open spec fn head(p: Seq<char>) -> int {
    if is_absolute(p) || starts_here(p) {
        1
    } else {
        0
    }
}

pub open spec fn named_piece(piece: Seq<char>) -> Option<Seq<char>> {
    if is_void(piece) {
        None
    } else {
        Some(piece)
    }
}

/// The named pieces of a path's body.
pub open spec fn pieces(body: Seq<char>) -> Words {
    keep_map(text::split(body, '/'), |s: Seq<char>| named_piece(s))
}

/// What a path goes through: the root or a leading `.`, and then its pieces.
pub open spec fn components(p: Seq<char>) -> Words {
    let body = pieces(p.skip(head(p)));
    if is_absolute(p) {
        seq!["/"@] + body
    } else if starts_here(p) {
        seq!["."@] + body
    } else {
        body
    }
}

/// Whether two texts are the same path.
pub open spec fn same_path(a: Seq<char>, b: Seq<char>) -> bool {
    components(a) == components(b)
}

/// A body without the void pieces at its end.
pub open spec fn chop(body: Seq<char>) -> Seq<char>
    decreases body.len(),
{
    match text::rsplit_once(body, '/') {
        None => if is_void(body) {
            Seq::empty()
        } else {
            body
        },
        Some((before, last)) => if is_void(last) && before.len() < body.len() {
            chop(before)
        } else {
            body
        },
    }
}

/// A body without the void pieces at its start.
pub open spec fn skim(body: Seq<char>) -> Seq<char>
    decreases body.len(),
{
    match text::split_once(body, '/') {
        None => if is_void(body) {
            Seq::empty()
        } else {
            body
        },
        Some((first, after)) => if is_void(first) && after.len() < body.len() {
            skim(after)
        } else {
            body
        },
    }
}

/// The last piece of a path, where it names an entry of a directory.
pub open spec fn file_name(p: Seq<char>) -> Option<Seq<char>> {
    let body = chop(p.skip(head(p)));
    let last = match text::rsplit_once(body, '/') {
        None => body,
        Some((_, last)) => last,
    };
    if body.len() == 0 || last == ".."@ {
        None
    } else {
        Some(last)
    }
}

/// The path without its last piece; the root and the empty path have none.
pub open spec fn parent(p: Seq<char>) -> Option<Seq<char>> {
    let body = chop(p.skip(head(p)));
    if body.len() == 0 {
        if starts_here(p) {
            Some(Seq::empty())
        } else {
            None
        }
    } else {
        match text::rsplit_once(body, '/') {
            None => Some(p.take(head(p))),
            Some((before, _)) => Some(p.take(head(p)) + chop(before)),
        }
    }
}

/// `b` as seen from `a`.
pub open spec fn join(a: Seq<char>, b: Seq<char>) -> Seq<char> {
    if is_absolute(b) {
        b
    } else if a.len() > 0 && a.last() != '/' {
        a + "/"@ + b
    } else {
        a + b
    }
}

/// A body without its first `n` named pieces.
pub open spec fn past(body: Seq<char>, n: nat) -> Seq<char>
    decreases n,
{
    if n == 0 {
        body
    } else {
        past(
            match text::split_once(skim(body), '/') {
                None => Seq::empty(),
                Some((_, after)) => after,
            },
            (n - 1) as nat,
        )
    }
}

pub open spec fn is_prefix_of(a: Words, b: Words) -> bool {
    a.len() <= b.len() && b.take(a.len() as int) == a
}

/// What is left of `p` below `base`.
pub open spec fn below(p: Seq<char>, base: Seq<char>) -> Option<Seq<char>> {
    let n = components(base).len();
    if !is_prefix_of(components(base), components(p)) {
        None
    } else if n == 0 {
        Some(p.take(head(p)) + chop(p.skip(head(p))))
    } else {
        Some(chop(skim(past(p.skip(head(p)), (n - head(p)) as nat))))
    }
}

/// A path with the home directory written as `~`.
pub open spec fn displayed(p: Seq<char>, home: Option<Seq<char>>) -> Seq<char> {
    match home {
        None => p,
        Some(home) => match below(p, home) {
            Some(rest) => "~/"@ + rest,
            None => p,
        },
    }
}

pub fn absolute(p: &str) -> (r: bool)
    ensures
        r == is_absolute(p@),
{
    let cs: Vec<char> = text::chars_of(p);
    cs.len() > 0 && cs[0] == '/'
}

fn void(piece: &str) -> (r: bool)
    ensures
        r == is_void(piece@),
{
    piece.is_empty() || text::same(piece, ".")
}

fn leads_here(p: &str) -> (r: bool)
    ensures
        r == starts_here(p@),
{
    if absolute(p) {
        return false;
    }
    let ps: Vec<String> = text::split_at_each(p, '/');
    proof {
        text::lemma_split_nonempty(p@, '/');
    }
    assert(ps@[0].model() == text::split(p@, '/')[0]);
    text::same(&ps[0], ".")
}

/// A path parted into what stands before its body, and the body.
fn beheaded(p: &str) -> (r: (String, String))
    ensures
        r.0@ == p@.take(head(p@)),
        r.1@ == p@.skip(head(p@)),
        head(p@) <= p@.len(),
{
    let cs: Vec<char> = text::chars_of(p);
    let here: bool = leads_here(p);
    let n: usize = if absolute(p) || here {
        1
    } else {
        0
    };
    proof {
        if starts_here(p@) && p@.len() == 0 {
            assert(text::split(p@, '/')[0] == p@);
            reveal_strlit(".");
        }
    }
    let a: String = text::piece(&cs, 0, n);
    let b: String = text::piece(&cs, n, cs.len());
    assert(a@ =~= p@.take(n as int));
    assert(b@ =~= p@.skip(n as int));
    (a, b)
}

fn pieces_of(body: &str) -> (r: Vec<String>)
    ensures
        models(r@) == pieces(body@),
{
    let all: Vec<String> = text::split_at_each(body, '/');
    let ghost ps = text::split(body@, '/');
    let ghost f = |s: Seq<char>| named_piece(s);
    let mut r: Vec<String> = Vec::new();
    let mut i: usize = 0;
    proof {
        rows::lemma_take_all(ps);
    }
    while i < all.len()
        invariant
            i <= all@.len(),
            ps == models(all@),
            f == (|s: Seq<char>| named_piece(s)),
            models(r@) == keep_map(ps.take(i as int), f),
        decreases all@.len() - i,
    {
        broadcast use crate::model::lemma_models_push;

        proof {
            rows::lemma_take_one_more(ps, i as int);
        }
        if !void(&all[i]) {
            r.push(all[i].clone());
        }
        i += 1;
    }
    r
}

pub fn components_of(p: &str) -> (r: Vec<String>)
    ensures
        models(r@) == components(p@),
{
    let parts: (String, String) = beheaded(p);
    let mut body: Vec<String> = pieces_of(&parts.1);
    if absolute(p) {
        let mut r: Vec<String> = Vec::new();
        r.push("/".to_owned());
        let ghost b = models(body@);
        r.append(&mut body);
        assert(models(r@) =~= seq!["/"@] + b);
        r
    } else if leads_here(p) {
        let mut r: Vec<String> = Vec::new();
        r.push(".".to_owned());
        let ghost b = models(body@);
        r.append(&mut body);
        assert(models(r@) =~= seq!["."@] + b);
        r
    } else {
        body
    }
}

/// Whether two rows of texts are the same.
pub fn same_words(a: &[String], b: &[String]) -> (r: bool)
    ensures
        r == (models(a@) == models(b@)),
{
    if a.len() != b.len() {
        assert(models(a@).len() != models(b@).len());
        return false;
    }
    let mut i: usize = 0;
    while i < a.len()
        invariant
            i <= a@.len(),
            a@.len() == b@.len(),
            forall|j: int| 0 <= j < i ==> (#[trigger] a@[j])@ == b@[j]@,
        decreases a@.len() - i,
    {
        if !text::same(&a[i], &b[i]) {
            assert(models(a@)[i as int] != models(b@)[i as int]);
            return false;
        }
        i += 1;
    }
    assert(models(a@) =~= models(b@));
    true
}

/// Whether two texts are the same path.
pub fn same(a: &str, b: &str) -> (r: bool)
    ensures
        r == same_path(a@, b@),
{
    let x: Vec<String> = components_of(a);
    let y: Vec<String> = components_of(b);
    same_words(&x, &y)
}

fn chopped(body: &str) -> (r: String)
    ensures
        r@ == chop(body@),
{
    let mut rest: String = body.to_owned();
    loop
        invariant
            chop(rest@) == chop(body@),
        ensures
            rest@ == chop(body@),
        decreases rest@.len(),
    {
        match text::parted_last(&rest, '/') {
            None => {
                if void(&rest) {
                    rest = String::new();
                    proof {
                        assert(rest@ =~= chop(body@));
                    }
                }
                break;
            },
            Some((before, last)) => {
                proof {
                    lemma_parted_shorter(rest@);
                }
                if void(&last) {
                    rest = before;
                } else {
                    break;
                }
            },
        }
    }
    rest
}

/// A part is shorter than the whole by the slash at least.
proof fn lemma_parted_shorter(s: Seq<char>)
    ensures
        text::rsplit_once(s, '/') matches Some((a, b)) ==> a.len() < s.len() && b.len() < s.len(),
        text::split_once(s, '/') matches Some((a, b)) ==> a.len() < s.len() && b.len() < s.len(),
{
    text::lemma_least(0, s.len() as int, text::holds(s, '/'));
    text::lemma_least(0, s.len() as int, text::holds(s.reverse(), '/'));
}

fn skimmed(body: &str) -> (r: String)
    ensures
        r@ == skim(body@),
{
    let mut rest: String = body.to_owned();
    loop
        invariant
            skim(rest@) == skim(body@),
        ensures
            rest@ == skim(body@),
        decreases rest@.len(),
    {
        match text::parted(&rest, '/') {
            None => {
                if void(&rest) {
                    rest = String::new();
                    proof {
                        assert(rest@ =~= skim(body@));
                    }
                }
                break;
            },
            Some((first, after)) => {
                proof {
                    lemma_parted_shorter(rest@);
                }
                if void(&first) {
                    rest = after;
                } else {
                    break;
                }
            },
        }
    }
    rest
}

/// The last piece of a path, where it names an entry of a directory.
pub fn file_name_of(p: &str) -> (r: Option<String>)
    ensures
        r.model() == file_name(p@),
{
    let parts: (String, String) = beheaded(p);
    let body: String = chopped(&parts.1);
    if body.as_str().is_empty() {
        return None;
    }
    let last: String = match text::parted_last(&body, '/') {
        None => body,
        Some((_before, last)) => last,
    };
    if text::same(&last, "..") {
        None
    } else {
        Some(last)
    }
}

/// The path without its last piece.
pub fn parent_of(p: &str) -> (r: Option<String>)
    ensures
        r.model() == parent(p@),
{
    let parts: (String, String) = beheaded(p);
    let body: String = chopped(&parts.1);
    if body.as_str().is_empty() {
        if leads_here(p) {
            let none: String = String::new();
            assert(none@ =~= Seq::empty());
            return Some(none);
        }
        return None;
    }
    match text::parted_last(&body, '/') {
        None => Some(parts.0),
        Some((before, _last)) => Some(text::joined(&parts.0, &chopped(&before))),
    }
}

/// `b` as seen from `a`.
pub fn joined(a: &str, b: &str) -> (r: String)
    ensures
        r@ == join(a@, b@),
{
    if absolute(b) {
        return b.to_owned();
    }
    let cs: Vec<char> = text::chars_of(a);
    if cs.len() > 0 && cs[cs.len() - 1] != '/' {
        text::joined3(a, "/", b)
    } else {
        text::joined(a, b)
    }
}

fn after_pieces(body: &str, n: usize) -> (r: String)
    ensures
        r@ == past(body@, n as nat),
{
    let mut rest: String = body.to_owned();
    let mut i: usize = n;
    while i > 0
        invariant
            i <= n,
            past(rest@, i as nat) == past(body@, n as nat),
        decreases i,
    {
        let lean: String = skimmed(&rest);
        rest =
        match text::parted(&lean, '/') {
            None => {
                let none: String = String::new();
                assert(none@ =~= Seq::empty());
                none
            },
            Some((_first, after)) => after,
        };
        i -= 1;
    }
    rest
}

/// What is left of `p` below `base`.
pub fn stripped(p: &str, base: &str) -> (r: Option<String>)
    ensures
        r.model() == below(p@, base@),
{
    let x: Vec<String> = components_of(base);
    let y: Vec<String> = components_of(p);
    if x.len() > y.len() {
        return None;
    }
    let front: &[String] = vstd::slice::slice_subrange(&y, 0, x.len());
    assert(models(front@) =~= models(y@).take(x@.len() as int));
    if !same_words(&x, front) {
        return None;
    }
    let parts: (String, String) = beheaded(p);
    if x.len() == 0 {
        return Some(text::joined(&parts.0, &chopped(&parts.1)));
    }
    let headed: usize = if absolute(p) || leads_here(p) {
        1
    } else {
        0
    };
    Some(chopped(&skimmed(&after_pieces(&parts.1, x.len() - headed))))
}

/// A path with the home directory written as `~`.
pub fn display(p: &str, home: Option<&str>) -> (r: String)
    ensures
        r@ == displayed(p@, crate::model::borrowed(home)),
{
    match home {
        None => p.to_owned(),
        Some(home) => match stripped(p, home) {
            Some(rest) => text::joined("~/", &rest),
            None => p.to_owned(),
        },
    }
}

/// A name for an entry of a directory.
pub open spec fn is_entry(name: Seq<char>) -> bool {
    !is_void(name) && name != ".."@ && !name.contains('/')
}

/// An absolute path other than the root that ends in a named piece.
pub open spec fn is_tidy(dir: Seq<char>) -> bool {
    is_absolute(dir) && dir.len() > 1 && dir.last() != '/' && chop(dir.skip(1)) == dir.skip(1)
}

/// What stands behind the last slash, and what before it.
proof fn lemma_rsplit_last(a: Seq<char>, b: Seq<char>)
    requires
        !b.contains('/'),
    ensures
        text::rsplit_once(a + "/"@ + b, '/') == Some((a, b)),
{
    reveal_strlit("/");
    let s = a + "/"@ + b;
    let p = text::holds(s.reverse(), '/');
    assert forall|j: int| 0 <= j < b.len() implies !#[trigger] p(j) by {
        assert(s.reverse()[j] == b[b.len() - 1 - j]);
        assert(b.contains(b[b.len() - 1 - j]));
    }
    assert(s.reverse()[b.len() as int] == '/');
    assert(p(b.len() as int));
    text::lemma_least_is(0, s.len() as int, p, b.len() as int);
    assert(s.take(s.len() - 1 - b.len()) =~= a);
    assert(s.skip(s.len() - b.len()) =~= b);
}

/// The path of a directory's entry parts into the directory and the entry.
pub proof fn entry_parts_from_its_directory(dir: Seq<char>, name: Seq<char>)
    requires
        is_tidy(dir),
        is_entry(name),
    ensures
        parent(join(dir, name)) == Some(dir),
        file_name(join(dir, name)) == Some(name),
{
    reveal_strlit("/");
    if is_absolute(name) {
        assert(name.contains(name[0]));
    }
    let p = dir + "/"@ + name;
    let inner = dir.skip(1);
    assert(p.skip(1) =~= inner + "/"@ + name);
    lemma_rsplit_last(inner, name);
    assert(chop(p.skip(1)) == p.skip(1));
    assert(p.take(1) + inner =~= dir);
}

proof fn lemma_split_behind(a: Seq<char>, b: Seq<char>)
    requires
        !b.contains('/'),
    ensures
        text::split(a + "/"@ + b, '/') == text::split(a, '/').push(b),
    decreases a.len(),
{
    reveal_strlit("/");
    let s = a + "/"@ + b;
    let i = text::find(a, '/');
    text::lemma_least(0, a.len() as int, text::holds(a, '/'));
    if i < a.len() {
        let first = a.take(i);
        let after = a.skip(i + 1);
        assert(a[i] == '/') by {
            assert(text::holds(a, '/')(i));
        }
        if first.contains('/') {
            let j = choose|j: int| 0 <= j < first.len() && first[j] == '/';
            assert(text::holds(a, '/')(j));
        }
        lemma_split_behind(after, b);
        assert(s =~= first.push('/') + (after + "/"@ + b));
        text::lemma_split_first(first, '/', after + "/"@ + b);
        assert(a =~= first.push('/') + after);
        text::lemma_split_first(first, '/', after);
        assert(text::split(s, '/') =~= text::split(a, '/').push(b));
    } else {
        if a.contains('/') {
            let j = choose|j: int| 0 <= j < a.len() && a[j] == '/';
            assert(text::holds(a, '/')(j));
        }
        assert(s =~= a.push('/') + b);
        text::lemma_split_first(a, '/', b);
        text::lemma_least(0, b.len() as int, text::holds(b, '/'));
        let k = text::find(b, '/');
        if k < b.len() {
            assert(text::holds(b, '/')(k));
            assert(b.contains(b[k]));
        }
        assert(text::split(s, '/') =~= text::split(a, '/').push(b));
    }
}

proof fn lemma_pieces_behind(a: Seq<char>, b: Seq<char>)
    requires
        !b.contains('/'),
    ensures
        pieces(a + "/"@ + b) == if is_void(b) {
            pieces(a)
        } else {
            pieces(a).push(b)
        },
{
    lemma_split_behind(a, b);
    let s = text::split(a, '/');
    assert(s.push(b).drop_last() =~= s);
    assert(s.push(b).last() == b);
}

/// The path of a directory's entry goes through what the directory's goes
/// through, and then through the entry.
pub proof fn an_entry_is_one_step_further(dir: Seq<char>, name: Seq<char>)
    requires
        is_tidy(dir),
        is_entry(name),
    ensures
        components(join(dir, name)) == components(dir).push(name),
{
    reveal_strlit("/");
    if is_absolute(name) {
        assert(name.contains(name[0]));
    }
    let p = dir + "/"@ + name;
    assert(join(dir, name) == p);
    assert(p.skip(1) =~= dir.skip(1) + "/"@ + name);
    lemma_pieces_behind(dir.skip(1), name);
    assert(components(p) =~= components(dir).push(name));
}

/// A slash at the end of a path changes nothing about where it leads.
pub proof fn a_slash_at_the_end_is_no_step(dir: Seq<char>)
    requires
        is_tidy(dir),
    ensures
        same_path(dir + "/"@, dir),
{
    reveal_strlit("/");
    let none: Seq<char> = Seq::empty();
    assert(dir + "/"@ =~= dir + "/"@ + none);
    let p = dir + "/"@;
    assert(p.skip(1) =~= dir.skip(1) + "/"@ + none);
    lemma_pieces_behind(dir.skip(1), none);
}

/// An entry is below its directory, and the directory is not below it. Two
/// entries of one directory are two paths, and neither is below the other,
/// however alike their names begin.
pub proof fn siblings_are_apart(dir: Seq<char>, a: Seq<char>, b: Seq<char>)
    requires
        is_tidy(dir),
        is_entry(a),
        is_entry(b),
        a != b,
    ensures
        below(join(dir, a), dir) is Some,
        below(dir, join(dir, a)) is None,
        below(join(dir, a), join(dir, b)) is None,
        !same_path(join(dir, a), join(dir, b)),
        below(dir, dir) is Some,
{
    an_entry_is_one_step_further(dir, a);
    an_entry_is_one_step_further(dir, b);
    let n = components(dir).len();
    assert(components(dir).push(a).take(n as int) =~= components(dir));
    assert(components(dir).take(n as int) =~= components(dir));
    assert(components(dir).push(a).take(n as int + 1) =~= components(dir).push(a));
    assert(components(dir).push(a)[n as int] == a);
    assert(components(dir).push(b)[n as int] == b);
}

/// A path is shown from the home directory exactly where it is below it, and is
/// shown as it is otherwise.
pub proof fn only_what_is_at_home_is_shown_from_there(p: Seq<char>, home: Seq<char>)
    ensures
        below(p, home) is Some ==> text::starts_with(displayed(p, Some(home)), "~/"@),
        below(p, home) is None ==> displayed(p, Some(home)) == p,
        displayed(p, None) == p,
{
    if below(p, home) is Some {
        let shown = displayed(p, Some(home));
        assert(shown.take("~/"@.len() as int) =~= "~/"@);
    }
}

} // verus!
