//! Text as sequences of characters: the few operations on strings that the
//! rest of the library is written with, each stated over `Seq<char>`.
use vstd::prelude::*;
use vstd::string::*;

use crate::model::{models, Modelled};

verus! {

/// `String::push` appends one character at the end.
pub assume_specification[ String::push ](s: &mut String, c: char)
    ensures
        final(s)@ == old(s)@.push(c),
;

/// The least index of `lo..hi` at which `p` holds, or `hi`.
pub open spec fn least(lo: int, hi: int, p: spec_fn(int) -> bool) -> int
    decreases hi - lo,
{
    if lo >= hi {
        hi
    } else if p(lo) {
        lo
    } else {
        least(lo + 1, hi, p)
    }
}

/// What `least` finds holds, and nothing before it does.
pub proof fn lemma_least(lo: int, hi: int, p: spec_fn(int) -> bool)
    requires
        lo <= hi,
    ensures
        lo <= least(lo, hi, p) <= hi,
        least(lo, hi, p) < hi ==> p(least(lo, hi, p)),
        forall|j: int| lo <= j < least(lo, hi, p) ==> !#[trigger] p(j),
    decreases hi - lo,
{
    if lo < hi && !p(lo) {
        lemma_least(lo + 1, hi, p);
        assert forall|j: int| lo <= j < least(lo, hi, p) implies !#[trigger] p(j) by {
            if j != lo {
                assert(lo + 1 <= j);
            }
        }
    }
}

/// An index with nothing before it, that holds or is the end, is the least.
pub proof fn lemma_least_is(lo: int, hi: int, p: spec_fn(int) -> bool, i: int)
    requires
        lo <= i <= hi,
        i < hi ==> p(i),
        forall|j: int| lo <= j < i ==> !#[trigger] p(j),
    ensures
        least(lo, hi, p) == i,
    decreases hi - lo,
{
    lemma_least(lo, hi, p);
    let l: int = least(lo, hi, p);
    if l < i {
        assert(p(l));
    } else if i < l {
        assert(p(i));
    }
}

/// That `c` stands in `s` at an index.
pub open spec fn holds<T>(s: Seq<T>, c: T) -> spec_fn(int) -> bool {
    |i: int| s[i] == c
}

/// Where `c` first stands in `s`, or the length of `s`.
pub open spec fn find<T>(s: Seq<T>, c: T) -> int {
    least(0, s.len() as int, holds(s, c))
}

/// The pieces of `s` between its separators; always one more than there are
/// separators.
pub open spec fn split<T>(s: Seq<T>, c: T) -> Seq<Seq<T>>
    decreases s.len(),
{
    let i = find(s, c);
    if 0 <= i < s.len() {
        seq![s.take(i)] + split(s.skip(i + 1), c)
    } else {
        seq![s]
    }
}

/// There is always a piece.
pub proof fn lemma_split_nonempty<T>(s: Seq<T>, c: T)
    ensures
        split(s, c).len() > 0,
    decreases s.len(),
{
}

/// What holds no separator is one piece, and what stands before the first
/// separator is the first.
pub proof fn lemma_split_first<T>(a: Seq<T>, c: T, rest: Seq<T>)
    requires
        !a.contains(c),
    ensures
        split(a, c) == seq![a],
        split(a.push(c) + rest, c) == seq![a] + split(rest, c),
{
    let whole = a.push(c) + rest;
    let p = holds(a, c);
    assert forall|j: int| 0 <= j < a.len() implies !#[trigger] p(j) by {
        assert(a.contains(a[j]));
    }
    lemma_least_is(0, a.len() as int, p, a.len() as int);
    let q = holds(whole, c);
    assert forall|j: int| 0 <= j < a.len() implies !#[trigger] q(j) by {
        assert(whole[j] == a[j]);
        assert(a.contains(a[j]));
    }
    assert(q(a.len() as int));
    lemma_least_is(0, whole.len() as int, q, a.len() as int);
    assert(whole.take(a.len() as int) =~= a);
    assert(whole.skip(a.len() as int + 1) =~= rest);
}

/// A line without the carriage return that its line feed followed.
pub open spec fn without_return(line: Seq<char>) -> Seq<char> {
    if line.len() > 0 && line.last() == '\r' {
        line.drop_last()
    } else {
        line
    }
}

/// The lines of `s`. Each ends in a line feed, or in a carriage return and a
/// line feed, which are not part of it; the last may end in neither.
pub open spec fn lines(s: Seq<char>) -> Seq<Seq<char>> {
    let pieces = split(s, '\n');
    let ended = pieces.drop_last();
    let whole = Seq::new(ended.len(), |i: int| without_return(ended[i]));
    if pieces.last().len() == 0 {
        whole
    } else {
        whole.push(pieces.last())
    }
}

/// The characters with Unicode's White_Space property.
pub open spec fn is_white(c: char) -> bool {
    ||| '\u{9}' <= c <= '\u{d}'
    ||| c == '\u{20}'
    ||| c == '\u{85}'
    ||| c == '\u{a0}'
    ||| c == '\u{1680}'
    ||| '\u{2000}' <= c <= '\u{200a}'
    ||| c == '\u{2028}'
    ||| c == '\u{2029}'
    ||| c == '\u{202f}'
    ||| c == '\u{205f}'
    ||| c == '\u{3000}'
}

/// That the character of `s` at an index is white, or that it is not.
pub open spec fn white(s: Seq<char>, yes: bool) -> spec_fn(int) -> bool {
    |i: int| is_white(s[i]) == yes
}

/// Where the first character that is not white stands, or the length.
pub open spec fn ink(s: Seq<char>) -> int {
    least(0, s.len() as int, white(s, false))
}

/// `s` without the white space at its start.
pub open spec fn trim_start(s: Seq<char>) -> Seq<char> {
    s.skip(ink(s))
}

/// `s` without the white space at its end.
pub open spec fn trim_end(s: Seq<char>) -> Seq<char>
    decreases s.len(),
{
    if s.len() > 0 && is_white(s.last()) {
        trim_end(s.drop_last())
    } else {
        s
    }
}

/// `s` without the white space at either end.
pub open spec fn trim(s: Seq<char>) -> Seq<char> {
    trim_end(trim_start(s))
}

/// What precedes and what follows the first `c` in `s`.
pub open spec fn split_once(s: Seq<char>, c: char) -> Option<(Seq<char>, Seq<char>)> {
    let i = find(s, c);
    if 0 <= i < s.len() {
        Some((s.take(i), s.skip(i + 1)))
    } else {
        None
    }
}

/// What precedes and what follows the last `c` in `s`.
pub open spec fn rsplit_once(s: Seq<char>, c: char) -> Option<(Seq<char>, Seq<char>)> {
    let i = find(s.reverse(), c);
    if 0 <= i < s.len() {
        Some((s.take(s.len() - 1 - i), s.skip(s.len() - i)))
    } else {
        None
    }
}

pub open spec fn starts_with(s: Seq<char>, prefix: Seq<char>) -> bool {
    prefix.len() <= s.len() && s.take(prefix.len() as int) == prefix
}

pub open spec fn ends_with(s: Seq<char>, suffix: Seq<char>) -> bool {
    suffix.len() <= s.len() && s.skip(s.len() - suffix.len()) == suffix
}

/// What follows `prefix` in `s`, where `s` starts with it.
pub open spec fn strip_prefix(s: Seq<char>, prefix: Seq<char>) -> Option<Seq<char>> {
    if starts_with(s, prefix) {
        Some(s.skip(prefix.len() as int))
    } else {
        None
    }
}

/// Whether `part` stands somewhere in `s`.
pub open spec fn contains(s: Seq<char>, part: Seq<char>) -> bool {
    exists|i: int| 0 <= i <= s.len() && #[trigger] starts_with(s.skip(i), part)
}

/// The pieces of `s` between runs of white space; none of them is empty.
pub open spec fn split_white(s: Seq<char>) -> Seq<Seq<char>>
    decreases s.len(),
{
    let t = trim_start(s);
    let end = least(0, t.len() as int, white(t, true));
    if 0 < end <= t.len() <= s.len() {
        seq![t.take(end)] + split_white(t.skip(end))
    } else {
        Seq::empty()
    }
}

/// `a` comes before `b` in the order of their characters.
pub open spec fn before(a: Seq<char>, b: Seq<char>) -> bool
    decreases a.len(),
{
    if b.len() == 0 {
        false
    } else if a.len() == 0 {
        true
    } else if a[0] == b[0] {
        before(a.drop_first(), b.drop_first())
    } else {
        a[0] < b[0]
    }
}

/// Of two texts, one comes before the other or they are the same, and not
/// both.
pub proof fn lemma_before_total(a: Seq<char>, b: Seq<char>)
    ensures
        before(a, b) || before(b, a) || a == b,
        !(before(a, b) && before(b, a)),
        before(a, b) ==> a != b,
    decreases a.len(),
{
    if a.len() > 0 && b.len() > 0 {
        if a[0] == b[0] {
            lemma_before_total(a.drop_first(), b.drop_first());
            if a.drop_first() == b.drop_first() {
                assert(a =~= seq![a[0]] + a.drop_first());
                assert(b =~= seq![b[0]] + b.drop_first());
            }
        }
    } else if a.len() == 0 && b.len() == 0 {
        assert(a =~= b);
    }
}

/// What comes before something comes before all that follows it.
pub proof fn lemma_before_transitive(a: Seq<char>, b: Seq<char>, c: Seq<char>)
    requires
        before(a, b),
        before(b, c),
    ensures
        before(a, c),
    decreases a.len(),
{
    if a.len() > 0 && a[0] == b[0] && b[0] == c[0] {
        lemma_before_transitive(a.drop_first(), b.drop_first(), c.drop_first());
    }
}

/// The pieces one after the other, with `glue` between them.
pub open spec fn join(pieces: Seq<Seq<char>>, glue: Seq<char>) -> Seq<char>
    decreases pieces.len(),
{
    if pieces.len() == 0 {
        Seq::empty()
    } else if pieces.len() == 1 {
        pieces[0]
    } else {
        join(pieces.drop_last(), glue) + glue + pieces.last()
    }
}

/// The decimal digit for a number below ten.
pub open spec fn digit(n: int) -> char {
    if n == 0 {
        '0'
    } else if n == 1 {
        '1'
    } else if n == 2 {
        '2'
    } else if n == 3 {
        '3'
    } else if n == 4 {
        '4'
    } else if n == 5 {
        '5'
    } else if n == 6 {
        '6'
    } else if n == 7 {
        '7'
    } else if n == 8 {
        '8'
    } else {
        '9'
    }
}

/// `n` in decimal, without leading zeros.
pub open spec fn decimal(n: nat) -> Seq<char>
    decreases n,
{
    if n < 10 {
        seq![digit(n as int)]
    } else {
        decimal(n / 10).push(digit((n % 10) as int))
    }
}

pub open spec fn is_digit(c: char) -> bool {
    '0' <= c <= '9'
}

/// That the character of `s` at an index is no decimal digit.
pub open spec fn no_digit(s: Seq<char>) -> spec_fn(int) -> bool {
    |i: int| !is_digit(s[i])
}

/// The number a row of decimal digits stands for.
pub open spec fn value(digits: Seq<char>) -> nat
    decreases digits.len(),
{
    if digits.len() == 0 {
        0
    } else {
        value(digits.drop_last()) * 10 + (digits.last() as nat - '0' as nat) as nat
    }
}

/// Why a text is not a number.
#[derive(Clone, Copy, Debug, PartialEq, Eq, Structural)]
pub enum ParseIntError {
    Empty,
    InvalidDigit,
    PosOverflow,
}

/// The number that `s` spells: digits, with an optional plus sign before
/// them, that stand for no more than `u32::MAX`. Where some digit is wrong and
/// the digits before it are already too large, that they are too large is
/// what is reported.
pub open spec fn parse_u32(s: Seq<char>) -> Result<u32, ParseIntError> {
    let digits = if s.len() > 1 && s[0] == '+' {
        s.skip(1)
    } else {
        s
    };
    let n = least(0, digits.len() as int, no_digit(digits));
    if s.len() == 0 {
        Err(ParseIntError::Empty)
    } else if value(digits.take(n)) > u32::MAX {
        Err(ParseIntError::PosOverflow)
    } else if n < digits.len() {
        Err(ParseIntError::InvalidDigit)
    } else {
        Ok(value(digits) as u32)
    }
}

/// The characters of `s`, for reading by position.
pub fn chars_of(s: &str) -> (r: Vec<char>)
    ensures
        r@ == s@,
{
    let mut r: Vec<char> = Vec::new();
    for c in it: s.chars()
        invariant
            r@ == s@.take(it.index()),
            it.seq() == s@,
    {
        r.push(c);
    }
    r
}

/// The characters `from..to` as a string.
pub fn piece(cs: &[char], from: usize, to: usize) -> (r: String)
    requires
        from <= to <= cs@.len(),
    ensures
        r@ == cs@.subrange(from as int, to as int),
{
    let mut r: String = String::new();
    let mut i: usize = from;
    while i < to
        invariant
            from <= i <= to <= cs@.len(),
            r@ == cs@.subrange(from as int, i as int),
        decreases to - i,
    {
        r.push(cs[i]);
        i += 1;
    }
    r
}

/// Whether `part` stands in `cs` at `at`.
fn stands_at(cs: &[char], at: usize, part: &[char]) -> (r: bool)
    requires
        at <= cs@.len(),
    ensures
        r == starts_with(cs@.skip(at as int), part@),
{
    if cs.len() - at < part.len() {
        return false;
    }
    let mut i: usize = 0;
    while i < part.len()
        invariant
            i <= part@.len(),
            at + part@.len() <= cs@.len() <= usize::MAX,
            forall|j: int| 0 <= j < i ==> cs@[at + j] == #[trigger] part@[j],
        decreases part@.len() - i,
    {
        if cs[at + i] != part[i] {
            proof {
                let t = cs@.skip(at as int).take(part@.len() as int);
                assert(t[i as int] != part@[i as int]);
            }
            return false;
        }
        i += 1;
    }
    assert(cs@.skip(at as int).take(part@.len() as int) =~= part@);
    true
}

/// Whether two texts are the same.
pub fn same(a: &str, b: &str) -> (r: bool)
    ensures
        r == (a@ == b@),
{
    let x: Vec<char> = chars_of(a);
    let y: Vec<char> = chars_of(b);
    if x.len() != y.len() {
        return false;
    }
    assert(x@.skip(0) =~= x@);
    assert(x@.take(y@.len() as int) =~= x@);
    stands_at(&x, 0, &y)
}

/// `concat` of two texts.
pub fn joined(a: &str, b: &str) -> (r: String)
    ensures
        r@ == a@ + b@,
{
    let mut r: String = a.to_owned();
    r.append(b);
    r
}

/// Three texts one after the other.
pub fn joined3(a: &str, b: &str, c: &str) -> (r: String)
    ensures
        r@ == a@ + b@ + c@,
{
    let mut r: String = a.to_owned();
    r.append(b);
    r.append(c);
    r
}

fn find_from(cs: &[char], from: usize, c: char) -> (r: usize)
    requires
        from <= cs@.len(),
    ensures
        from <= r <= cs@.len(),
        r - from == find(cs@.skip(from as int), c),
{
    let mut i: usize = from;
    let ghost t = cs@.skip(from as int);
    let ghost p = holds(t, c);
    while i < cs.len()
        invariant_except_break
            forall|j: int| 0 <= j < i - from ==> !#[trigger] p(j),
        invariant
            from <= i <= cs@.len(),
            t == cs@.skip(from as int),
            p == holds(t, c),
        ensures
            forall|j: int| 0 <= j < i - from ==> !#[trigger] p(j),
            i < cs@.len() ==> p(i - from),
        decreases cs@.len() - i,
    {
        if cs[i] == c {
            assert(p(i - from));
            break;
        }
        assert(!p(i - from));
        i += 1;
    }
    proof {
        lemma_least_is(0, t.len() as int, p, i - from);
    }
    i
}

/// The pieces of `s` between the separators `c`.
pub fn split_at_each(s: &str, c: char) -> (r: Vec<String>)
    ensures
        models(r@) == split(s@, c),
{
    let cs: Vec<char> = chars_of(s);
    let mut r: Vec<String> = Vec::new();
    let mut from: usize = 0;
    let mut done: bool = false;
    assert(s@.skip(0) =~= s@);
    assert(models(r@) + split(s@, c) =~= split(s@, c));
    while !done
        invariant
            cs@ == s@,
            from <= cs@.len(),
            !done ==> models(r@) + split(s@.skip(from as int), c) == split(s@, c),
            done ==> models(r@) == split(s@, c),
        decreases cs@.len() - from + (if done { 0int } else { 1 }),
    {
        let to: usize = find_from(&cs, from, c);
        let ghost t = s@.skip(from as int);
        let ghost had = models(r@);
        let part: String = piece(&cs, from, to);
        r.push(part);
        assert(models(r@) =~= had.push(part@));
        proof {
            lemma_least(0, t.len() as int, holds(t, c));
        }
        if to < cs.len() {
            assert(part@ =~= t.take(to - from));
            assert(t.skip(to - from + 1) =~= s@.skip(to + 1));
            assert(had + split(t, c) =~= models(r@) + split(s@.skip(to + 1), c));
            from = to + 1;
        } else {
            assert(part@ =~= t);
            assert(had + seq![t] =~= models(r@));
            done = true;
        }
    }
    r
}

/// The lines of `s`.
pub fn lines_of(s: &str) -> (r: Vec<String>)
    ensures
        models(r@) == lines(s@),
{
    let pieces: Vec<String> = split_at_each(s, '\n');
    let ghost ps = models(pieces@);
    proof {
        lemma_split_nonempty(s@, '\n');
    }
    let ghost ended = ps.drop_last();
    let ghost whole = Seq::new(ended.len(), |i: int| without_return(ended[i]));
    let mut r: Vec<String> = Vec::new();
    let mut i: usize = 0;
    let last: usize = pieces.len() - 1;
    while i < last
        invariant
            i <= last < pieces@.len(),
            ps == models(pieces@),
            ended == ps.drop_last(),
            last == ended.len(),
            whole == Seq::new(ended.len(), |i: int| without_return(ended[i])),
            models(r@) == whole.take(i as int),
        decreases last - i,
    {
        let cs: Vec<char> = chars_of(&pieces[i]);
        let mut n: usize = cs.len();
        if cs.len() > 0 && cs[cs.len() - 1] == '\r' {
            n = cs.len() - 1;
        }
        let line: String = piece(&cs, 0, n);
        assert(line@ =~= whole[i as int]);
        let ghost had = models(r@);
        r.push(line);
        assert(models(r@) =~= had.push(line@));
        assert(whole.take(i + 1) =~= whole.take(i as int).push(whole[i as int]));
        i += 1;
    }
    assert(whole.take(last as int) =~= whole);
    if !pieces[last].as_str().is_empty() {
        let line: String = pieces[last].clone();
        r.push(line);
        assert(models(r@) =~= whole.push(ps.last()));
    }
    r
}

/// Whether a character is white space.
fn is_white_char(c: char) -> (r: bool)
    ensures
        r == is_white(c),
{
    ('\u{9}' <= c && c <= '\u{d}') || c == '\u{20}' || c == '\u{85}' || c == '\u{a0}' || c
        == '\u{1680}' || ('\u{2000}' <= c && c <= '\u{200a}') || c == '\u{2028}' || c == '\u{2029}'
        || c == '\u{202f}' || c == '\u{205f}' || c == '\u{3000}'
}

/// The first index from `from` on whose character is white, or is not.
fn find_white(cs: &[char], from: usize, yes: bool) -> (r: usize)
    requires
        from <= cs@.len(),
    ensures
        from <= r <= cs@.len(),
        r - from == least(0, cs@.len() - from, white(cs@.skip(from as int), yes)),
{
    let mut i: usize = from;
    let ghost t = cs@.skip(from as int);
    let ghost p = white(t, yes);
    while i < cs.len()
        invariant_except_break
            forall|j: int| 0 <= j < i - from ==> !#[trigger] p(j),
        invariant
            from <= i <= cs@.len(),
            t == cs@.skip(from as int),
            p == white(t, yes),
        ensures
            forall|j: int| 0 <= j < i - from ==> !#[trigger] p(j),
            i < cs@.len() ==> p(i - from),
        decreases cs@.len() - i,
    {
        if is_white_char(cs[i]) == yes {
            assert(p(i - from));
            break;
        }
        assert(!p(i - from));
        i += 1;
    }
    proof {
        lemma_least_is(0, t.len() as int, p, i - from);
    }
    i
}

/// `s` without the white space at either end.
pub fn trimmed(s: &str) -> (r: String)
    ensures
        r@ == trim(s@),
{
    let cs: Vec<char> = chars_of(s);
    assert(s@.skip(0) =~= s@);
    let from: usize = find_white(&cs, 0, false);
    let ghost t = trim_start(s@);
    let mut to: usize = cs.len();
    assert(cs@.subrange(from as int, to as int) =~= t);
    while from < to && is_white_char(cs[to - 1])
        invariant
            cs@ == s@,
            from <= to <= cs@.len(),
            trim_end(cs@.subrange(from as int, to as int)) == trim_end(t),
        decreases to - from,
    {
        assert(cs@.subrange(from as int, to as int).drop_last() =~= cs@.subrange(
            from as int,
            to - 1,
        ));
        to -= 1;
    }
    piece(&cs, from, to)
}

/// Whether `s` starts with `prefix`.
pub fn begins(s: &str, prefix: &str) -> (r: bool)
    ensures
        r == starts_with(s@, prefix@),
{
    let cs: Vec<char> = chars_of(s);
    let ps: Vec<char> = chars_of(prefix);
    assert(s@.skip(0) =~= s@);
    stands_at(&cs, 0, &ps)
}

/// Whether `s` ends with `suffix`.
pub fn finishes(s: &str, suffix: &str) -> (r: bool)
    ensures
        r == ends_with(s@, suffix@),
{
    let cs: Vec<char> = chars_of(s);
    let ps: Vec<char> = chars_of(suffix);
    if cs.len() < ps.len() {
        return false;
    }
    let at: usize = cs.len() - ps.len();
    assert(cs@.skip(at as int).take(ps@.len() as int) =~= cs@.skip(at as int));
    stands_at(&cs, at, &ps)
}

/// What follows `prefix` in `s`, where `s` starts with it.
pub fn stripped(s: &str, prefix: &str) -> (r: Option<String>)
    ensures
        r.model() == strip_prefix(s@, prefix@),
{
    let cs: Vec<char> = chars_of(s);
    let ps: Vec<char> = chars_of(prefix);
    assert(s@.skip(0) =~= s@);
    if stands_at(&cs, 0, &ps) {
        let rest: String = piece(&cs, ps.len(), cs.len());
        assert(rest@ =~= s@.skip(prefix@.len() as int));
        Some(rest)
    } else {
        None
    }
}

/// Whether `part` stands somewhere in `s`.
pub fn holds_part(s: &str, part: &str) -> (r: bool)
    ensures
        r == contains(s@, part@),
{
    let cs: Vec<char> = chars_of(s);
    let ps: Vec<char> = chars_of(part);
    let mut i: usize = 0;
    while i < cs.len()
        invariant
            cs@ == s@,
            ps@ == part@,
            i <= cs@.len(),
            forall|j: int| 0 <= j < i ==> !#[trigger] starts_with(s@.skip(j), part@),
        decreases cs@.len() - i,
    {
        if stands_at(&cs, i, &ps) {
            return true;
        }
        i += 1;
    }
    stands_at(&cs, cs.len(), &ps)
}

/// Whether `c` stands somewhere in `s`.
pub fn holds_char(s: &str, c: char) -> (r: bool)
    ensures
        r == s@.contains(c),
{
    let cs: Vec<char> = chars_of(s);
    assert(s@.skip(0) =~= s@);
    let i: usize = find_from(&cs, 0, c);
    proof {
        lemma_least(0, s@.len() as int, holds(s@, c));
        if i == s@.len() {
            assert forall|j: int| 0 <= j < s@.len() implies s@[j] != c by {
                assert(!holds(s@, c)(j));
            }
        } else {
            assert(s@[i as int] == c);
        }
    }
    i < cs.len()
}

/// What precedes and what follows the first `c` in `s`.
pub fn parted(s: &str, c: char) -> (r: Option<(String, String)>)
    ensures
        r.model() == split_once(s@, c),
{
    let cs: Vec<char> = chars_of(s);
    assert(s@.skip(0) =~= s@);
    let i: usize = find_from(&cs, 0, c);
    if i < cs.len() {
        let a: String = piece(&cs, 0, i);
        let b: String = piece(&cs, i + 1, cs.len());
        assert(a@ =~= s@.take(i as int));
        assert(b@ =~= s@.skip(i + 1));
        Some((a, b))
    } else {
        None
    }
}

/// What precedes and what follows the last `c` in `s`.
pub fn parted_last(s: &str, c: char) -> (r: Option<(String, String)>)
    ensures
        r.model() == rsplit_once(s@, c),
{
    let cs: Vec<char> = chars_of(s);
    let ghost t = s@.reverse();
    let ghost p = holds(t, c);
    let mut n: usize = cs.len();
    while n > 0
        invariant
            cs@ == s@,
            n <= cs@.len(),
            t == s@.reverse(),
            p == holds(t, c),
            forall|j: int| 0 <= j < cs@.len() - n ==> !#[trigger] p(j),
        decreases n,
    {
        if cs[n - 1] == c {
            proof {
                assert(p(cs@.len() - n));
                lemma_least_is(0, t.len() as int, p, cs@.len() - n);
            }
            let a: String = piece(&cs, 0, n - 1);
            let b: String = piece(&cs, n, cs.len());
            assert(a@ =~= s@.take(n - 1));
            assert(b@ =~= s@.skip(n as int));
            return Some((a, b));
        }
        assert(!p(cs@.len() - n));
        n -= 1;
    }
    proof {
        lemma_least_is(0, t.len() as int, p, t.len() as int);
    }
    None
}

/// The pieces of `s` between runs of white space.
pub fn words_of(s: &str) -> (r: Vec<String>)
    ensures
        models(r@) == split_white(s@),
{
    let cs: Vec<char> = chars_of(s);
    let mut r: Vec<String> = Vec::new();
    let mut from: usize = 0;
    assert(s@.skip(0) =~= s@);
    assert(models(r@) + split_white(s@) =~= split_white(s@));
    loop
        invariant
            cs@ == s@,
            from <= cs@.len(),
            models(r@) + split_white(s@.skip(from as int)) == split_white(s@),
        ensures
            models(r@) == split_white(s@),
        decreases cs@.len() - from,
    {
        let ghost u = s@.skip(from as int);
        let start: usize = find_white(&cs, from, false);
        let ghost t = trim_start(u);
        assert(t =~= s@.skip(start as int));
        let end: usize = find_white(&cs, start, true);
        if start == end {
            assert(models(r@) + Seq::<Seq<char>>::empty() =~= models(r@));
            break;
        }
        let part: String = piece(&cs, start, end);
        let ghost had = models(r@);
        r.push(part);
        assert(models(r@) =~= had.push(part@));
        assert(part@ =~= t.take(end - start));
        assert(t.skip(end - start) =~= s@.skip(end as int));
        assert(had + split_white(u) =~= models(r@) + split_white(s@.skip(end as int)));
        from = end;
    }
    r
}

/// Whether `a` comes before `b` in the order of their characters.
pub fn precedes(a: &str, b: &str) -> (r: bool)
    ensures
        r == before(a@, b@),
{
    let x: Vec<char> = chars_of(a);
    let y: Vec<char> = chars_of(b);
    let mut i: usize = 0;
    assert(a@.skip(0) =~= a@);
    assert(b@.skip(0) =~= b@);
    while i < x.len() && i < y.len()
        invariant
            x@ == a@,
            y@ == b@,
            i <= x@.len(),
            i <= y@.len(),
            before(a@, b@) == before(a@.skip(i as int), b@.skip(i as int)),
        decreases x@.len() - i,
    {
        if x[i] != y[i] {
            return x[i] < y[i];
        }
        assert(a@.skip(i as int).drop_first() =~= a@.skip(i + 1));
        assert(b@.skip(i as int).drop_first() =~= b@.skip(i + 1));
        i += 1;
    }
    i < y.len()
}

/// The pieces one after the other, with `glue` between them.
pub fn glued(pieces: &[String], glue: &str) -> (r: String)
    ensures
        r@ == join(models(pieces@), glue@),
{
    let mut r: String = String::new();
    let mut i: usize = 0;
    let ghost ps = models(pieces@);
    while i < pieces.len()
        invariant
            i <= pieces@.len(),
            ps == models(pieces@),
            r@ == join(ps.take(i as int), glue@),
        decreases pieces@.len() - i,
    {
        assert(ps.take(i + 1).drop_last() =~= ps.take(i as int));
        if i > 0 {
            r.append(glue);
        }
        let ghost had = r@;
        r.append(&pieces[i]);
        proof {
            if i == 0 {
                assert(had =~= Seq::empty());
                assert(r@ =~= ps[0]);
            }
        }
        i += 1;
    }
    assert(ps.take(i as int) =~= ps);
    r
}

fn digit_char(n: u128) -> (r: char)
    requires
        n < 10,
    ensures
        r == digit(n as int),
{
    if n == 0 {
        '0'
    } else if n == 1 {
        '1'
    } else if n == 2 {
        '2'
    } else if n == 3 {
        '3'
    } else if n == 4 {
        '4'
    } else if n == 5 {
        '5'
    } else if n == 6 {
        '6'
    } else if n == 7 {
        '7'
    } else if n == 8 {
        '8'
    } else {
        '9'
    }
}

/// `n` in decimal.
pub fn decimal_of(n: u128) -> (r: String)
    ensures
        r@ == decimal(n as nat),
    decreases n,
{
    if n < 10 {
        let mut r: String = String::new();
        r.push(digit_char(n));
        assert(r@ =~= seq![digit(n as int)]);
        r
    } else {
        let mut r: String = decimal_of(n / 10);
        r.push(digit_char(n % 10));
        r
    }
}

/// The number that `s` spells.
pub fn number_of(s: &str) -> (r: Result<u32, ParseIntError>)
    ensures
        r == parse_u32(s@),
{
    let cs: Vec<char> = chars_of(s);
    if cs.len() == 0 {
        return Err(ParseIntError::Empty);
    }
    let start: usize = if cs.len() > 1 && cs[0] == '+' {
        1
    } else {
        0
    };
    let ghost ds = s@.skip(start as int);
    assert(s@.skip(0) =~= s@);
    let ghost p = no_digit(ds);
    let mut i: usize = start;
    let mut n: u64 = 0;
    assert(ds.take(0).len() == 0);
    while i < cs.len()
        invariant
            cs@ == s@,
            start <= i <= cs@.len(),
            start <= 1,
            s@.len() > 0,
            ds == s@.skip(start as int),
            ds == (if s@.len() > 1 && s@[0] == '+' { s@.skip(1) } else { s@ }),
            p == no_digit(ds),
            n == value(ds.take(i - start)),
            n <= u32::MAX,
            forall|j: int| 0 <= j < i - start ==> !#[trigger] p(j),
        decreases cs@.len() - i,
    {
        let c: char = cs[i];
        let ghost k = i - start;
        if !('0' <= c && c <= '9') {
            proof {
                assert(p(k));
                lemma_least_is(0, ds.len() as int, p, k);
            }
            return Err(ParseIntError::InvalidDigit);
        }
        assert(!p(k));
        assert(ds.take(k + 1).drop_last() =~= ds.take(k));
        let d: u64 = c as u64 - '0' as u64;
        n = n * 10 + d;
        i += 1;
        assert(n == value(ds.take(k + 1)));
        if n > 4294967295 {
            proof {
                lemma_least(0, ds.len() as int, p);
                let m = least(0, ds.len() as int, p);
                if m < k + 1 {
                    assert(p(m));
                }
                lemma_value_grows(ds, k + 1, m);
            }
            return Err(ParseIntError::PosOverflow);
        }
    }
    proof {
        lemma_least_is(0, ds.len() as int, p, ds.len() as int);
        assert(ds.take(ds.len() as int) =~= ds);
    }
    Ok(n as u32)
}

/// More digits stand for no smaller a number.
proof fn lemma_value_grows(s: Seq<char>, i: int, j: int)
    requires
        0 <= i <= j <= s.len(),
    ensures
        value(s.take(i)) <= value(s.take(j)),
    decreases j - i,
{
    if i < j {
        lemma_value_grows(s, i, j - 1);
        assert(s.take(j).drop_last() =~= s.take(j - 1));
    }
}

/// `c` written `n` times.
pub open spec fn repeated(c: char, n: nat) -> Seq<char> {
    Seq::new(n, |i: int| c)
}

/// `c` written `n` times.
pub fn run_of(c: char, n: usize) -> (r: String)
    ensures
        r@ == repeated(c, n as nat),
{
    let mut r: String = String::new();
    let mut i: usize = 0;
    while i < n
        invariant
            i <= n,
            r@ == repeated(c, i as nat),
        decreases n - i,
    {
        r.push(c);
        i += 1;
        assert(r@ =~= repeated(c, i as nat));
    }
    r
}

// ---------------------------------------------------------------------------
// What reading and writing have in common
// ---------------------------------------------------------------------------

proof fn lemma_decimal_reads(n: nat)
    ensures
        decimal(n).len() > 0,
        forall|i: int| 0 <= i < decimal(n).len() ==> is_digit(#[trigger] decimal(n)[i]),
        value(decimal(n)) == n,
    decreases n,
{
    reveal_with_fuel(value, 3);
    if n < 10 {
        assert(decimal(n).drop_last() =~= Seq::empty());
        assert(decimal(n).last() == digit(n as int));
    } else {
        lemma_decimal_reads(n / 10);
        assert(decimal(n).drop_last() =~= decimal(n / 10));
        assert(decimal(n).last() == digit((n % 10) as int));
    }
}

/// A number reads back as it was written.
pub proof fn numbers_read_back(n: u32)
    ensures
        parse_u32(decimal(n as nat)) == Result::<u32, ParseIntError>::Ok(n),
{
    let s = decimal(n as nat);
    lemma_decimal_reads(n as nat);
    assert(is_digit(s[0]));
    lemma_least(0, s.len() as int, no_digit(s));
    let k = least(0, s.len() as int, no_digit(s));
    if k < s.len() {
        assert(is_digit(s[k]));
    }
    assert(s.take(s.len() as int) =~= s);
}

proof fn lemma_trim_end(s: Seq<char>)
    ensures
        trim_end(s).len() <= s.len(),
        s.take(trim_end(s).len() as int) == trim_end(s),
        trim_end(s).len() > 0 ==> !is_white(trim_end(s).last()),
        forall|i: int| trim_end(s).len() <= i < s.len() ==> is_white(#[trigger] s[i]),
    decreases s.len(),
{
    if s.len() > 0 && is_white(s.last()) {
        lemma_trim_end(s.drop_last());
        assert(s.take(trim_end(s).len() as int) =~= trim_end(s));
        assert forall|i: int| trim_end(s).len() <= i < s.len() implies is_white(#[trigger] s[i]) by {
            if i < s.len() - 1 {
                assert(s.drop_last()[i] == s[i]);
            }
        }
    } else {
        assert(s.take(s.len() as int) =~= s);
    }
}

/// Trimming takes white space off either end and nothing else: what is left
/// stands in the text in one piece, begins and ends in something that is not
/// white, and only white space stands around it.
pub proof fn trimming_takes_only_white(s: Seq<char>)
    ensures
        trim(s).len() > 0 ==> !is_white(trim(s)[0]) && !is_white(trim(s).last()),
        exists|i: int|
            {
                &&& 0 <= i <= i + trim(s).len() <= s.len()
                &&& #[trigger] s.subrange(i, i + trim(s).len()) == trim(s)
                &&& forall|j: int|
                    0 <= j < s.len() && (j < i || i + trim(s).len() <= j) ==> is_white(
                        #[trigger] s[j],
                    )
            },
{
    let i = ink(s);
    let t = trim_start(s);
    lemma_least(0, s.len() as int, white(s, false));
    lemma_trim_end(t);
    let n = trim(s).len();
    assert(s.subrange(i, i + n) =~= t.take(n as int));
    assert forall|j: int| 0 <= j < s.len() && (j < i || i + n <= j) implies is_white(
        #[trigger] s[j],
    ) by {
        if j < i {
            assert(!white(s, false)(j));
        } else {
            assert(t[j - i] == s[j]);
        }
    }
    if n > 0 {
        assert(trim(s)[0] == t[0]);
        assert(t[0] == s[i]);
        assert(white(s, false)(i));
    }
}

/// Splitting loses nothing: the pieces, with the separator put back between
/// them, are the text again, and none of them holds the separator.
pub proof fn splitting_loses_nothing(s: Seq<char>, c: char)
    ensures
        forall|i: int| 0 <= i < split(s, c).len() ==> !(#[trigger] split(s, c)[i]).contains(c),
        joined_by(split(s, c), c) == s,
    decreases s.len(),
{
    let i = find(s, c);
    lemma_least(0, s.len() as int, holds(s, c));
    if 0 <= i < s.len() {
        let after = s.skip(i + 1);
        splitting_loses_nothing(after, c);
        lemma_split_nonempty(after, c);
        let pieces = split(s, c);
        assert(pieces[0] =~= s.take(i));
        assert(pieces.drop_first() =~= split(after, c));
        assert forall|k: int| 0 <= k < pieces.len() implies !(#[trigger] pieces[k]).contains(c) by {
            if k == 0 {
                if s.take(i).contains(c) {
                    let j = choose|j: int| 0 <= j < i && s.take(i)[j] == c;
                    assert(holds(s, c)(j));
                }
            } else {
                assert(pieces[k] == split(after, c)[k - 1]);
            }
        }
        assert(s[i] == c) by {
            assert(holds(s, c)(i));
        }
        assert(joined_by(pieces, c) =~= s);
    } else {
        assert(split(s, c)[0] == s);
        if s.contains(c) {
            let j = choose|j: int| 0 <= j < s.len() && s[j] == c;
            assert(holds(s, c)(j));
        }
        assert(split(s, c).drop_first() =~= Seq::empty());
    }
}

/// Pieces with a character between each two of them.
pub open spec fn joined_by(pieces: Seq<Seq<char>>, c: char) -> Seq<char>
    decreases pieces.len(),
{
    if pieces.len() == 0 {
        Seq::empty()
    } else if pieces.len() == 1 {
        pieces[0]
    } else {
        pieces[0].push(c) + joined_by(pieces.drop_first(), c)
    }
}

} // verus!
