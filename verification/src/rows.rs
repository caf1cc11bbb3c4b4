//! Rows of things, searched and sifted.
use vstd::prelude::*;

verus! {

/// What `f` makes of the items it makes something of, in their order.
pub open spec fn keep_map<A, B>(s: Seq<A>, f: spec_fn(A) -> Option<B>) -> Seq<B>
    decreases s.len(),
{
    if s.len() == 0 {
        Seq::empty()
    } else {
        match f(s.last()) {
            Some(b) => keep_map(s.drop_last(), f).push(b),
            None => keep_map(s.drop_last(), f),
        }
    }
}

/// What `f` makes of the first item that it makes something of.
pub open spec fn first_of<A, B>(s: Seq<A>, f: spec_fn(A) -> Option<B>) -> Option<B>
    decreases s.len(),
{
    if s.len() == 0 {
        None
    } else {
        match f(s[0]) {
            Some(b) => Some(b),
            None => first_of(s.drop_first(), f),
        }
    }
}

/// What `f` makes of the last item that it makes something of.
pub open spec fn last_of<A, B>(s: Seq<A>, f: spec_fn(A) -> Option<B>) -> Option<B>
    decreases s.len(),
{
    if s.len() == 0 {
        None
    } else {
        match f(s.last()) {
            Some(b) => Some(b),
            None => last_of(s.drop_last(), f),
        }
    }
}

/// The items without those that occur before, in their order.
pub open spec fn unique<A>(s: Seq<A>) -> Seq<A>
    decreases s.len(),
{
    if s.len() == 0 {
        s
    } else {
        let before = unique(s.drop_last());
        if before.contains(s.last()) {
            before
        } else {
            before.push(s.last())
        }
    }
}

/// `unique` holds the same items, each once.
pub proof fn lemma_unique<A>(s: Seq<A>)
    ensures
        unique(s).no_duplicates(),
        forall|x: A| unique(s).contains(x) <==> s.contains(x),
    decreases s.len(),
{
    if s.len() > 0 {
        let before = unique(s.drop_last());
        lemma_unique(s.drop_last());
        assert(s =~= s.drop_last().push(s.last()));
        assert forall|x: A| unique(s).contains(x) <==> s.contains(x) by {
            if s.contains(x) {
                let i = choose|i: int| 0 <= i < s.len() && s[i] == x;
                if i < s.len() - 1 {
                    assert(s.drop_last()[i] == x);
                    assert(s.drop_last().contains(x));
                    let k = choose|k: int| 0 <= k < before.len() && before[k] == x;
                    assert(unique(s)[k] == x);
                } else if !before.contains(x) {
                    assert(unique(s).last() == x);
                } else {
                    assert(unique(s).contains(x));
                }
            }
            if unique(s).contains(x) {
                let k = choose|k: int| 0 <= k < unique(s).len() && unique(s)[k] == x;
                if k < before.len() {
                    assert(before[k] == x);
                    assert(s.drop_last().contains(x));
                    let i = choose|i: int|
                        0 <= i < s.drop_last().len() && s.drop_last()[i] == x;
                    assert(s[i] == x);
                } else {
                    assert(s[s.len() - 1] == x);
                }
            }
        }
    }
}

/// One item more, for loops that walk a row from its start.
pub proof fn lemma_take_one_more<A>(s: Seq<A>, i: int)
    requires
        0 <= i < s.len(),
    ensures
        s.take(i + 1).drop_last() == s.take(i),
        s.take(i + 1).last() == s[i],
        s.take(i + 1) == s.take(i).push(s[i]),
        s.skip(i).drop_first() == s.skip(i + 1),
        s.skip(i)[0] == s[i],
{
    assert(s.take(i + 1).drop_last() =~= s.take(i));
    assert(s.take(i + 1) =~= s.take(i).push(s[i]));
    assert(s.skip(i).drop_first() =~= s.skip(i + 1));
}

/// All of a row, for loops that have walked it.
pub proof fn lemma_take_all<A>(s: Seq<A>)
    ensures
        s.take(s.len() as int) == s,
        s.skip(0) == s,
        s.take(0) == Seq::<A>::empty(),
        s.skip(s.len() as int) == Seq::<A>::empty(),
{
    assert(s.take(s.len() as int) =~= s);
    assert(s.skip(0) =~= s);
    assert(s.take(0) =~= Seq::<A>::empty());
    assert(s.skip(s.len() as int) =~= Seq::<A>::empty());
}

/// Something is kept only of an item that is there.
pub proof fn lemma_keep_map_from<A, B>(s: Seq<A>, f: spec_fn(A) -> Option<B>, b: B)
    ensures
        keep_map(s, f).contains(b) <==> exists|i: int|
            0 <= i < s.len() && f(#[trigger] s[i]) == Some(b),
    decreases s.len(),
{
    if s.len() == 0 {
    } else {
        let rest = s.drop_last();
        let last = s.last();
        let kept = keep_map(rest, f);
        lemma_keep_map_from(rest, f, b);
        if keep_map(s, f).contains(b) {
            if f(last) == Some(b) {
                assert(f(s[s.len() - 1]) == Some(b));
            } else {
                let k = choose|k: int| 0 <= k < keep_map(s, f).len() && keep_map(s, f)[k] == b;
                if f(last) is Some {
                    assert(k < kept.len());
                    assert(kept[k] == b);
                }
                assert(kept.contains(b));
                let i = choose|i: int| 0 <= i < rest.len() && f(#[trigger] rest[i]) == Some(b);
                assert(f(s[i]) == Some(b));
            }
        }
        if exists|i: int| 0 <= i < s.len() && f(#[trigger] s[i]) == Some(b) {
            let i = choose|i: int| 0 <= i < s.len() && f(#[trigger] s[i]) == Some(b);
            if i < rest.len() {
                assert(f(rest[i]) == Some(b));
                assert(kept.contains(b));
                let k = choose|k: int| 0 <= k < kept.len() && kept[k] == b;
                assert(keep_map(s, f)[k] == b);
            } else {
                assert(keep_map(s, f).last() == b);
            }
        }
    }
}

/// Where something is kept of every item, what is kept stands in its place.
pub proof fn lemma_keep_map_of_all<A, B>(s: Seq<A>, f: spec_fn(A) -> Option<B>)
    requires
        forall|i: int| 0 <= i < s.len() ==> f(#[trigger] s[i]) is Some,
    ensures
        keep_map(s, f).len() == s.len(),
        forall|i: int| 0 <= i < s.len() ==> f(s[i]) == Some(#[trigger] keep_map(s, f)[i]),
    decreases s.len(),
{
    if s.len() > 0 {
        let before = s.drop_last();
        assert forall|i: int| 0 <= i < before.len() implies f(#[trigger] before[i]) is Some by {
            assert(before[i] == s[i]);
        }
        lemma_keep_map_of_all(before, f);
        assert(f(s[s.len() - 1]) is Some);
        assert forall|i: int| 0 <= i < s.len() implies f(s[i]) == Some(
            #[trigger] keep_map(s, f)[i],
        ) by {
            if i < before.len() {
                assert(before[i] == s[i]);
                assert(f(before[i]) == Some(keep_map(before, f)[i]));
            }
        }
    }
}

} // verus!
