//! Things kept under names, each name at most once.
use vstd::prelude::*;
use vstd::string::*;

use crate::model::{models, Modelled};
use crate::text;

verus! {

/// That the row at an index has a name.
pub open spec fn named<V>(rows: Seq<(Seq<char>, V)>, name: Seq<char>) -> spec_fn(int) -> bool {
    |i: int| rows[i].0 == name
}

/// Where a name stands, or the number of rows.
pub open spec fn row_of<V>(rows: Seq<(Seq<char>, V)>, name: Seq<char>) -> int {
    text::least(0, rows.len() as int, named(rows, name))
}

/// What is kept under a name.
pub open spec fn get<V>(rows: Seq<(Seq<char>, V)>, name: Seq<char>) -> Option<V> {
    let i = row_of(rows, name);
    if 0 <= i < rows.len() {
        Some(rows[i].1)
    } else {
        None
    }
}

/// The rows with `value` under `name`, in place of what was there.
pub open spec fn put<V>(rows: Seq<(Seq<char>, V)>, name: Seq<char>, value: V) -> Seq<
    (Seq<char>, V),
> {
    let i = row_of(rows, name);
    if 0 <= i < rows.len() {
        rows.update(i, (name, value))
    } else {
        rows.push((name, value))
    }
}

/// No name occurs twice.
pub open spec fn distinct<V>(rows: Seq<(Seq<char>, V)>) -> bool {
    forall|i: int, j: int|
        0 <= i < j < rows.len() ==> (#[trigger] rows[i]).0 != (#[trigger] rows[j]).0
}

/// Putting something under a name leaves every name once, gives it back under
/// that name, and changes nothing under the others.
pub proof fn put_and_get<V>(rows: Seq<(Seq<char>, V)>, name: Seq<char>, value: V)
    requires
        distinct(rows),
    ensures
        distinct(put(rows, name, value)),
        get(put(rows, name, value), name) == Some(value),
        forall|other: Seq<char>|
            other != name ==> #[trigger] get(put(rows, name, value), other) == get(rows, other),
{
    let i = row_of(rows, name);
    let after = put(rows, name, value);
    text::lemma_least(0, rows.len() as int, named(rows, name));
    if i < rows.len() {
        assert(rows[i].0 == name);
        assert forall|j: int| 0 <= j < i implies !#[trigger] named(after, name)(j) by {
            assert(!named(rows, name)(j));
        }
        text::lemma_least_is(0, after.len() as int, named(after, name), i);
    } else {
        assert forall|j: int| 0 <= j < i implies !#[trigger] named(after, name)(j) by {
            assert(!named(rows, name)(j));
        }
        assert forall|j: int| 0 <= j < rows.len() implies (#[trigger] rows[j]).0 != name by {
            assert(!named(rows, name)(j));
        }
        text::lemma_least_is(0, after.len() as int, named(after, name), i);
    }
    assert forall|other: Seq<char>| other != name implies #[trigger] get(after, other) == get(
        rows,
        other,
    ) by {
        let k = row_of(rows, other);
        text::lemma_least(0, rows.len() as int, named(rows, other));
        assert forall|j: int| 0 <= j < k implies !#[trigger] named(after, other)(j) by {
            assert(!named(rows, other)(j));
        }
        if k < rows.len() {
            assert(rows[k].0 == other);
            assert(named(after, other)(k));
            text::lemma_least_is(0, after.len() as int, named(after, other), k);
        } else {
            if i == rows.len() {
                assert(!named(after, other)(i));
            }
            text::lemma_least_is(0, after.len() as int, named(after, other), after.len() as int);
        }
    }
}

/// Where names are distinct, a row is what its name gives.
pub proof fn lemma_get_row<V>(rows: Seq<(Seq<char>, V)>, i: int)
    requires
        distinct(rows),
        0 <= i < rows.len(),
    ensures
        row_of(rows, rows[i].0) == i,
        get(rows, rows[i].0) == Some(rows[i].1),
{
    let p = named(rows, rows[i].0);
    assert(p(i));
    assert forall|j: int| 0 <= j < i implies !#[trigger] p(j) by {
        assert(rows[j].0 != rows[i].0);
    }
    text::lemma_least_is(0, rows.len() as int, p, i);
}

/// Things kept under names.
#[derive(Debug, PartialEq, Eq)]
pub struct Table<V> {
    pub rows: Vec<(String, V)>,
}

impl<V: Modelled> Modelled for Table<V> {
    type Model = Seq<(Seq<char>, V::Model)>;

    open spec fn model(&self) -> Seq<(Seq<char>, V::Model)> {
        models(self.rows@)
    }
}

impl<V: Modelled> Table<V> {
    pub fn new() -> (r: Self)
        ensures
            r.model() == Seq::<(Seq<char>, V::Model)>::empty(),
            distinct(r.model()),
    {
        let r: Table<V> = Table { rows: Vec::new() };
        assert(models(r.rows@) =~= Seq::empty());
        r
    }

    pub fn is_empty(&self) -> (r: bool)
        ensures
            r == (self.model().len() == 0),
    {
        self.rows.len() == 0
    }

    fn position(&self, name: &str) -> (r: usize)
        ensures
            r == row_of(self.model(), name@),
            r <= self.rows@.len(),
    {
        let ghost all = self.model();
        let ghost p = named(all, name@);
        let mut i: usize = 0;
        while i < self.rows.len()
            invariant
                i <= self.rows@.len(),
                all == models(self.rows@),
                p == named(all, name@),
                forall|j: int| 0 <= j < i ==> !#[trigger] p(j),
            decreases self.rows@.len() - i,
        {
            assert(all[i as int] == self.rows@[i as int].model());
            if text::same(&self.rows[i].0, name) {
                proof {
                    assert(p(i as int));
                    text::lemma_least_is(0, all.len() as int, p, i as int);
                }
                return i;
            }
            assert(!p(i as int));
            i += 1;
        }
        proof {
            text::lemma_least_is(0, all.len() as int, p, all.len() as int);
        }
        i
    }

    /// What is kept under `name`.
    pub fn get(&self, name: &str) -> (r: Option<&V>)
        ensures
            get(self.model(), name@) == (match r {
                Some(v) => Some(v.model()),
                None => None,
            }),
    {
        let i: usize = self.position(name);
        if i < self.rows.len() {
            assert(self.model()[i as int] == self.rows@[i as int].model());
            Some(&self.rows[i].1)
        } else {
            None
        }
    }

    /// Keeps `value` under `name`, in place of what was there.
    pub fn put(&mut self, name: String, value: V)
        ensures
            final(self).model() == put(old(self).model(), name@, value.model()),
            distinct(old(self).model()) ==> distinct(final(self).model()),
    {
        let ghost all = self.model();
        proof {
            if distinct(all) {
                put_and_get(all, name@, value.model());
            }
        }
        let i: usize = self.position(&name);
        let ghost row = (name, value);
        if i < self.rows.len() {
            self.rows.set(i, (name, value));
            assert(models(self.rows@) =~= all.update(i as int, row.model()));
        } else {
            self.rows.push((name, value));
            assert(models(self.rows@) =~= all.push(row.model()));
        }
    }
}

} // verus!
