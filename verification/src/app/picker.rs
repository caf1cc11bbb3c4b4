//! Lists that keys work: which row is meant, what is ticked, what is typed.
//!
//! A list is drawn elsewhere; here a key leads from one state of it to the
//! next, or to its end.
use vstd::prelude::*;
use vstd::string::*;

use crate::model::{models, Modelled};
use crate::rows;
use crate::talk::{Picked, Row};
use crate::text;

verus! {

/// A key pressed at a list.
#[derive(Clone, Copy, Debug, PartialEq, Eq, Structural)]
pub enum PickKey {
    Up,
    Down,
    Left,
    Right,
    Enter,
    Escape,
    Interrupt,
    Backspace,
    Char(char),
    Other,
}

/// The rows of a list, as they are meant.
pub type Rows = Seq<Row<Seq<char>>>;

// ---------------------------------------------------------------------------
// Moving
// ---------------------------------------------------------------------------

/// Which rows can be selected.
pub open spec fn selectable(rows: Rows) -> Seq<bool> {
    Seq::new(rows.len(), |i: int| rows[i].selectable)
}

/// The row before or after one of `n`, around the end.
pub open spec fn beside(n: nat, at: int, down: bool) -> int {
    if down {
        if at + 1 >= n {
            0
        } else {
            at + 1
        }
    } else if at <= 0 {
        n - 1
    } else {
        at - 1
    }
}

/// The first row that can be selected among the next `tries` from `from` on,
/// or `home` where none can.
pub open spec fn sought(open: Seq<bool>, from: int, down: bool, tries: nat, home: int) -> int
    decreases tries,
{
    let i = beside(open.len(), from, down);
    if tries == 0 {
        home
    } else if 0 <= i < open.len() && open[i] {
        i
    } else {
        sought(open, i, down, (tries - 1) as nat, home)
    }
}

/// Where moving up or down leads: to the next row that can be selected, around
/// the end if need be. Where there is none it leads nowhere.
pub open spec fn moved(open: Seq<bool>, at: int, down: bool) -> int {
    sought(open, at, down, open.len(), at)
}

pub fn move_from(open: &[bool], at: usize, down: bool) -> (r: usize)
    requires
        at < open@.len(),
    ensures
        r == moved(open@, at as int, down),
        r < open@.len(),
{
    let n: usize = open.len();
    let mut from: usize = at;
    let mut tries: usize = n;
    while tries > 0
        invariant
            n == open@.len(),
            tries <= n,
            from < n,
            at < n,
            moved(open@, at as int, down) == sought(
                open@,
                from as int,
                down,
                tries as nat,
                at as int,
            ),
        decreases tries,
    {
        let i: usize = if down {
            if from + 1 >= n {
                0
            } else {
                from + 1
            }
        } else if from == 0 {
            n - 1
        } else {
            from - 1
        };
        if open[i] {
            return i;
        }
        from = i;
        tries -= 1;
    }
    at
}

proof fn lemma_sought(open: Seq<bool>, from: int, down: bool, tries: nat, home: int)
    ensures
        ({
            let r = sought(open, from, down, tries, home);
            r == home || (0 <= r < open.len() && open[r])
        }),
    decreases tries,
{
    if tries > 0 {
        lemma_sought(open, beside(open.len(), from, down), down, (tries - 1) as nat, home);
    }
}

/// Moving never ends on a row that cannot be selected, unless it ends where it
/// began.
pub proof fn moving_ends_on_a_selectable_row(open: Seq<bool>, at: int, down: bool)
    ensures
        moved(open, at, down) == at || (0 <= moved(open, at, down) < open.len() && open[moved(
            open,
            at,
            down,
        )]),
{
    lemma_sought(open, at, down, open.len(), at);
}

/// That the row at an index can be selected.
pub open spec fn is_open(open: Seq<bool>) -> spec_fn(int) -> bool {
    |i: int| open[i]
}

/// The row that a list starts on: the first that can be selected, or the first.
pub open spec fn first_open(open: Seq<bool>) -> int {
    let i = text::least(0, open.len() as int, is_open(open));
    if i < open.len() {
        i
    } else {
        0
    }
}

pub fn find_first_open(open: &[bool]) -> (r: usize)
    ensures
        r == first_open(open@),
        open@.len() > 0 ==> r < open@.len(),
{
    let ghost p = is_open(open@);
    let mut i: usize = 0;
    while i < open.len()
        invariant
            i <= open@.len(),
            p == is_open(open@),
            forall|j: int| 0 <= j < i ==> !#[trigger] p(j),
        decreases open@.len() - i,
    {
        if open[i] {
            proof {
                assert(p(i as int));
                text::lemma_least_is(0, open@.len() as int, p, i as int);
            }
            return i;
        }
        assert(!p(i as int));
        i += 1;
    }
    proof {
        text::lemma_least_is(0, open@.len() as int, p, open@.len() as int);
    }
    0
}

pub fn open_rows(rows: &[Row]) -> (r: Vec<bool>)
    ensures
        r@ == selectable(models(rows@)),
{
    let mut r: Vec<bool> = Vec::new();
    let mut i: usize = 0;
    while i < rows.len()
        invariant
            i <= rows@.len(),
            r@.len() == i,
            forall|j: int| 0 <= j < i ==> #[trigger] r@[j] == rows@[j].selectable,
        decreases rows@.len() - i,
    {
        r.push(rows[i].selectable);
        i += 1;
    }
    assert(r@ =~= selectable(models(rows@)));
    r
}

// ---------------------------------------------------------------------------
// Ticking
// ---------------------------------------------------------------------------

/// What a key does to a list whose rows are ticked.
#[derive(Debug, PartialEq, Eq)]
pub enum TickStep<T = Vec<bool>, C = Vec<usize>> {
    /// It goes on, with these rows ticked and this one meant.
    Show { ticked: T, at: usize },
    /// It ends with these rows.
    Chosen(C),
    /// It was left.
    Quit,
    Interrupted,
}

/// What a [`TickStep`] means.
pub type Ticking = TickStep<Seq<bool>, Seq<usize>>;

impl Modelled for TickStep {
    type Model = Ticking;

    open spec fn model(&self) -> Ticking {
        match self {
            TickStep::Show { ticked, at } => TickStep::Show { ticked: ticked@, at: *at },
            TickStep::Chosen(rows) => TickStep::Chosen(rows@),
            TickStep::Quit => TickStep::Quit,
            TickStep::Interrupted => TickStep::Interrupted,
        }
    }
}

/// What is ticked when a list is opened.
pub open spec fn ticked_at_first(rows: Rows) -> Seq<bool> {
    Seq::new(rows.len(), |i: int| rows[i].ticked && rows[i].selectable)
}

pub fn first_ticks(rows: &[Row]) -> (r: Vec<bool>)
    ensures
        r@ == ticked_at_first(models(rows@)),
{
    let mut r: Vec<bool> = Vec::new();
    let mut i: usize = 0;
    while i < rows.len()
        invariant
            i <= rows@.len(),
            r@.len() == i,
            forall|j: int|
                0 <= j < i ==> #[trigger] r@[j] == (rows@[j].ticked && rows@[j].selectable),
        decreases rows@.len() - i,
    {
        r.push(rows[i].ticked && rows[i].selectable);
        i += 1;
    }
    assert(r@ =~= ticked_at_first(models(rows@)));
    r
}

/// The first `n` rows that are ticked and can be, in their order.
pub open spec fn ticked_among(rows: Rows, ticked: Seq<bool>, n: nat) -> Seq<usize>
    decreases n,
{
    if n == 0 {
        Seq::empty()
    } else {
        let before = ticked_among(rows, ticked, (n - 1) as nat);
        if ticked[n - 1] && rows[n - 1].selectable {
            before.push((n - 1) as usize)
        } else {
            before
        }
    }
}

/// What a key does to a list of rows to tick: the arrows move and tick all or
/// none, space ticks or unticks the row that is meant, Enter takes what is
/// ticked.
pub open spec fn ticked_after_spec(
    rows: Rows,
    ticked: Seq<bool>,
    at: usize,
    key: PickKey,
) -> Ticking {
    let same = TickStep::Show { ticked, at };
    match key {
        PickKey::Up | PickKey::Down => if at < rows.len() {
            TickStep::Show {
                ticked,
                at: moved(selectable(rows), at as int, key == PickKey::Down) as usize,
            }
        } else {
            same
        },
        PickKey::Left => TickStep::Show { ticked: Seq::new(rows.len(), |i: int| false), at },
        PickKey::Right => TickStep::Show { ticked: selectable(rows), at },
        PickKey::Char(c) => if c == ' ' && at < rows.len() && rows[at as int].selectable {
            TickStep::Show { ticked: ticked.update(at as int, !ticked[at as int]), at }
        } else {
            same
        },
        PickKey::Enter => TickStep::Chosen(ticked_among(rows, ticked, rows.len())),
        PickKey::Escape => TickStep::Quit,
        PickKey::Interrupt => TickStep::Interrupted,
        PickKey::Backspace | PickKey::Other => same,
    }
}

fn copied(flags: &[bool]) -> (r: Vec<bool>)
    ensures
        r@ == flags@,
{
    let mut r: Vec<bool> = Vec::new();
    let mut i: usize = 0;
    while i < flags.len()
        invariant
            i <= flags@.len(),
            r@ == flags@.take(i as int),
        decreases flags@.len() - i,
    {
        r.push(flags[i]);
        i += 1;
        assert(r@ =~= flags@.take(i as int));
    }
    assert(r@ =~= flags@);
    r
}

fn none_of(rows: &[Row]) -> (r: Vec<bool>)
    ensures
        r@ == Seq::new(rows@.len(), |i: int| false),
{
    let mut r: Vec<bool> = Vec::new();
    let mut i: usize = 0;
    while i < rows.len()
        invariant
            i <= rows@.len(),
            r@.len() == i,
            forall|j: int| 0 <= j < i ==> !#[trigger] r@[j],
        decreases rows@.len() - i,
    {
        r.push(false);
        i += 1;
    }
    assert(r@ =~= Seq::new(rows@.len(), |i: int| false));
    r
}

fn rows_ticked(rows: &[Row], ticked: &[bool]) -> (r: Vec<usize>)
    requires
        ticked@.len() == rows@.len(),
    ensures
        r@ == ticked_among(models(rows@), ticked@, rows@.len()),
{
    let ghost all = models(rows@);
    let mut r: Vec<usize> = Vec::new();
    let mut i: usize = 0;
    while i < rows.len()
        invariant
            i <= rows@.len(),
            ticked@.len() == rows@.len(),
            all == models(rows@),
            r@ == ticked_among(all, ticked@, i as nat),
        decreases rows@.len() - i,
    {
        assert(all[i as int] == rows@[i as int].model());
        if ticked[i] && rows[i].selectable {
            r.push(i);
        }
        i += 1;
    }
    r
}

/// What a key does to a list of rows to tick.
pub fn ticked_after(rows: &[Row], ticked: &[bool], at: usize, key: PickKey) -> (r: TickStep)
    requires
        ticked@.len() == rows@.len(),
    ensures
        r.model() == ticked_after_spec(models(rows@), ticked@, at, key),
{
    let ghost all = models(rows@);
    match key {
        PickKey::Up | PickKey::Down => {
            if at < rows.len() {
                let down: bool = match key {
                    PickKey::Down => true,
                    _ => false,
                };
                let at: usize = move_from(&open_rows(rows), at, down);
                return TickStep::Show { ticked: copied(ticked), at };
            }
        },
        PickKey::Left => {
            let ticked: Vec<bool> = none_of(rows);
            assert(ticked@ =~= Seq::new(all.len(), |i: int| false));
            return TickStep::Show { ticked, at };
        },
        PickKey::Right => return TickStep::Show { ticked: open_rows(rows), at },
        PickKey::Char(c) => {
            if c == ' ' && at < rows.len() {
                assert(all[at as int] == rows@[at as int].model());
                if rows[at].selectable {
                    let mut toggled: Vec<bool> = copied(ticked);
                    let tick: bool = !ticked[at];
                    toggled.set(at, tick);
                    return TickStep::Show { ticked: toggled, at };
                }
            }
        },
        PickKey::Enter => return TickStep::Chosen(rows_ticked(rows, ticked)),
        PickKey::Escape => return TickStep::Quit,
        PickKey::Interrupt => return TickStep::Interrupted,
        PickKey::Backspace | PickKey::Other => {},
    }
    TickStep::Show { ticked: copied(ticked), at }
}

/// That nothing is ticked that cannot be selected.
pub open spec fn ticks_fit(rows: Rows, ticked: Seq<bool>) -> bool {
    ticked.len() == rows.len() && forall|i: int|
        0 <= i < rows.len() && #[trigger] ticked[i] ==> rows[i].selectable
}

proof fn lemma_ticked_among(rows: Rows, ticked: Seq<bool>, n: nat)
    requires
        n <= rows.len() <= usize::MAX,
        ticked.len() == rows.len(),
    ensures
        forall|k: int|
            0 <= k < ticked_among(rows, ticked, n).len() ==> {
                let row = #[trigger] ticked_among(rows, ticked, n)[k];
                row < n && ticked[row as int] && rows[row as int].selectable
            },
        forall|k: int, l: int|
            0 <= k < l < ticked_among(rows, ticked, n).len() ==> #[trigger] ticked_among(
                rows,
                ticked,
                n,
            )[k] < #[trigger] ticked_among(rows, ticked, n)[l],
        forall|row: usize|
            row < n && ticked[row as int] && rows[row as int].selectable
                ==> #[trigger] ticked_among(rows, ticked, n).contains(row),
    decreases n,
{
    if n > 0 {
        lemma_ticked_among(rows, ticked, (n - 1) as nat);
        let before = ticked_among(rows, ticked, (n - 1) as nat);
        let after = ticked_among(rows, ticked, n);
        assert forall|row: usize|
            row < n && ticked[row as int] && rows[row as int].selectable implies #[trigger]
            after.contains(row) by {
            if row < n - 1 {
                assert(before.contains(row));
                let k = choose|k: int| 0 <= k < before.len() && before[k] == row;
                assert(after[k] == row);
            } else {
                assert(after.last() == row);
            }
        }
    }
}

/// No key ever ticks a row that cannot be selected, and Enter takes exactly
/// the rows that are ticked, each once and in their order.
pub proof fn only_selectable_rows_are_ticked(
    rows: Rows,
    ticked: Seq<bool>,
    at: usize,
    key: PickKey,
)
    requires
        ticks_fit(rows, ticked),
        rows.len() <= usize::MAX,
    ensures
        ticks_fit(rows, ticked_at_first(rows)),
        ticked_after_spec(rows, ticked, at, key) matches TickStep::Show { ticked, .. }
            ==> ticks_fit(rows, ticked),
        ticked_after_spec(rows, ticked, at, key) matches TickStep::Chosen(chosen) ==> {
            &&& forall|row: usize| #[trigger]
                chosen.contains(row) <==> row < rows.len() && ticked[row as int]
            &&& forall|k: int, l: int|
                0 <= k < l < chosen.len() ==> #[trigger] chosen[k] < #[trigger] chosen[l]
        },
{
    lemma_ticked_among(rows, ticked, rows.len());
    if let TickStep::Chosen(chosen) = ticked_after_spec(rows, ticked, at, key) {
        assert forall|row: usize| #[trigger] chosen.contains(row) <==> row < rows.len()
            && ticked[row as int] by {
            if chosen.contains(row) {
                let k = choose|k: int| 0 <= k < chosen.len() && chosen[k] == row;
                assert(ticked_among(rows, ticked, rows.len())[k] == row);
            }
        }
    }
}

// ---------------------------------------------------------------------------
// Filtering
// ---------------------------------------------------------------------------

/// Whether two characters are the same letter, large or small.
pub open spec fn alike(a: char, b: char) -> bool {
    ||| a == b
    ||| 'A' <= a <= 'Z' && b as u32 == a as u32 + 32
    ||| 'A' <= b <= 'Z' && a as u32 == b as u32 + 32
}

fn are_alike(a: char, b: char) -> (r: bool)
    ensures
        r == alike(a, b),
{
    let x: u32 = a as u32;
    let y: u32 = b as u32;
    a == b || ('A' <= a && a <= 'Z' && y == x + 32) || ('A' <= b && b <= 'Z' && x == y + 32)
}

/// Whether the characters of a filter occur in a name, in their order, with
/// whatever else between them.
pub open spec fn fits(name: Seq<char>, filter: Seq<char>) -> bool
    decreases name.len(),
{
    if filter.len() == 0 {
        true
    } else if name.len() == 0 {
        false
    } else if alike(name.last(), filter.last()) {
        fits(name.drop_last(), filter.drop_last())
    } else {
        fits(name.drop_last(), filter)
    }
}

fn is_fit(name: &str, filter: &str) -> (r: bool)
    ensures
        r == fits(name@, filter@),
{
    let n: Vec<char> = text::chars_of(name);
    let f: Vec<char> = text::chars_of(filter);
    let mut i: usize = n.len();
    let mut j: usize = f.len();
    proof {
        rows::lemma_take_all(n@);
        rows::lemma_take_all(f@);
    }
    while i > 0 && j > 0
        invariant
            i <= n@.len(),
            j <= f@.len(),
            fits(name@, filter@) == fits(n@.take(i as int), f@.take(j as int)),
        decreases i,
    {
        assert(n@.take(i as int).drop_last() =~= n@.take(i - 1));
        assert(f@.take(j as int).drop_last() =~= f@.take(j - 1));
        assert(n@.take(i as int).last() == n@[i - 1]);
        assert(f@.take(j as int).last() == f@[j - 1]);
        if are_alike(n[i - 1], f[j - 1]) {
            j -= 1;
        }
        i -= 1;
    }
    j == 0
}

/// A name fits a filter exactly if the filter's characters can be found in it,
/// one behind the other.
pub proof fn a_filter_is_found_in_order(name: Seq<char>, filter: Seq<char>)
    ensures
        fits(name, filter) <==> exists|places: Seq<int>| #[trigger] found_at(name, filter, places),
    decreases name.len(),
{
    let none: Seq<int> = Seq::empty();
    if filter.len() == 0 {
        assert(found_at(name, filter, none));
    } else if name.len() == 0 {
        assert forall|places: Seq<int>| !#[trigger] found_at(name, filter, places) by {
            if found_at(name, filter, places) {
                assert(0 <= places[0] < name.len());
            }
        }
    } else {
        let shorter = name.drop_last();
        let last = name.len() - 1;
        if alike(name.last(), filter.last()) {
            let rest = filter.drop_last();
            a_filter_is_found_in_order(shorter, rest);
            if fits(shorter, rest) {
                let places = choose|places: Seq<int>| #[trigger] found_at(shorter, rest, places);
                assert(found_at(name, filter, places.push(last)));
            }
            if exists|places: Seq<int>| #[trigger] found_at(name, filter, places) {
                let places = choose|places: Seq<int>| #[trigger] found_at(name, filter, places);
                assert forall|k: int| 0 <= k < rest.len() implies 0 <= #[trigger] places.drop_last()[k]
                    < shorter.len() by {
                    assert(places[k] < places[filter.len() - 1]);
                }
                assert(found_at(shorter, rest, places.drop_last()));
            }
        } else {
            a_filter_is_found_in_order(shorter, filter);
            if fits(shorter, filter) {
                let places = choose|places: Seq<int>| #[trigger] found_at(shorter, filter, places);
                assert(found_at(name, filter, places));
            }
            if exists|places: Seq<int>| #[trigger] found_at(name, filter, places) {
                let places = choose|places: Seq<int>| #[trigger] found_at(name, filter, places);
                assert(places[filter.len() - 1] != last);
                assert forall|k: int| 0 <= k < filter.len() implies 0 <= #[trigger] places[k]
                    < shorter.len() by {
                    if k < filter.len() - 1 {
                        assert(places[k] < places[filter.len() - 1]);
                    }
                }
                assert(found_at(shorter, filter, places));
            }
        }
    }
}

/// That the characters of a filter stand at these places of a name, which
/// follow one another.
pub open spec fn found_at(name: Seq<char>, filter: Seq<char>, places: Seq<int>) -> bool {
    &&& places.len() == filter.len()
    &&& forall|k: int|
        0 <= k < places.len() ==> 0 <= #[trigger] places[k] < name.len() && alike(
            name[places[k]],
            filter[k],
        )
    &&& forall|k: int, l: int|
        0 <= k < l < places.len() ==> #[trigger] places[k] < #[trigger] places[l]
}

/// The first `n` rows whose names fit a filter, in their order.
pub open spec fn fitting(rows: Rows, filter: Seq<char>, n: nat) -> Seq<usize>
    decreases n,
{
    if n == 0 {
        Seq::empty()
    } else {
        let before = fitting(rows, filter, (n - 1) as nat);
        if fits(rows[n - 1].name, filter) {
            before.push((n - 1) as usize)
        } else {
            before
        }
    }
}

/// The rows that a list shows under a filter.
pub open spec fn visible(rows: Rows, filter: Seq<char>) -> Seq<usize> {
    fitting(rows, filter, rows.len())
}

pub fn visible_rows(rows: &[Row], filter: &str) -> (r: Vec<usize>)
    ensures
        r@ == visible(models(rows@), filter@),
        forall|k: int| 0 <= k < r@.len() ==> #[trigger] r@[k] < rows@.len(),
{
    let ghost all = models(rows@);
    let mut r: Vec<usize> = Vec::new();
    let mut i: usize = 0;
    while i < rows.len()
        invariant
            i <= rows@.len(),
            all == models(rows@),
            r@ == fitting(all, filter@, i as nat),
            forall|k: int| 0 <= k < r@.len() ==> #[trigger] r@[k] < i,
        decreases rows@.len() - i,
    {
        assert(all[i as int] == rows@[i as int].model());
        if is_fit(&rows[i].name, filter) {
            r.push(i);
        }
        i += 1;
    }
    r
}

// ---------------------------------------------------------------------------
// Picking
// ---------------------------------------------------------------------------

/// What is typed into a list, and which of the rows shown is meant, once an
/// arrow has said so.
#[derive(Debug, PartialEq, Eq)]
pub struct PickState<S = String> {
    pub filter: S,
    pub at: Option<usize>,
}

impl Modelled for PickState {
    type Model = PickState<Seq<char>>;

    open spec fn model(&self) -> PickState<Seq<char>> {
        PickState { filter: self.filter@, at: self.at }
    }
}

/// What a key does to a list to pick from.
#[derive(Debug, PartialEq, Eq)]
pub enum PickStep<S = String> {
    Show(PickState<S>),
    Done(Picked<S>),
    /// It was left.
    Quit,
    Interrupted,
}

impl Modelled for PickStep {
    type Model = PickStep<Seq<char>>;

    open spec fn model(&self) -> PickStep<Seq<char>> {
        match self {
            PickStep::Show(state) => PickStep::Show(state.model()),
            PickStep::Done(picked) => PickStep::Done(picked.model()),
            PickStep::Quit => PickStep::Quit,
            PickStep::Interrupted => PickStep::Interrupted,
        }
    }
}

/// Which of the rows shown can be selected.
pub open spec fn open_among(rows: Rows, shown: Seq<usize>) -> Seq<bool> {
    Seq::new(shown.len(), |k: int| rows[shown[k] as int].selectable)
}

/// That a row shown starts out marked.
pub open spec fn marked_among(rows: Rows, shown: Seq<usize>) -> spec_fn(int) -> bool {
    |k: int| rows[shown[k] as int].ticked
}

/// Which of the rows shown is meant: the one an arrow led to; with nothing
/// typed, the one that is marked; otherwise the first that can be selected.
pub open spec fn meant(rows: Rows, state: PickState<Seq<char>>) -> Option<usize> {
    let shown = visible(rows, state.filter);
    let marked = text::least(0, shown.len() as int, marked_among(rows, shown));
    if shown.len() == 0 {
        None
    } else if state.at is Some && state.at->0 < shown.len() {
        state.at
    } else if state.filter.len() == 0 && marked < shown.len() {
        Some(marked as usize)
    } else {
        Some(first_open(open_among(rows, shown)) as usize)
    }
}

fn open_shown(rows: &[Row], shown: &[usize]) -> (r: Vec<bool>)
    requires
        forall|k: int| 0 <= k < shown@.len() ==> #[trigger] shown@[k] < rows@.len(),
    ensures
        r@ == open_among(models(rows@), shown@),
{
    let ghost all = models(rows@);
    let mut r: Vec<bool> = Vec::new();
    let mut i: usize = 0;
    while i < shown.len()
        invariant
            i <= shown@.len(),
            all == models(rows@),
            r@.len() == i,
            forall|k: int| 0 <= k < shown@.len() ==> #[trigger] shown@[k] < rows@.len(),
            forall|k: int| 0 <= k < i ==> #[trigger] r@[k] == all[shown@[k] as int].selectable,
        decreases shown@.len() - i,
    {
        let row: usize = shown[i];
        assert(all[row as int] == rows@[row as int].model());
        r.push(rows[row].selectable);
        i += 1;
    }
    assert(r@ =~= open_among(all, shown@));
    r
}

fn find_marked(rows: &[Row], shown: &[usize]) -> (r: usize)
    requires
        forall|k: int| 0 <= k < shown@.len() ==> #[trigger] shown@[k] < rows@.len(),
    ensures
        r == text::least(0, shown@.len() as int, marked_among(models(rows@), shown@)),
        r <= shown@.len(),
{
    let ghost all = models(rows@);
    let ghost p = marked_among(all, shown@);
    let mut i: usize = 0;
    while i < shown.len()
        invariant
            i <= shown@.len(),
            all == models(rows@),
            p == marked_among(all, shown@),
            forall|k: int| 0 <= k < shown@.len() ==> #[trigger] shown@[k] < rows@.len(),
            forall|k: int| 0 <= k < i ==> !#[trigger] p(k),
        decreases shown@.len() - i,
    {
        let row: usize = shown[i];
        assert(all[row as int] == rows@[row as int].model());
        if rows[row].ticked {
            proof {
                assert(p(i as int));
                text::lemma_least_is(0, shown@.len() as int, p, i as int);
            }
            return i;
        }
        assert(!p(i as int));
        i += 1;
    }
    proof {
        text::lemma_least_is(0, shown@.len() as int, p, shown@.len() as int);
    }
    i
}

/// Which of the rows shown is meant.
pub fn meant_row(rows: &[Row], state: &PickState) -> (r: Option<usize>)
    ensures
        r == meant(models(rows@), state.model()),
        r matches Some(k) ==> k < visible(models(rows@), state.model().filter).len(),
{
    let shown: Vec<usize> = visible_rows(rows, &state.filter);
    if shown.len() == 0 {
        return None;
    }
    if let Some(at) = state.at {
        if at < shown.len() {
            return Some(at);
        }
    }
    if state.filter.as_str().is_empty() {
        let marked: usize = find_marked(rows, &shown);
        if marked < shown.len() {
            return Some(marked);
        }
    }
    let open: Vec<bool> = open_shown(rows, &shown);
    Some(find_first_open(&open))
}

/// What a key does to a list to pick from: what is typed narrows it, the
/// arrows move, and Enter takes the row that is meant. Where nothing fits what
/// was typed, Enter takes that as the name of something new, if it may.
pub open spec fn picked_after_spec(
    rows: Rows,
    state: PickState<Seq<char>>,
    key: PickKey,
    allow_create: bool,
) -> PickStep<Seq<char>> {
    let shown = visible(rows, state.filter);
    let same = PickStep::Show(state);
    match key {
        PickKey::Up | PickKey::Down => match meant(rows, state) {
            None => same,
            Some(at) => PickStep::Show(
                PickState {
                    filter: state.filter,
                    at: Some(
                        moved(open_among(rows, shown), at as int, key == PickKey::Down) as usize,
                    ),
                },
            ),
        },
        PickKey::Enter => match meant(rows, state) {
            Some(at) => {
                let row = rows[shown[at as int] as int];
                if row.selectable {
                    PickStep::Done(Picked::Existing(row.name))
                } else {
                    same
                }
            },
            None => if allow_create && state.filter.len() > 0 {
                PickStep::Done(Picked::Create(state.filter))
            } else {
                same
            },
        },
        PickKey::Backspace => PickStep::Show(
            PickState {
                filter: if state.filter.len() > 0 {
                    state.filter.drop_last()
                } else {
                    state.filter
                },
                at: None,
            },
        ),
        PickKey::Char(c) => PickStep::Show(PickState { filter: state.filter.push(c), at: None }),
        PickKey::Escape => PickStep::Quit,
        PickKey::Interrupt => PickStep::Interrupted,
        PickKey::Left | PickKey::Right | PickKey::Other => same,
    }
}

fn shortened(filter: &str) -> (r: String)
    ensures
        r@ == (if filter@.len() > 0 {
            filter@.drop_last()
        } else {
            filter@
        }),
{
    let cs: Vec<char> = text::chars_of(filter);
    if cs.len() == 0 {
        return filter.to_owned();
    }
    let r: String = text::piece(&cs, 0, cs.len() - 1);
    assert(r@ =~= filter@.drop_last());
    r
}

/// What a key does to a list to pick from.
pub fn picked_after(rows: &[Row], state: &PickState, key: PickKey, allow_create: bool) -> (r:
    PickStep)
    ensures
        r.model() == picked_after_spec(models(rows@), state.model(), key, allow_create),
{
    let ghost all = models(rows@);
    match key {
        PickKey::Up | PickKey::Down => {
            if let Some(at) = meant_row(rows, state) {
                let shown: Vec<usize> = visible_rows(rows, &state.filter);
                let open: Vec<bool> = open_shown(rows, &shown);
                let down: bool = match key {
                    PickKey::Down => true,
                    _ => false,
                };
                let to: usize = move_from(&open, at, down);
                return PickStep::Show(
                    PickState { filter: state.filter.clone(), at: Some(to) },
                );
            }
        },
        PickKey::Enter => match meant_row(rows, state) {
            Some(at) => {
                let shown: Vec<usize> = visible_rows(rows, &state.filter);
                let row: usize = shown[at];
                assert(all[row as int] == rows@[row as int].model());
                if rows[row].selectable {
                    return PickStep::Done(Picked::Existing(rows[row].name.clone()));
                }
            },
            None => {
                if allow_create && !state.filter.as_str().is_empty() {
                    return PickStep::Done(Picked::Create(state.filter.clone()));
                }
            },
        },
        PickKey::Backspace => {
            return PickStep::Show(PickState { filter: shortened(&state.filter), at: None });
        },
        PickKey::Char(c) => {
            let mut filter: String = state.filter.clone();
            filter.push(c);
            return PickStep::Show(PickState { filter, at: None });
        },
        PickKey::Escape => return PickStep::Quit,
        PickKey::Interrupt => return PickStep::Interrupted,
        PickKey::Left | PickKey::Right | PickKey::Other => {},
    }
    PickStep::Show(PickState { filter: state.filter.clone(), at: state.at })
}

proof fn lemma_fitting(rows: Rows, filter: Seq<char>, n: nat)
    requires
        n <= rows.len() <= usize::MAX,
    ensures
        forall|k: int|
            0 <= k < fitting(rows, filter, n).len() ==> {
                let row = #[trigger] fitting(rows, filter, n)[k];
                row < n && fits(rows[row as int].name, filter)
            },
        fitting(rows, filter, n).len() == 0 ==> forall|i: int|
            0 <= i < n ==> !fits((#[trigger] rows[i]).name, filter),
        fitting(rows, filter, n).len() <= n,
    decreases n,
{
    if n > 0 {
        lemma_fitting(rows, filter, (n - 1) as nat);
    }
}

/// What is picked is a row of the list that can be selected and fits what was
/// typed. Something new is picked only where that is allowed, under the name
/// that was typed, and only if no row fits it.
pub proof fn a_pick_is_a_selectable_row_or_new(
    rows: Rows,
    state: PickState<Seq<char>>,
    key: PickKey,
    allow_create: bool,
)
    requires
        rows.len() <= usize::MAX,
    ensures
        picked_after_spec(rows, state, key, allow_create) matches PickStep::Done(
            Picked::Existing(name),
        ) ==> exists|i: int|
            0 <= i < rows.len() && (#[trigger] rows[i]).name == name && rows[i].selectable && fits(
                name,
                state.filter,
            ),
        picked_after_spec(rows, state, key, allow_create) matches PickStep::Done(
            Picked::Create(name),
        ) ==> allow_create && name == state.filter && name.len() > 0 && forall|i: int|
            0 <= i < rows.len() ==> !fits((#[trigger] rows[i]).name, name),
{
    let shown = visible(rows, state.filter);
    let marks = marked_among(rows, shown);
    let open = open_among(rows, shown);
    lemma_fitting(rows, state.filter, rows.len());
    text::lemma_least(0, shown.len() as int, marks);
    text::lemma_least(0, open.len() as int, is_open(open));
    if let Some(at) = meant(rows, state) {
        assert(shown[at as int] < rows.len());
    }
}

} // verus!
