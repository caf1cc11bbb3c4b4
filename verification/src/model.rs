//! What executable values mean: a string its characters, a vector the row of
//! what its items mean, and so on through the types that hold them.
use vstd::prelude::*;

verus! {

/// A value with a mathematical meaning, which contracts speak of.
pub trait Modelled {
    type Model;

    spec fn model(&self) -> Self::Model;
}

impl Modelled for String {
    type Model = Seq<char>;

    open spec fn model(&self) -> Seq<char> {
        self@
    }
}

impl Modelled for bool {
    type Model = bool;

    open spec fn model(&self) -> bool {
        *self
    }
}

impl Modelled for u8 {
    type Model = u8;

    open spec fn model(&self) -> u8 {
        *self
    }
}

impl Modelled for u32 {
    type Model = u32;

    open spec fn model(&self) -> u32 {
        *self
    }
}

impl Modelled for usize {
    type Model = usize;

    open spec fn model(&self) -> usize {
        *self
    }
}

impl Modelled for () {
    type Model = ();

    open spec fn model(&self) -> () {
        ()
    }
}

impl<T: Modelled> Modelled for Option<T> {
    type Model = Option<T::Model>;

    open spec fn model(&self) -> Option<T::Model> {
        match self {
            Some(t) => Some(t.model()),
            None => None,
        }
    }
}

impl<T: Modelled, E: Modelled> Modelled for Result<T, E> {
    type Model = Result<T::Model, E::Model>;

    open spec fn model(&self) -> Result<T::Model, E::Model> {
        match self {
            Ok(t) => Ok(t.model()),
            Err(e) => Err(e.model()),
        }
    }
}

impl<A: Modelled, B: Modelled> Modelled for (A, B) {
    type Model = (A::Model, B::Model);

    open spec fn model(&self) -> (A::Model, B::Model) {
        (self.0.model(), self.1.model())
    }
}

/// What each item of a row means.
pub open spec fn models<T: Modelled>(s: Seq<T>) -> Seq<T::Model> {
    Seq::new(s.len(), |i: int| s[i].model())
}

impl<T: Modelled> Modelled for Vec<T> {
    type Model = Seq<T::Model>;

    open spec fn model(&self) -> Seq<T::Model> {
        models(self@)
    }
}

/// What an optional borrowed text says.
pub open spec fn borrowed(word: Option<&str>) -> Option<Seq<char>> {
    match word {
        Some(w) => Some(w@),
        None => None,
    }
}

/// One more item adds its meaning at the end.
pub broadcast proof fn lemma_models_push<T: Modelled>(s: Seq<T>, x: T)
    ensures
        #[trigger] models(s.push(x)) == models(s).push(x.model()),
{
    assert(models(s.push(x)) =~= models(s).push(x.model()));
}

} // verus!
