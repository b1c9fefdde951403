//! A property that holds either one value or a sequence of values.

use vstd::prelude::*;
use vstd::std_specs::cmp::PartialEqSpec;

verus! {

/// Either a single value or an array of values (which may be empty or hold
/// exactly one element).
#[derive(Debug, Clone, PartialEq, Eq)]
pub enum OneOrMany<T> {
    /// A single value.
    One(T),
    /// An array of values.
    Many(Vec<T>),
}

impl<T> View for OneOrMany<T> {
    type V = Seq<T>;

    /// The values held, in stored order.
    open spec fn view(&self) -> Seq<T> {
        match self {
            OneOrMany::One(v) => seq![*v],
            OneOrMany::Many(vs) => vs@,
        }
    }
}

impl<T> OneOrMany<T> {
    /// Whether `f` holds of some value held; stops at the first match.
    pub fn any<F>(&self, f: F) -> (r: bool)
        where
            F: Fn(&T) -> bool,
        requires
            forall|i: int| 0 <= i < self@.len() ==> f.requires((&self@[i],)),
        ensures
            r ==> exists|i: int| 0 <= i < self@.len() && f.ensures((&self@[i],), true),
            !r ==> forall|i: int|
                0 <= i < self@.len() ==> f.ensures((&#[trigger] self@[i],), false),
    {
        match self {
            OneOrMany::One(value) => {
                assert(self@[0] == *value);
                f(value)
            },
            OneOrMany::Many(values) => {
                let mut i: usize = 0;
                while i < values.len()
                    invariant
                        self@ == values@,
                        0 <= i <= values@.len(),
                        forall|j: int| 0 <= j < values@.len() ==> f.requires((&values@[j],)),
                        forall|j: int| 0 <= j < i ==> f.ensures((&values@[j],), false),
                    decreases values@.len() - i,
                {
                    if f(&values[i]) {
                        assert(f.ensures((&self@[i as int],), true));
                        return true;
                    }
                    i = i + 1;
                }
                false
            },
        }
    }

    /// The number of values held: one for `One`, the array's length for `Many`.
    pub fn len(&self) -> (r: usize)
        ensures
            r == self@.len(),
    {
        match self {
            OneOrMany::One(_) => 1,
            OneOrMany::Many(values) => values.len(),
        }
    }

    /// Whether no value is held; never the case for `One`.
    pub fn is_empty(&self) -> (r: bool)
        ensures
            r == (self@.len() == 0),
            self is One ==> !r,
    {
        match self {
            OneOrMany::One(_) => false,
            OneOrMany::Many(values) => values.len() == 0,
        }
    }
    /// Whether some value held equals `x`.
    pub fn contains(&self, x: &T) -> (r: bool)
        where
            T: PartialEq,
        ensures
            T::obeys_eq_spec() ==> (r <==> exists|i: int|
                0 <= i < self@.len() && x.eq_spec(&self@[i])),
    {
        match self {
            OneOrMany::One(value) => {
                assert(self@[0] == *value);
                x.eq(value)
            },
            OneOrMany::Many(values) => {
                let mut i: usize = 0;
                while i < values.len()
                    invariant
                        self@ == values@,
                        0 <= i <= values@.len(),
                        T::obeys_eq_spec() ==> forall|j: int| 0 <= j < i ==> !x.eq_spec(&values@[j]),
                    decreases values@.len() - i,
                {
                    if x.eq(&values[i]) {
                        return true;
                    }
                    i = i + 1;
                }
                false
            },
        }
    }

    /// The first value held, if any.
    pub fn first(&self) -> (r: Option<&T>)
        ensures
            r is Some <==> self@.len() > 0,
            r is Some ==> *r->0 == self@[0],
    {
        match self {
            OneOrMany::One(value) => Some(value),
            OneOrMany::Many(values) => {
                if values.len() != 0 {
                    Some(&values[0])
                } else {
                    None
                }
            },
        }
    }

    /// The value held when exactly one is held (`One`, or `Many` of length
    /// one); `None` otherwise.
    pub fn to_single(&self) -> (r: Option<&T>)
        ensures
            r is Some <==> self@.len() == 1,
            r is Some ==> *r->0 == self@[0],
    {
        match self {
            OneOrMany::One(value) => Some(value),
            OneOrMany::Many(values) => {
                if values.len() == 1 {
                    Some(&values[0])
                } else {
                    None
                }
            },
        }
    }

    /// Mutable access to the value held when exactly one is held; `None`
    /// otherwise. Writing through the reference replaces that value and
    /// keeps the variant.
    pub fn to_single_mut(&mut self) -> (r: Option<&mut T>)
        ensures
            r is Some <==> old(self)@.len() == 1,
            match r {
                Some(x) => {
                    &&& *x == old(self)@[0]
                    &&& *old(self) is One ==> *final(self) == OneOrMany::One(*final(x))
                    &&& *old(self) is Many ==> *final(self) is Many && final(self)@ == seq![
                        *final(x),
                    ]
                },
                None => *final(self) == *old(self),
            },
    {
        match self {
            OneOrMany::One(value) => Some(value),
            OneOrMany::Many(values) => {
                if values.len() == 1 {
                    Some(&mut values[0])
                } else {
                    None
                }
            },
        }
    }

    /// The values held, in stored order, consuming the container.
    pub fn into_vec(self) -> (r: Vec<T>)
        ensures
            r@ == self@,
    {
        match self {
            OneOrMany::One(value) => vec![value],
            OneOrMany::Many(values) => values,
        }
    }

    /// The value at position `i` in stored order, if there is one; walking
    /// `i` from zero up to `len()` visits every value without consuming the
    /// container.
    pub fn get(&self, i: usize) -> (r: Option<&T>)
        ensures
            r is Some <==> i < self@.len(),
            r is Some ==> *r->0 == self@[i as int],
    {
        match self {
            OneOrMany::One(value) => {
                if i == 0 {
                    Some(value)
                } else {
                    None
                }
            },
            OneOrMany::Many(values) => {
                if i < values.len() {
                    Some(&values[i])
                } else {
                    None
                }
            },
        }
    }
}

} // verus!
