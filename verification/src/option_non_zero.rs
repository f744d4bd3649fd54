//! An optional number that travels as a plain number, with zero standing
//! for its absence.

use vstd::prelude::*;
use vstd::std_specs::cmp::PartialEqSpec;

verus! {

/// To be used in place of an optional non-zero number where the wire knows
/// no absence: `None` is written as the zero of `P`, and a zero that is read
/// is taken for `None`.
#[derive(Clone, Copy, Debug)]
pub struct OptionNonZero<P>(Option<P>);

impl<P> View for OptionNonZero<P> {
    type V = Option<P>;

    closed spec fn view(&self) -> Option<P> {
        self.0
    }
}

impl<P> Default for OptionNonZero<P> {
    fn default() -> (value: Self)
        ensures
            value@ is None,
    {
        OptionNonZero(None)
    }
}

impl<P> OptionNonZero<P> {
    /// The wrapper of a number, or of none.
    pub fn new(value: Option<P>) -> (wrapped: Self)
        ensures
            wrapped@ == value,
    {
        OptionNonZero(value)
    }

    /// The number that is wrapped, if there is one.
    pub fn get(self) -> (value: Option<P>)
        ensures
            value == self@,
    {
        self.0
    }

    /// Forgets the number.
    pub fn clear(val: &mut Self)
        ensures
            final(val)@ is None,
    {
        val.0 = None;
    }

    /// The wrapper of no number.
    pub fn empty() -> (value: Self)
        ensures
            value@ is None,
    {
        OptionNonZero(None)
    }

    pub fn is_empty(val: &Self) -> (empty: bool)
        ensures
            empty == val@ is None,
    {
        val.0.is_none()
    }

    /// The value to decode into: the wrapper of no number.
    pub fn for_overwrite() -> (value: Self)
        ensures
            value@ is None,
    {
        OptionNonZero(None)
    }
}

impl<P: Default + Copy + PartialEq> OptionNonZero<P> {
    /// The number that goes on the wire: the wrapped one, or the default of
    /// `P`, which is its zero, where none is wrapped.
    pub fn wire_value(&self) -> (value: P)
        ensures
            match self@ {
                Some(v) => value == v,
                None => call_ensures(P::default, (), value),
            },
    {
        match self.0 {
            Some(v) => v,
            None => P::default(),
        }
    }

    /// Takes in a number that came off the wire: one that differs from the
    /// default of `P`, which is its zero, is wrapped; the zero itself changes
    /// nothing.
    pub fn accept_wire_value(&mut self, inner: P)
        ensures
            final(self)@ == old(self)@ || final(self)@ == Some(inner),
            exists|zero: P| #[trigger]
                call_ensures(P::default, (), zero) && (P::obeys_eq_spec() ==> final(self)@ == if inner.eq_spec(
                    &zero,
                ) {
                    old(self)@
                } else {
                    Some(inner)
                }),
    {
        let zero = P::default();
        if inner != zero {
            self.0 = Some(inner);
        }
    }
}

} // verus!
