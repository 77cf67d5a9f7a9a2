//! The capabilities a matrix asks of its element type.

use crate::decimal::{decimal, decimal_text};
use vstd::prelude::*;

verus! {

/// An element type that can name its additive identity.
pub trait Zero: Sized {
    /// The additive identity of the type.
    spec fn zero_spec() -> Self;

    /// Returns the additive identity; every call yields the same value.
    fn zero() -> (z: Self)
        ensures
            z == Self::zero_spec(),
    ;
}

/// An element type that can name its multiplicative identity.
pub trait One: Sized {
    /// The multiplicative identity of the type.
    spec fn one_spec() -> Self;

    /// Returns the multiplicative identity; every call yields the same value.
    fn one() -> (u: Self)
        ensures
            u == Self::one_spec(),
    ;
}

/// An element type that can be written out as text.
pub trait Render {
    /// The text that stands for the value.
    spec fn rendered(&self) -> Seq<char>;

    /// Writes the value out.
    fn render(&self) -> (s: String)
        ensures
            s@ == self.rendered(),
    ;
}

impl Render for usize {
    /// A `usize` is written in decimal notation.
    open spec fn rendered(&self) -> Seq<char> {
        decimal(*self as nat)
    }

    fn render(&self) -> (s: String) {
        decimal_text(*self)
    }
}

impl Zero for usize {
    open spec fn zero_spec() -> usize {
        0usize
    }

    fn zero() -> (z: usize) {
        0usize
    }
}

impl One for usize {
    open spec fn one_spec() -> usize {
        1usize
    }

    fn one() -> (u: usize) {
        1usize
    }
}

/// Two values that each came out of `zero` are equal.
pub proof fn lemma_zero_is_stable<T: Zero>(first: T, second: T)
    requires
        first == T::zero_spec(),
        second == T::zero_spec(),
    ensures
        first == second,
{
}

} // verus!
