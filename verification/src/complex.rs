//! A complex number with unsigned parts, as an example of an element type.

use crate::decimal::{decimal, decimal_text};
use crate::element::{One, Render, Zero};
use vstd::prelude::*;

verus! {

/// A complex number whose real and imaginary parts are unsigned.
#[derive(Clone, Copy, Debug, PartialEq, Eq, Structural)]
pub struct Complex {
    pub real: usize,
    pub img: usize,
}

impl Zero for Complex {
    open spec fn zero_spec() -> Complex {
        Complex { real: 0, img: 0 }
    }

    fn zero() -> (z: Complex) {
        Complex { real: 0, img: 0 }
    }
}

impl One for Complex {
    open spec fn one_spec() -> Complex {
        Complex { real: 1, img: 0 }
    }

    fn one() -> (u: Complex) {
        Complex { real: 1, img: 0 }
    }
}

impl Render for Complex {
    /// A complex number is written as its two parts in decimal notation,
    /// in round brackets, with a comma and a space between them.
    open spec fn rendered(&self) -> Seq<char> {
        "("@ + decimal(self.real as nat) + ", "@ + decimal(self.img as nat) + ")"@
    }

    fn render(&self) -> (s: String) {
        let mut s = String::from_str("(");
        s.append(decimal_text(self.real).as_str());
        s.append(", ");
        s.append(decimal_text(self.img).as_str());
        s.append(")");
        s
    }
}

} // verus!
