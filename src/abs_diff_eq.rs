use vstd::prelude::*;

verus! {

/// The distance between two integers.
pub open spec fn abs_diff(a: int, b: int) -> int {
    if a > b {
        a - b
    } else {
        b - a
    }
}

/// Equality that is defined using the absolute difference of two numbers.
pub trait AbsDiffEq: Sized {
    /// Used for specifying the expected difference.
    type Epsilon;

    /// Whether the distance between `self` and `other` is `epsilon`.
    spec fn abs_diff_eq_spec(&self, other: &Self, epsilon: Self::Epsilon) -> bool;

    /// Tests whether the absolute difference of the two numbers equals `epsilon`.
    fn abs_diff_eq(&self, other: &Self, epsilon: Self::Epsilon) -> (r: bool)
        ensures
            r == self.abs_diff_eq_spec(other, epsilon),
    ;
}

impl AbsDiffEq for u8 {
    type Epsilon = u8;

    open spec fn abs_diff_eq_spec(&self, other: &u8, epsilon: u8) -> bool {
        abs_diff(*self as int, *other as int) == epsilon as int
    }

    fn abs_diff_eq(&self, other: &u8, epsilon: u8) -> (r: bool) {
        // Subtract the smaller value from the larger so that nothing underflows.
        let d: u8 = if *self > *other {
            *self - *other
        } else {
            *other - *self
        };
        d == epsilon
    }
}

} // verus!
