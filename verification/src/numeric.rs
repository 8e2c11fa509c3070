use vstd::prelude::*;

verus! {

/// The arithmetic, comparisons and transcendental functions that the
/// evaluators of this crate need from a number type.
///
/// Every operation has a specification twin. The twins have no body here: an
/// implementation chooses them, and the contracts of this crate are stated
/// over them, so they hold for whatever rounding the type performs. Nothing
/// is assumed of the operations beyond each one being a function of its
/// arguments (no associativity, no inverse laws).
pub trait Numeric: Sized + Copy {
    spec fn zero_spec() -> Self;

    spec fn one_spec() -> Self;

    spec fn from_i32_spec(n: i32) -> Self;

    spec fn from_u32_spec(n: u32) -> Self;

    spec fn from_usize_spec(n: usize) -> Self;

    spec fn pi_spec() -> Self;

    spec fn sqrt_2_spec() -> Self;

    spec fn frac_2_sqrt_pi_spec() -> Self;

    spec fn add_spec(self, rhs: Self) -> Self;

    spec fn sub_spec(self, rhs: Self) -> Self;

    spec fn mul_spec(self, rhs: Self) -> Self;

    spec fn div_spec(self, rhs: Self) -> Self;

    spec fn neg_spec(self) -> Self;

    spec fn abs_spec(self) -> Self;

    spec fn sqrt_spec(self) -> Self;

    spec fn exp_spec(self) -> Self;

    spec fn powi_spec(self, n: i32) -> Self;

    spec fn is_zero_spec(self) -> bool;

    spec fn lt_spec(self, rhs: Self) -> bool;

    spec fn le_spec(self, rhs: Self) -> bool;

    /// The additive identity.
    fn zero() -> (r: Self)
        ensures
            r == Self::zero_spec(),
    ;

    /// The multiplicative identity.
    fn one() -> (r: Self)
        ensures
            r == Self::one_spec(),
    ;

    fn from_i32(n: i32) -> (r: Self)
        ensures
            r == Self::from_i32_spec(n),
    ;

    fn from_u32(n: u32) -> (r: Self)
        ensures
            r == Self::from_u32_spec(n),
    ;

    fn from_usize(n: usize) -> (r: Self)
        ensures
            r == Self::from_usize_spec(n),
    ;

    /// Archimedes' constant.
    fn pi() -> (r: Self)
        ensures
            r == Self::pi_spec(),
    ;

    /// The square root of two.
    fn sqrt_2() -> (r: Self)
        ensures
            r == Self::sqrt_2_spec(),
    ;

    /// Two over the square root of pi.
    fn frac_2_sqrt_pi() -> (r: Self)
        ensures
            r == Self::frac_2_sqrt_pi_spec(),
    ;

    fn add(self, rhs: Self) -> (r: Self)
        ensures
            r == self.add_spec(rhs),
    ;

    fn sub(self, rhs: Self) -> (r: Self)
        ensures
            r == self.sub_spec(rhs),
    ;

    fn mul(self, rhs: Self) -> (r: Self)
        ensures
            r == self.mul_spec(rhs),
    ;

    fn div(self, rhs: Self) -> (r: Self)
        ensures
            r == self.div_spec(rhs),
    ;

    fn neg(self) -> (r: Self)
        ensures
            r == self.neg_spec(),
    ;

    fn abs(self) -> (r: Self)
        ensures
            r == self.abs_spec(),
    ;

    fn sqrt(self) -> (r: Self)
        ensures
            r == self.sqrt_spec(),
    ;

    fn exp(self) -> (r: Self)
        ensures
            r == self.exp_spec(),
    ;

    /// `self` raised to the integer power `n`.
    fn powi(self, n: i32) -> (r: Self)
        ensures
            r == self.powi_spec(n),
    ;

    fn is_zero(self) -> (r: bool)
        ensures
            r == self.is_zero_spec(),
    ;

    /// `self < rhs`.
    fn lt(self, rhs: Self) -> (r: bool)
        ensures
            r == self.lt_spec(rhs),
    ;

    /// `self <= rhs`.
    fn le(self, rhs: Self) -> (r: bool)
        ensures
            r == self.le_spec(rhs),
    ;
}

} // verus!
