//! Special functions to near machine precision for any number type that
//! offers real arithmetic: the error function, its complement and the normal
//! distribution function, on top of a compensated summation and a continued
//! fraction evaluator. Beside them stand small utilities on integers,
//! polynomials and integrals.
//!
//! The evaluators are generic over [`Numeric`]. Their contracts say which
//! expression over the operations of the number type each result is; they
//! assume no algebraic law of those operations, so they hold for rounding
//! arithmetic as they stand.

use vstd::prelude::*;

pub mod digits;
pub mod error;
pub mod factor;
pub mod fraction;
pub mod integral;
pub mod numeric;
pub mod poly;
pub mod series;
pub mod stats;

pub use digits::Digits;
pub use error::Error;
pub use numeric::Numeric;

verus! {

/// Two to the power `e`.
pub open spec fn pow2(e: nat) -> nat
    decreases e,
{
    if e == 0 {
        1
    } else {
        2 * pow2((e - 1) as nat)
    }
}

/// The greatest common divisor of `integers`, folded from the left; zero for
/// no integers at all.
pub fn gcd(integers: &Vec<i64>) -> (r: i64)
    requires
        forall|k: int| 0 <= k < integers@.len() ==> integers@[k] > i64::MIN,
    ensures
        integers@.len() == 0 ==> r == 0,
        integers@.len() > 0 ==> r == factor::gcd_fold(integers@),
{
    match factor::gcd_fold_of(integers) {
        None => 0,
        Some(g) => g,
    }
}

/// The machine epsilon of the number type `T`: two to the power of one minus
/// its digit count. There is none where that exponent does not fit in an
/// `i32`.
pub open spec fn epsilon_value<T: Numeric + Digits>() -> Result<T, Error> {
    let digits = T::zero_spec().digits_spec();
    if digits <= i32::MAX {
        Ok(T::one_spec().mul_spec(T::from_i32_spec(2).powi_spec((1 - digits) as i32)))
    } else {
        Err(Error::PrecisionOutOfRange)
    }
}

/// The machine epsilon of the number type `T`.
pub fn epsilon<T: Numeric + Digits>() -> (r: Result<T, Error>)
    ensures
        r == epsilon_value::<T>(),
{
    let digits: u32 = T::zero().digits();
    if digits <= 0x7fff_ffff {
        let exponent: i32 = 1 - (digits as i32);
        Ok(T::one().mul(T::from_i32(2).powi(exponent)))
    } else {
        Err(Error::PrecisionOutOfRange)
    }
}

/// `pow2` never shrinks as its exponent grows.
pub proof fn lemma_pow2_monotone(a: nat, b: nat)
    requires
        a <= b,
    ensures
        pow2(a) <= pow2(b),
        pow2(a) >= 1,
    decreases b,
{
    if a < b {
        lemma_pow2_monotone(a, (b - 1) as nat);
    } else if a > 0 {
        lemma_pow2_monotone((a - 1) as nat, (a - 1) as nat);
    }
}

/// Below 32 every power of two fits in a `u32`.
pub proof fn lemma_pow2_bound(e: nat)
    requires
        e < 32,
    ensures
        pow2(e) <= 0x8000_0000,
{
    lemma_pow2_monotone(e, 31);
    assert(pow2(31) == 0x8000_0000) by {
        reveal_with_fuel(pow2, 32);
    }
}

/// `x` times two to the power `exp`.
pub fn ldexp(x: u32, exp: u32) -> (r: u32)
    requires
        x * pow2(exp as nat) <= u32::MAX,
    ensures
        r == x * pow2(exp as nat),
{
    let mut r: u32 = x;
    let mut i: u32 = 0;
    assert(x * pow2(0) == x) by (nonlinear_arith)
        requires
            pow2(0) == 1,
    ;
    while i < exp
        invariant
            i <= exp,
            r == x * pow2(i as nat),
            x * pow2(exp as nat) <= u32::MAX,
        decreases exp - i,
    {
        proof {
            lemma_pow2_monotone((i + 1) as nat, exp as nat);
            assert(x * pow2((i + 1) as nat) <= x * pow2(exp as nat)) by (nonlinear_arith)
                requires
                    pow2((i + 1) as nat) <= pow2(exp as nat),
            ;
            assert(x * pow2((i + 1) as nat) == 2 * (x * pow2(i as nat))) by (nonlinear_arith)
                requires
                    pow2((i + 1) as nat) == 2 * pow2(i as nat),
            ;
        }
        r = r * 2;
        i = i + 1;
    }
    r
}

} // verus!
