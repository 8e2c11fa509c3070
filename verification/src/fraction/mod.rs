//! Continued fractions

use vstd::prelude::*;
use crate::error::Error;
use crate::numeric::Numeric;

pub mod gamma;

pub use gamma::{upper_gamma_fraction, upper_gamma_fraction_value, UpperIncompleteGammaFraction};

verus! {

/// A numerator and a denominator, kept apart so that the division happens as
/// late as possible.
#[derive(Clone, Copy, Debug)]
pub struct Ratio<T> {
    n: T,
    d: T,
}

impl<T> Ratio<T> {
    /// The numerator.
    pub closed spec fn numer_spec(&self) -> T {
        self.n
    }

    /// The denominator.
    pub closed spec fn denom_spec(&self) -> T {
        self.d
    }

    /// The ratio of `n` to `d`.
    pub closed spec fn at(n: T, d: T) -> Self {
        Self { n, d }
    }

    pub fn new(n: T, d: T) -> (r: Self)
        ensures
            r == Self::at(n, d),
            r.numer_spec() == n,
            r.denom_spec() == d,
    {
        Self { n, d }
    }

    pub fn numer(&self) -> (r: &T)
        ensures
            *r == self.numer_spec(),
    {
        &self.n
    }

    pub fn denom(&self) -> (r: &T)
        ensures
            *r == self.denom_spec(),
    {
        &self.d
    }

    /// A ratio is known by its two parts.
    pub proof fn lemma_at(self)
        ensures
            self == Self::at(self.numer_spec(), self.denom_spec()),
            forall|n: T, d: T|
                (#[trigger] Self::at(n, d)).numer_spec() == n && Self::at(n, d).denom_spec() == d,
    {
    }
}

/// The quotient of the two parts of `ratio` in the number type `T`.
pub open spec fn ratio_value<T: Numeric>(ratio: Ratio<i32>) -> T {
    T::from_i32_spec(ratio.numer_spec()).div_spec(T::from_i32_spec(ratio.denom_spec()))
}

/// Converts an exact integer ratio to `T` by one division in `T`.
pub fn ratio_to<T: Numeric>(ratio: Ratio<i32>) -> (r: T)
    ensures
        r == ratio_value::<T>(ratio),
{
    T::from_i32(*ratio.numer()).div(T::from_i32(*ratio.denom()))
}

/// A floor value that stands in for an exact zero where a continued fraction
/// would otherwise divide by it.
pub trait Tiny: Numeric {
    spec fn tiny_spec() -> Self;

    /// The floor value is strictly positive, and so is not zero.
    proof fn tiny_is_positive()
        ensures
            Self::zero_spec().lt_spec(Self::tiny_spec()),
            !Self::tiny_spec().is_zero_spec(),
    ;

    /// The floor value.
    fn tiny() -> (r: Self)
        ensures
            r == Self::tiny_spec(),
    ;
}

/// A source of the term pairs of a continued fraction, pulled one at a time.
///
/// `peek_spec` is the pair that the next pull hands out, `rest_spec` the
/// source after that pull.
pub trait Fraction: Sized {
    type Value;

    /// What must hold of a source before it is pulled from.
    spec fn wf(&self) -> bool;

    spec fn peek_spec(&self) -> Option<Ratio<Self::Value>>;

    spec fn rest_spec(&self) -> Self;

    fn next(&mut self) -> (r: Option<Ratio<Self::Value>>)
        requires
            old(self).wf(),
        ensures
            final(self).wf(),
            r == old(self).peek_spec(),
            *final(self) == old(self).rest_spec(),
    ;
}

/// `x`, or the floor value where `x` is exactly zero.
pub open spec fn floored<T: Tiny>(x: T) -> T {
    if x.is_zero_spec() {
        T::tiny_spec()
    } else {
        x
    }
}

/// Flooring keeps every value but an exact zero, and never yields an exact
/// zero: what is divided by in the iteration below is not zero.
pub proof fn lemma_floored<T: Tiny>(x: T)
    ensures
        !floored(x).is_zero_spec(),
        !x.is_zero_spec() ==> floored(x) == x,
        x.is_zero_spec() ==> floored(x) == T::tiny_spec(),
{
    T::tiny_is_positive();
}

/// The running product of the modified Lentz iteration after the pairs that
/// `fraction` still yields, at most `budget` of them, starting from the
/// product `f` and the convergents `c` and `d`.
///
/// For each pair `(b, a)`: `d` becomes `b + a * d` and `c` becomes `b + a / c`,
/// each replaced by the floor value where it is exactly zero; `f` is
/// multiplied by `delta = c * d`; the iteration ends with that pair when
/// `|delta - 1| <= terminator`.
pub open spec fn lentz_product<F: Fraction>(
    fraction: F,
    f: F::Value,
    c: F::Value,
    d: F::Value,
    terminator: F::Value,
    budget: nat,
) -> F::Value where F::Value: Tiny
    decreases budget,
{
    if budget == 0 {
        f
    } else {
        match fraction.peek_spec() {
            None => f,
            Some(v) => {
                let b = v.numer_spec();
                let a = v.denom_spec();
                let d1 = floored(b.add_spec(a.mul_spec(d)));
                let c1 = floored(b.add_spec(a.div_spec(c)));
                let delta = c1.mul_spec(d1);
                let f1 = f.mul_spec(delta);
                if delta.sub_spec(F::Value::one_spec()).abs_spec().le_spec(terminator) {
                    f1
                } else {
                    lentz_product(fraction.rest_spec(), f1, c1, d1, terminator, (budget - 1) as nat)
                }
            },
        }
    }
}

/// The value of the continued fraction whose pairs `fraction` yields, of
/// which at most `max_terms` are pulled, the leading pair included.
///
/// There is no value when no leading pair can be pulled. Otherwise the
/// leading pair `(b0, a0)` seeds the product with `b0` (the floor value where
/// `b0` is exactly zero), and the value is `a0` over the final product.
pub open spec fn continued_fraction_value<F: Fraction>(
    fraction: F,
    factor: F::Value,
    max_terms: nat,
) -> Result<F::Value, Error> where F::Value: Tiny {
    if max_terms == 0 {
        Err(Error::EmptySequence)
    } else {
        match fraction.peek_spec() {
            None => Err(Error::EmptySequence),
            Some(v) => {
                let f0 = floored(v.numer_spec());
                Ok(
                    v.denom_spec().div_spec(
                        lentz_product(
                            fraction.rest_spec(),
                            f0,
                            f0,
                            F::Value::zero_spec(),
                            factor.abs_spec(),
                            (max_terms - 1) as nat,
                        ),
                    ),
                )
            },
        }
    }
}

/// Evaluates a continued fraction by the modified Lentz iteration.
///
/// Pulls at most `max_terms` pairs from `fraction` and stops early once a
/// step changes the product by a factor within `|factor|` of one. Fails with
/// `Error::EmptySequence` exactly when no leading pair can be pulled.
pub fn continued_fraction_a<F: Fraction>(fraction: F, factor: F::Value, max_terms: usize) -> (r:
    Result<F::Value, Error>) where F::Value: Tiny
    requires
        fraction.wf(),
    ensures
        r == continued_fraction_value(fraction, factor, max_terms as nat),
        r is Err <==> (max_terms == 0 || fraction.peek_spec() is None),
{
    let mut source = fraction;
    if max_terms == 0 {
        return Err(Error::EmptySequence);
    }
    let terminator = factor.abs();
    let first = match source.next() {
        None => {
            return Err(Error::EmptySequence);
        },
        Some(v) => v,
    };
    let a0 = *first.denom();
    let mut f = *first.numer();
    if f.is_zero() {
        f = F::Value::tiny();
    }
    proof {
        lemma_floored(first.numer_spec());
    }
    let mut c = f;
    let mut d = F::Value::zero();
    let mut left: usize = max_terms - 1;
    let ghost start = source;
    let ghost f0 = f;
    let ghost budget = left as nat;
    while left > 0
        invariant
            source.wf(),
            !c.is_zero_spec(),
            lentz_product(start, f0, f0, F::Value::zero_spec(), terminator, budget)
                == lentz_product(source, f, c, d, terminator, left as nat),
            left == 0 ==> lentz_product(source, f, c, d, terminator, 0) == f,
        ensures
            left == 0,
        decreases left,
    {
        let v = match source.next() {
            None => {
                left = 0;
                break ;
            },
            Some(v) => v,
        };
        left = left - 1;
        d = v.numer().add(v.denom().mul(d));
        if d.is_zero() {
            d = F::Value::tiny();
        }
        c = v.numer().add(v.denom().div(c));
        if c.is_zero() {
            c = F::Value::tiny();
        }
        proof {
            F::Value::tiny_is_positive();
        }
        let delta = c.mul(d);
        f = f.mul(delta);
        if delta.sub(F::Value::one()).abs().le(terminator) {
            left = 0;
        }
    }
    Ok(a0.div(f))
}

} // verus!
