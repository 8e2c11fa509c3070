//! The error function and distributions built on it

use vstd::prelude::*;
use crate::digits::Digits;
use crate::error::Error;
use crate::fraction::{
    ratio_to, ratio_value, upper_gamma_fraction, upper_gamma_fraction_value, Ratio, Tiny,
};
use crate::fraction::gamma::{
    lemma_upper_gamma_fraction_defined,
};
use crate::numeric::Numeric;
use crate::series::{kahan_sum, kahan_sum_value, Series};
use crate::{epsilon, epsilon_value};

pub mod normal;

pub use normal::NormalDistribution;

verus! {

/// A probability distribution over the number type `Value`.
pub trait Distribution {
    type Value;

    spec fn cdf_spec(&self, x: Self::Value, error: ErrorFunction) -> Result<Self::Value, Error>;

    /// The probability of a value at most `x`, computed with the iteration
    /// caps of `error`.
    fn cdf(&self, x: &Self::Value, error: ErrorFunction) -> (r: Result<Self::Value, Error>)
        ensures
            r == self.cdf_spec(*x, error),
    ;
}

/// The terms of the Maclaurin series of the error function at a point `x`:
/// term number `k` is `x * (-x^2)^k / k!`, divided by `2k + 1`.
pub struct ErfSeries<T> {
    k: T,
    term: T,
    zz: T,
}

impl<T: Numeric> ErfSeries<T> {
    /// The source whose next term is `term / (2k + 1)` and whose terms grow
    /// by the factor `zz / (k + 1)`.
    pub closed spec fn at(k: T, term: T, zz: T) -> Self {
        Self { k, term, zz }
    }

    pub closed spec fn k_spec(&self) -> T {
        self.k
    }

    pub closed spec fn term_spec(&self) -> T {
        self.term
    }

    pub closed spec fn zz_spec(&self) -> T {
        self.zz
    }

    /// A source is known by its three parts.
    pub proof fn lemma_at(self)
        ensures
            self == Self::at(self.k_spec(), self.term_spec(), self.zz_spec()),
            forall|k: T, term: T, zz: T|
                {
                    &&& (#[trigger] Self::at(k, term, zz)).k_spec() == k
                    &&& Self::at(k, term, zz).term_spec() == term
                    &&& Self::at(k, term, zz).zz_spec() == zz
                },
    {
    }

    /// The series at the point `value`, before any pull: term number zero
    /// is `value` itself, and the terms grow by `-value^2 / k`.
    pub open spec fn new_spec(value: T) -> Self {
        Self::at(T::zero_spec(), value, value.neg_spec().mul_spec(value))
    }

    /// The series at the point `value`, before any pull.
    pub fn new(value: T) -> (r: Self)
        ensures
            r == Self::new_spec(value),
    {
        Self { k: T::zero(), term: value, zz: value.neg().mul(value) }
    }
}

impl<T: Numeric> Series for ErfSeries<T> {
    type Value = T;

    open spec fn wf(&self) -> bool {
        true
    }

    /// The series never ends.
    open spec fn peek_spec(&self) -> Option<T> {
        Some(
            self.term_spec().div_spec(
                T::from_i32_spec(2).mul_spec(self.k_spec()).add_spec(T::one_spec()),
            ),
        )
    }

    open spec fn rest_spec(&self) -> Self {
        let k1 = self.k_spec().add_spec(T::one_spec());
        Self::at(k1, self.term_spec().mul_spec(self.zz_spec().div_spec(k1)), self.zz_spec())
    }

    fn next(&mut self) -> (r: Option<T>) {
        let result = self.term.div(T::from_i32(2).mul(self.k).add(T::one()));
        self.k = self.k.add(T::one());
        self.term = self.term.mul(self.zz.div(self.k));
        Some(result)
    }
}

/// The caps on the work that one evaluation of the error function may do.
#[derive(Clone, Copy, Debug)]
pub struct ErrorFunction {
    /// The most terms of the power series that are summed.
    pub sum_max_iters: usize,
    /// The most term pairs of the continued fraction that are pulled.
    pub fraction_max_iters: usize,
}

/// The caps that `ErrorFunction::default` gives: a million each.
pub open spec fn default_caps() -> ErrorFunction {
    ErrorFunction { sum_max_iters: 1_000_000, fraction_max_iters: 1_000_000 }
}

impl Default for ErrorFunction {
    fn default() -> (r: Self)
        ensures
            r == default_caps(),
    {
        Self { sum_max_iters: 1_000_000, fraction_max_iters: 1_000_000 }
    }
}

/// The point `13/10` below which the power series is summed.
pub open spec fn series_limit<T: Numeric>() -> T {
    ratio_value::<T>(Ratio::at(13, 10))
}

/// The error function at `value` by its power series: `2/sqrt(pi)` times the
/// compensated sum of at most `cap` terms.
pub open spec fn series_route<T: Numeric + Digits>(value: T, cap: usize) -> Result<T, Error> {
    match kahan_sum_value(ErfSeries::new_spec(value), cap as nat) {
        Err(e) => Err(e),
        Ok(sum) => Ok(T::frac_2_sqrt_pi_spec().mul_spec(sum)),
    }
}

/// Whether `value` is so large that the asymptotic tail is exact to the
/// machine epsilon `eps`: `value^2 > 1/eps`.
pub open spec fn in_tail<T: Numeric>(value: T, eps: T) -> bool {
    T::one_spec().div_spec(eps).lt_spec(value.mul_spec(value))
}

/// The complementary error function at `value` by its asymptotic tail:
/// `e^(-value^2) / (sqrt(pi) * value)`.
pub open spec fn tail_route<T: Numeric>(value: T) -> T {
    value.mul_spec(value).neg_spec().exp_spec().div_spec(
        T::pi_spec().sqrt_spec().mul_spec(value),
    )
}

/// The complementary error function at `value` by the continued fraction of
/// the incomplete gamma function with shape `1/2` at `value^2`, pulled to
/// the tolerance `eps` with at most `cap` term pairs.
pub open spec fn fraction_route<T: Tiny>(value: T, eps: T, cap: usize) -> Result<T, Error> {
    let x = value.mul_spec(value);
    match upper_gamma_fraction_value(ratio_value::<T>(Ratio::at(1, 2)), x, eps, cap as nat) {
        Err(e) => Err(e),
        Ok(kernel) => Ok(
            value.mul_spec(x.neg_spec().exp_spec()).div_spec(T::pi_spec().sqrt_spec()).mul_spec(
                kernel,
            ),
        ),
    }
}

/// The complementary error function at a `value` of `13/10` or more: by the
/// asymptotic tail where that is exact, else by the continued fraction. Both
/// need the machine epsilon of `T`.
pub open spec fn complement_route<T: Tiny + Digits>(value: T, caps: ErrorFunction) -> Result<
    T,
    Error,
> {
    match epsilon_value::<T>() {
        Err(e) => Err(e),
        Ok(eps) => if in_tail(value, eps) {
            Ok(tail_route(value))
        } else {
            fraction_route(value, eps, caps.fraction_max_iters)
        },
    }
}

/// The error function at `value` (`invert` false) or its complement
/// (`invert` true).
///
/// Below `13/10` the power series gives the error function, and the
/// complement is one minus it. From `13/10` on the tail or the continued
/// fraction gives the complement, and the error function is one minus it.
pub open spec fn error_value<T: Tiny + Digits>(
    value: T,
    invert: bool,
    caps: ErrorFunction,
) -> Result<T, Error> {
    if value.lt_spec(series_limit::<T>()) {
        match series_route(value, caps.sum_max_iters) {
            Err(e) => Err(e),
            Ok(erf) => Ok(
                if invert {
                    T::one_spec().sub_spec(erf)
                } else {
                    erf
                },
            ),
        }
    } else {
        match complement_route(value, caps) {
            Err(e) => Err(e),
            Ok(erfc) => Ok(
                if invert {
                    erfc
                } else {
                    T::one_spec().sub_spec(erfc)
                },
            ),
        }
    }
}

impl ErrorFunction {
    /// Calculates the error function at `x`.
    pub fn error<T: Tiny + Digits>(self, x: T) -> (r: Result<T, Error>)
        ensures
            r == error_value(x, false, self),
    {
        self.error_inner(x, false)
    }

    /// Calculates the complementary error function at `x`.
    pub fn complementary_error<T: Tiny + Digits>(self, x: T) -> (r: Result<T, Error>)
        ensures
            r == error_value(x, true, self),
    {
        self.error_inner(x, true)
    }

    fn error_inner<T: Tiny + Digits>(self, value: T, invert: bool) -> (r: Result<T, Error>)
        ensures
            r == error_value(value, invert, self),
    {
        let mut invert = invert;
        let x = value.mul(value);
        let result = if value.lt(ratio_to(Ratio::new(13, 10))) {
            let f = ErfSeries::new(value);
            match kahan_sum(f, Some(self.sum_max_iters)) {
                Err(e) => {
                    return Err(e);
                },
                Ok(sum) => T::frac_2_sqrt_pi().mul(sum),
            }
        } else {
            let eps = match epsilon::<T>() {
                Err(e) => {
                    return Err(e);
                },
                Ok(eps) => eps,
            };
            invert = !invert;
            if T::one().div(eps).lt(x) {
                x.neg().exp().div(T::pi().sqrt().mul(value))
            } else {
                let half = ratio_to(Ratio::new(1, 2));
                match upper_gamma_fraction(half, x, eps, self.fraction_max_iters) {
                    Err(e) => {
                        return Err(e);
                    },
                    Ok(kernel) => value.mul(x.neg().exp()).div(T::pi().sqrt()).mul(kernel),
                }
            }
        };
        if invert {
            Ok(T::one().sub(result))
        } else {
            Ok(result)
        }
    }
}

/// Calculates the error function at `x`, with the default caps.
pub fn erf<T: Tiny + Digits>(x: T) -> (r: Result<T, Error>)
    ensures
        r == error_value(x, false, default_caps()),
{
    ErrorFunction::default().error(x)
}

/// Calculates the complementary error function at `x`, with the default
/// caps.
pub fn erfc<T: Tiny + Digits>(x: T) -> (r: Result<T, Error>)
    ensures
        r == error_value(x, true, default_caps()),
{
    ErrorFunction::default().complementary_error(x)
}

/// The error function and its complement are one routine read two ways:
/// they fail together, and where they succeed one of them is exactly one
/// minus the other: the complement below `13/10`, the error function from
/// there on.
pub proof fn lemma_complement<T: Tiny + Digits>(x: T, caps: ErrorFunction)
    ensures
        error_value(x, false, caps) is Err <==> error_value(x, true, caps) is Err,
        error_value(x, false, caps) is Err ==> error_value(x, false, caps) == error_value(
            x,
            true,
            caps,
        ),
        error_value(x, false, caps) is Ok && x.lt_spec(series_limit::<T>()) ==> error_value(
            x,
            true,
            caps,
        )->Ok_0 == T::one_spec().sub_spec(error_value(x, false, caps)->Ok_0),
        error_value(x, false, caps) is Ok && !x.lt_spec(series_limit::<T>()) ==> error_value(
            x,
            false,
            caps,
        )->Ok_0 == T::one_spec().sub_spec(error_value(x, true, caps)->Ok_0),
{
}

/// When the error function has a value: below `13/10`, unless terms are to
/// be summed and the number type has no scale factor; from there on, when
/// the number type has a machine epsilon and, outside the tail, at least one
/// term pair may be pulled.
pub proof fn lemma_error_defined<T: Tiny + Digits>(x: T, invert: bool, caps: ErrorFunction)
    ensures
        x.lt_spec(series_limit::<T>()) ==> (error_value(x, invert, caps) is Err <==> (
        caps.sum_max_iters > 0 && crate::series::scale_factor::<T>() is Err)),
        !x.lt_spec(series_limit::<T>()) ==> (error_value(x, invert, caps) is Err <==> (
        epsilon_value::<T>() is Err || (!in_tail(x, epsilon_value::<T>()->Ok_0)
            && caps.fraction_max_iters == 0))),
{
    if epsilon_value::<T>() is Ok {
        lemma_upper_gamma_fraction_defined(
            ratio_value::<T>(Ratio::at(1, 2)),
            x.mul_spec(x),
            epsilon_value::<T>()->Ok_0,
            caps.fraction_max_iters as nat,
        );
    }
}

/// The normal distribution with the default caps on every evaluation.
pub struct Normal<T> {
    mean: T,
    std_deviation: T,
}

/// The normal distribution function at `x`:
/// `1/2 * erfc((mean - x) / (std_deviation * sqrt(2)))`.
pub open spec fn normal_cdf_value<T: Tiny + Digits>(
    mean: T,
    std_deviation: T,
    x: T,
    caps: ErrorFunction,
) -> Result<T, Error> {
    let at = mean.sub_spec(x).div_spec(std_deviation.mul_spec(T::sqrt_2_spec()));
    match error_value(at, true, caps) {
        Err(e) => Err(e),
        Ok(erfc) => Ok(ratio_value::<T>(Ratio::at(1, 2)).mul_spec(erfc)),
    }
}

impl<T> Normal<T> {
    pub closed spec fn mean_spec(&self) -> T {
        self.mean
    }

    pub closed spec fn std_deviation_spec(&self) -> T {
        self.std_deviation
    }

    pub fn new(mean: T, std_deviation: T) -> (r: Self)
        ensures
            r.mean_spec() == mean,
            r.std_deviation_spec() == std_deviation,
    {
        Self { mean, std_deviation }
    }
}

impl<T: Numeric> Normal<T> {
    /// The distribution with mean zero and standard deviation one.
    pub fn standard() -> (r: Self)
        ensures
            r.mean_spec() == T::zero_spec(),
            r.std_deviation_spec() == T::one_spec(),
    {
        Self::new(T::zero(), T::one())
    }
}

impl<T: Tiny + Digits> Normal<T> {

    /// The probability of a value at most `x`.
    pub fn cdf(&self, x: &T) -> (r: Result<T, Error>)
        ensures
            r == normal_cdf_value(
                self.mean_spec(),
                self.std_deviation_spec(),
                *x,
                default_caps(),
            ),
    {
        let one_half: T = ratio_to(Ratio::new(1, 2));
        match erfc(self.mean.sub(*x).div(self.std_deviation.mul(T::sqrt_2()))) {
            Err(e) => Err(e),
            Ok(c) => Ok(one_half.mul(c)),
        }
    }
}

} // verus!
