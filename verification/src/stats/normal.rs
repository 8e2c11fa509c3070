use vstd::prelude::*;
use super::{normal_cdf_value, Distribution, ErrorFunction};
use crate::digits::Digits;
use crate::error::Error;
use crate::fraction::{ratio_to, Ratio, Tiny};
use crate::numeric::Numeric;

verus! {

/// The normal distribution with a given mean and standard deviation.
pub struct NormalDistribution<T> {
    mean: T,
    std_deviation: T,
}

impl<T> NormalDistribution<T> {
    pub closed spec fn mean_spec(&self) -> T {
        self.mean
    }

    pub closed spec fn std_deviation_spec(&self) -> T {
        self.std_deviation
    }

    pub fn new(mean: T, std_deviation: T) -> (r: Self)
        ensures
            r.mean_spec() == mean,
            r.std_deviation_spec() == std_deviation,
    {
        Self { mean, std_deviation }
    }
}

impl<T: Numeric> NormalDistribution<T> {
    /// The distribution with mean zero and standard deviation one.
    pub fn standard() -> (r: Self)
        ensures
            r.mean_spec() == T::zero_spec(),
            r.std_deviation_spec() == T::one_spec(),
    {
        Self::new(T::zero(), T::one())
    }
}

impl<T: Tiny + Digits> Distribution for NormalDistribution<T> {
    type Value = T;

    open spec fn cdf_spec(&self, x: T, error: ErrorFunction) -> Result<T, Error> {
        normal_cdf_value(self.mean_spec(), self.std_deviation_spec(), x, error)
    }

    fn cdf(&self, x: &T, error: ErrorFunction) -> (r: Result<T, Error>) {
        let one_half: T = ratio_to(Ratio::new(1, 2));
        match error.complementary_error(
            self.mean.sub(*x).div(self.std_deviation.mul(T::sqrt_2())),
        ) {
            Err(e) => Err(e),
            Ok(c) => Ok(one_half.mul(c)),
        }
    }
}

} // verus!
