use vstd::prelude::*;
use super::{continued_fraction_a, continued_fraction_value, Fraction, Ratio, Tiny};
use crate::error::Error;
use crate::numeric::Numeric;

verus! {

/// The term pairs of the continued fraction for the upper incomplete gamma
/// function with shape `a` at the point `z`.
pub struct UpperIncompleteGammaFraction<T> {
    z: T,
    a: T,
    k: i32,
}

impl<T: Numeric> UpperIncompleteGammaFraction<T> {
    /// The running denominator `z - a + 1 + 2k`.
    pub closed spec fn z_spec(&self) -> T {
        self.z
    }

    /// The shape parameter.
    pub closed spec fn a_spec(&self) -> T {
        self.a
    }

    /// How many pairs have been handed out.
    pub closed spec fn k_spec(&self) -> i32 {
        self.k
    }

    /// A source in the given state.
    pub closed spec fn at(z: T, a: T, k: i32) -> Self {
        Self { z, a, k }
    }

    /// A source is known by its three parts.
    pub proof fn lemma_at(self)
        ensures
            self == Self::at(self.z_spec(), self.a_spec(), self.k_spec()),
            forall|z: T, a: T, k: i32|
                {
                    &&& (#[trigger] Self::at(z, a, k)).z_spec() == z
                    &&& Self::at(z, a, k).a_spec() == a
                    &&& Self::at(z, a, k).k_spec() == k
                },
    {
    }

    /// The source for shape `a1` at the point `z1`, before any pull: its
    /// running denominator starts at `z1 - a1 + 1`.
    pub fn new(a1: T, z1: T) -> (r: Self)
        ensures
            r == Self::at(z1.sub_spec(a1).add_spec(T::one_spec()), a1, 0),
            r.wf(),
    {
        Self { z: z1.sub(a1).add(T::one()), a: a1, k: 0 }
    }
}

impl<T: Numeric> Fraction for UpperIncompleteGammaFraction<T> {
    type Value = T;

    open spec fn wf(&self) -> bool {
        self.k_spec() >= 0
    }

    /// The pair number `k + 1`: `((k + 1) * (a - (k + 1)), z + 2)`. The
    /// source ends where the counter would leave the range of `i32`.
    open spec fn peek_spec(&self) -> Option<Ratio<T>> {
        if self.k_spec() == i32::MAX {
            None
        } else {
            let k = T::from_i32_spec((self.k_spec() + 1) as i32);
            Some(
                Ratio::at(
                    k.mul_spec(self.a_spec().sub_spec(k)),
                    self.z_spec().add_spec(T::from_i32_spec(2)),
                ),
            )
        }
    }

    open spec fn rest_spec(&self) -> Self {
        if self.k_spec() == i32::MAX {
            *self
        } else {
            Self::at(
                self.z_spec().add_spec(T::from_i32_spec(2)),
                self.a_spec(),
                (self.k_spec() + 1) as i32,
            )
        }
    }

    fn next(&mut self) -> (r: Option<Ratio<T>>) {
        if self.k == i32::MAX {
            return None;
        }
        self.k = self.k + 1;
        self.z = self.z.add(T::from_i32(2));
        let k = T::from_i32(self.k);
        Some(Ratio::new(k.mul(self.a.sub(k)), self.z))
    }
}

/// The kernel of the upper incomplete gamma function with shape `a` at `z`:
/// one over `z - a + 1` plus the continued fraction of its term pairs.
pub open spec fn upper_gamma_fraction_value<T: Tiny>(a: T, z: T, eps: T, max_iters: nat) -> Result<
    T,
    Error,
> {
    let start = UpperIncompleteGammaFraction::at(z.sub_spec(a).add_spec(T::one_spec()), a, 0);
    match continued_fraction_value(start, eps, max_iters) {
        Err(e) => Err(e),
        Ok(cf) => Ok(T::one_spec().div_spec(z.sub_spec(a).add_spec(T::one_spec()).add_spec(cf))),
    }
}

/// The kernel has a value exactly when at least one term pair may be
/// pulled; without one it fails for want of a leading pair.
pub proof fn lemma_upper_gamma_fraction_defined<T: Tiny>(a: T, z: T, eps: T, max_iters: nat)
    ensures
        upper_gamma_fraction_value(a, z, eps, max_iters) is Err <==> max_iters == 0,
        max_iters == 0 ==> upper_gamma_fraction_value(a, z, eps, max_iters) == Err::<T, Error>(
            Error::EmptySequence,
        ),
{
    let start = UpperIncompleteGammaFraction::at(z.sub_spec(a).add_spec(T::one_spec()), a, 0);
    start.lemma_at();
}

/// Evaluates the continued-fraction kernel of the upper incomplete gamma
/// function with shape `a` at `z`, to the tolerance `eps`, pulling at most
/// `max_iters` term pairs.
///
/// The caller multiplies by `z^a * e^-z` for the full integral and divides
/// by the gamma function of `a` to normalise. Fails exactly when `max_iters`
/// is zero.
pub fn upper_gamma_fraction<T: Tiny>(a: T, z: T, eps: T, max_iters: usize) -> (r: Result<T, Error>)
    ensures
        r == upper_gamma_fraction_value(a, z, eps, max_iters as nat),
        r is Err <==> max_iters == 0,
        max_iters == 0 ==> r == Err::<T, Error>(Error::EmptySequence),
{
    let frac = UpperIncompleteGammaFraction::new(a, z);
    match continued_fraction_a(frac, eps, max_iters) {
        Err(e) => Err(e),
        Ok(cf) => Ok(T::one().div(z.sub(a).add(T::one()).add(cf))),
    }
}

} // verus!
