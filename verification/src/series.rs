//! Series

use vstd::prelude::*;
use crate::digits::{precision_digits_of, Digits};
use crate::error::Error;
use crate::fraction::{Fraction, Ratio};
use crate::numeric::Numeric;
use crate::{ldexp, pow2};

verus! {

/// A source of the terms of a series, pulled one at a time.
///
/// `peek_spec` is the term that the next pull hands out, `rest_spec` the
/// source after that pull.
pub trait Series: Sized {
    type Value;

    /// What must hold of a source before it is pulled from.
    spec fn wf(&self) -> bool;

    spec fn peek_spec(&self) -> Option<Self::Value>;

    spec fn rest_spec(&self) -> Self;

    fn next(&mut self) -> (r: Option<Self::Value>)
        requires
            old(self).wf(),
        ensures
            final(self).wf(),
            r == old(self).peek_spec(),
            *final(self) == old(self).rest_spec(),
    ;
}

/// The terms of a vector, handed out in order from the position `pos`.
pub struct Terms<T> {
    items: Vec<T>,
    pos: usize,
}

impl<T: Copy> Terms<T> {
    /// The terms that have not been handed out yet.
    pub closed spec fn remaining(&self) -> Seq<T> {
        self.items@.skip(self.pos as int)
    }

    pub closed spec fn inv(&self) -> bool {
        self.pos <= self.items@.len() <= usize::MAX
    }

    /// The source with its first remaining term taken away.
    pub closed spec fn advanced(&self) -> Self {
        if self.pos < self.items@.len() && self.pos < usize::MAX {
            Terms { items: self.items, pos: (self.pos + 1) as usize }
        } else {
            *self
        }
    }

    /// Taking a term away leaves the remaining terms but the first; a dry
    /// source stays as it is.
    pub proof fn lemma_advanced(&self)
        requires
            self.inv(),
        ensures
            self.advanced().inv(),
            self.remaining().len() > 0 ==> self.advanced().remaining()
                == self.remaining().skip(1),
            self.remaining().len() == 0 ==> self.advanced() == *self,
    {
        if self.pos < self.items@.len() {
            assert(self.items@.skip(self.pos as int + 1) =~= self.items@.skip(
                self.pos as int,
            ).skip(1));
        }
    }

    /// A source that hands out `items` from the first on.
    pub fn new(items: Vec<T>) -> (r: Self)
        ensures
            r.inv(),
            r.remaining() == items@,
    {
        let r = Terms { items, pos: 0 };
        assert(r.items@.skip(0) =~= r.items@);
        assert(r.items@.len() == r.items.len() <= usize::MAX);
        r
    }

    fn pull(&mut self) -> (r: Option<T>)
        requires
            old(self).inv(),
        ensures
            final(self).inv(),
            *final(self) == old(self).advanced(),
            r == if old(self).remaining().len() > 0 {
                Some(old(self).remaining()[0])
            } else {
                None
            },
    {
        if self.pos < self.items.len() {
            let item = self.items[self.pos];
            self.pos = self.pos + 1;
            Some(item)
        } else {
            None
        }
    }
}

impl<T: Copy> Series for Terms<T> {
    type Value = T;

    open spec fn wf(&self) -> bool {
        self.inv()
    }

    open spec fn peek_spec(&self) -> Option<T> {
        if self.remaining().len() > 0 {
            Some(self.remaining()[0])
        } else {
            None
        }
    }

    open spec fn rest_spec(&self) -> Self {
        self.advanced()
    }

    fn next(&mut self) -> (r: Option<T>) {
        self.pull()
    }
}

impl<T: Copy> Fraction for Terms<Ratio<T>> {
    type Value = T;

    open spec fn wf(&self) -> bool {
        self.inv()
    }

    open spec fn peek_spec(&self) -> Option<Ratio<T>> {
        if self.remaining().len() > 0 {
            Some(self.remaining()[0])
        } else {
            None
        }
    }

    open spec fn rest_spec(&self) -> Self {
        self.advanced()
    }

    fn next(&mut self) -> (r: Option<Ratio<T>>) {
        self.pull()
    }
}

/// The compensated sum after the terms that `iter` still yields, at most
/// `budget` of them, starting from the running sum `sum` and the
/// compensation `carry`.
///
/// For each term `t`: with `y = t - carry` the sum becomes `sum + y` and the
/// compensation `((sum + y) - sum) - y`; summation ends with that term when
/// `|sum| >= |factor * t|`.
pub open spec fn kahan_tail<S: Series>(
    iter: S,
    sum: S::Value,
    carry: S::Value,
    factor: S::Value,
    budget: nat,
) -> S::Value where S::Value: Numeric
    decreases budget,
{
    if budget == 0 {
        sum
    } else {
        match iter.peek_spec() {
            None => sum,
            Some(term) => {
                let y = term.sub_spec(carry);
                let t = sum.add_spec(y);
                let carry1 = t.sub_spec(sum).sub_spec(y);
                if factor.mul_spec(term).abs_spec().le_spec(t.abs_spec()) {
                    t
                } else {
                    kahan_tail(iter.rest_spec(), t, carry1, factor, (budget - 1) as nat)
                }
            },
        }
    }
}

/// The scale factor `2^p` in `T`, for the precision-digit count `p` of `T`'s
/// zero: the relative magnitude below which a term no longer counts.
pub open spec fn scale_factor<T: Numeric + Digits>() -> Result<T, Error> {
    match precision_digits_of(T::zero_spec().radix_spec(), T::zero_spec().digits_spec()) {
        Err(e) => Err(e),
        Ok(p) => if p < 32 {
            Ok(T::from_u32_spec(pow2(p as nat) as u32))
        } else {
            Err(Error::PrecisionOutOfRange)
        },
    }
}

/// The number of terms that a cap allows: the cap itself, or as many as a
/// `usize` counts where there is none.
pub open spec fn term_budget(max_terms: Option<usize>) -> nat {
    match max_terms {
        Some(n) => n as nat,
        None => usize::MAX as nat,
    }
}

/// The compensated sum of the terms that `iter` yields, of which at most
/// `budget` are pulled.
///
/// With no term to pull the sum is zero, whatever the number type says of
/// itself. Otherwise the scale factor of the number type is needed, and the
/// sum fails where that fails.
pub open spec fn kahan_sum_value<S: Series>(iter: S, budget: nat) -> Result<
    S::Value,
    Error,
> where S::Value: Numeric + Digits {
    if budget == 0 {
        Ok(S::Value::zero_spec())
    } else {
        match iter.peek_spec() {
            None => Ok(S::Value::zero_spec()),
            Some(first) => match scale_factor::<S::Value>() {
                Err(e) => Err(e),
                Ok(factor) => Ok(
                    kahan_tail(
                        iter.rest_spec(),
                        first,
                        S::Value::zero_spec(),
                        factor,
                        (budget - 1) as nat,
                    ),
                ),
            },
        }
    }
}

/// The scale factor of the number type `T`.
pub fn scale_factor_of<T: Numeric + Digits>() -> (r: Result<T, Error>)
    ensures
        r == scale_factor::<T>(),
{
    match T::zero().precision_digits() {
        Err(e) => Err(e),
        Ok(p) => {
            if p < 32 {
                proof {
                    crate::lemma_pow2_bound(p as nat);
                }
                Ok(T::from_u32(ldexp(1, p)))
            } else {
                Err(Error::PrecisionOutOfRange)
            }
        },
    }
}

/// Sums a series with error compensation, stopping once the terms have
/// decayed below what the number type can represent beside the sum.
///
/// Pulls at most `max_terms` terms; without a cap, as many as a `usize`
/// counts. An empty series sums to zero. Fails exactly when there is a first
/// term and the number type has no scale factor.
pub fn kahan_sum<S: Series>(iter: S, max_terms: Option<usize>) -> (r: Result<
    S::Value,
    Error,
>) where S::Value: Numeric + Digits
    requires
        iter.wf(),
    ensures
        r == kahan_sum_value(iter, term_budget(max_terms)),
        r is Err <==> (term_budget(max_terms) > 0 && iter.peek_spec() is Some && scale_factor::<
            S::Value,
        >() is Err),
{
    let mut source = iter;
    let cap: usize = match max_terms {
        Some(n) => n,
        None => usize::MAX,
    };
    if cap == 0 {
        return Ok(S::Value::zero());
    }
    let mut result = match source.next() {
        None => {
            return Ok(S::Value::zero());
        },
        Some(term) => term,
    };
    let mut carry = S::Value::zero();
    let factor = match scale_factor_of::<S::Value>() {
        Err(e) => {
            return Err(e);
        },
        Ok(factor) => factor,
    };
    let mut left: usize = cap - 1;
    let ghost start = source;
    let ghost first = result;
    let ghost budget = left as nat;
    while left > 0
        invariant
            source.wf(),
            kahan_tail(start, first, S::Value::zero_spec(), factor, budget) == kahan_tail(
                source,
                result,
                carry,
                factor,
                left as nat,
            ),
            left == 0 ==> kahan_tail(source, result, carry, factor, 0) == result,
        ensures
            left == 0,
        decreases left,
    {
        let term = match source.next() {
            None => {
                left = 0;
                break ;
            },
            Some(term) => term,
        };
        left = left - 1;
        let y = term.sub(carry);
        let t = result.add(y);
        carry = t.sub(result);
        carry = carry.sub(y);
        result = t;
        if factor.mul(term).abs().le(result.abs()) {
            left = 0;
        }
    }
    Ok(result)
}

/// The harmonic series: the ratios `1/i`, `1/(i + 1)`, and so on.
pub struct HarmonicSeries {
    pub i: u64,
}

impl HarmonicSeries {
    /// The harmonic series starting at `1/i`.
    pub fn new(i: u64) -> (r: Self)
        ensures
            r.i == i,
    {
        Self { i }
    }

    /// Skips directly to the `n`th term, counted from one, and hands it out.
    pub fn nth(&mut self, n: usize) -> (r: Option<Ratio<u64>>)
        requires
            n >= 1,
        ensures
            r == (HarmonicSeries { i: (n - 1) as u64 }).peek_spec(),
            *final(self) == (HarmonicSeries { i: (n - 1) as u64 }).rest_spec(),
    {
        self.i = (n - 1) as u64;
        self.next()
    }
}

impl Default for HarmonicSeries {
    /// The harmonic series from its first term, `1/1`.
    fn default() -> (r: Self)
        ensures
            r.i == 1,
    {
        Self::new(1)
    }
}

impl Fraction for HarmonicSeries {
    type Value = u64;

    open spec fn wf(&self) -> bool {
        true
    }

    /// The ratio `1/i`. The series ends where `i` can no longer be counted
    /// up.
    open spec fn peek_spec(&self) -> Option<Ratio<u64>> {
        if self.i == u64::MAX {
            None
        } else {
            Some(Ratio::at(1, self.i))
        }
    }

    open spec fn rest_spec(&self) -> Self {
        if self.i == u64::MAX {
            *self
        } else {
            HarmonicSeries { i: (self.i + 1) as u64 }
        }
    }

    fn next(&mut self) -> (r: Option<Ratio<u64>>) {
        if self.i == u64::MAX {
            return None;
        }
        let frac = Ratio::new(1, self.i);
        self.i = self.i + 1;
        Some(frac)
    }
}

} // verus!
