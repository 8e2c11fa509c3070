//! Integral approximations

use vstd::prelude::*;
use crate::numeric::Numeric;

pub mod riemann;

pub use riemann::RiemannSum;

verus! {

/// A function `f` to integrate over `[start, end]` in `steps` steps.
pub struct Integral<F, T> {
    start: T,
    end: T,
    steps: usize,
    f: F,
}

/// Whether `ys` holds, point by point, values that `f` may return at `xs`.
pub open spec fn sampled<F: Fn(T) -> T, T>(f: F, xs: Seq<T>, ys: Seq<T>) -> bool {
    &&& xs.len() == ys.len()
    &&& forall|j: int| 0 <= j < xs.len() ==> #[trigger] f.ensures((xs[j],), ys[j])
}

/// The first `k` of `ys` added up from the left, starting from zero.
pub open spec fn running_sum<T: Numeric>(ys: Seq<T>, k: nat) -> T
    decreases k,
{
    if k == 0 {
        T::zero_spec()
    } else {
        running_sum(ys, (k - 1) as nat).add_spec(ys[k - 1])
    }
}

/// The points at which a Monte-Carlo estimate samples: `start + diff * u` for
/// each draw `u`.
pub open spec fn monte_carlo_points<T: Numeric>(start: T, end: T, draws: Seq<T>) -> Seq<T> {
    Seq::new(draws.len(), |j: int| start.add_spec(end.sub_spec(start).mul_spec(draws[j])))
}

/// The points at which Simpson's rule samples: the two ends first, then
/// `start + step * i` for each `i` from one below `steps`.
pub open spec fn simpson_points<T: Numeric>(start: T, end: T, steps: usize) -> Seq<T> {
    let step = end.sub_spec(start).div_spec(T::from_usize_spec(steps));
    Seq::new(
        if steps >= 1 {
            (steps + 1) as nat
        } else {
            2
        },
        |j: int|
            if j == 0 {
                start
            } else if j == 1 {
                end
            } else {
                start.add_spec(step.mul_spec(T::from_usize_spec((j - 1) as usize)))
            },
    )
}

/// The weighted sum of Simpson's rule over the first `k + 1` of the values
/// `ys`: the two ends with weight one, then the inner points with weight
/// four at odd and two at even positions.
pub open spec fn simpson_running<T: Numeric>(ys: Seq<T>, k: nat) -> T
    decreases k,
{
    if k <= 1 {
        ys[0].add_spec(ys[1])
    } else {
        let weight: i32 = if (k - 1) % 2 == 0 {
            2
        } else {
            4
        };
        simpson_running(ys, (k - 1) as nat).add_spec(ys[k as int].mul_spec(T::from_i32_spec(weight)))
    }
}

impl<F, T> Integral<F, T> {
    pub closed spec fn start_spec(&self) -> T {
        self.start
    }

    pub closed spec fn end_spec(&self) -> T {
        self.end
    }

    pub closed spec fn steps_spec(&self) -> usize {
        self.steps
    }

    pub closed spec fn f_spec(&self) -> F {
        self.f
    }

    pub fn new(start: T, end: T, steps: usize, f: F) -> (r: Self)
        ensures
            r.start_spec() == start,
            r.end_spec() == end,
            r.steps_spec() == steps,
            r.f_spec() == f,
    {
        Self { start, end, steps, f }
    }
}

impl<F: Fn(T) -> T, T: Numeric> Integral<F, T> {
    /// The Riemann sum of this integral with the given shape over each step.
    pub fn riemann_sum<A: riemann::Area<T>>(self, area: A) -> (r: RiemannSum<F, T, A>)
        ensures
            r.f_spec() == self.f_spec(),
            r.a_spec() == self.start_spec(),
            r.n_spec() == self.steps_spec(),
            r.i_spec() == 0,
            r.dx_spec() == self.end_spec().sub_spec(self.start_spec()).div_spec(
                T::from_usize_spec(self.steps_spec()),
            ),
            r.shape_spec() == area,
    {
        RiemannSum::new(self.start, self.end, self.steps, self.f, area)
    }

    /// A Monte-Carlo estimate of the integral from the given draws from the
    /// unit interval: the step width `(end - start) / steps` times the sum of
    /// the function's values at `start + (end - start) * u` for each draw
    /// `u` in turn.
    pub fn monte_carlo(&self, draws: &Vec<T>) -> (r: T)
        requires
            forall|x: T| self.f_spec().requires((x,)),
        ensures
            exists|ys: Seq<T>|
                {
                    &&& #[trigger] sampled(
                        self.f_spec(),
                        monte_carlo_points(self.start_spec(), self.end_spec(), draws@),
                        ys,
                    )
                    &&& r == self.end_spec().sub_spec(self.start_spec()).div_spec(
                        T::from_usize_spec(self.steps_spec()),
                    ).mul_spec(running_sum(ys, ys.len()))
                },
    {
        assert(self.f_spec() == self.f);
        let diff = self.end.sub(self.start);
        let dx = diff.div(T::from_usize(self.steps));
        let mut sum = T::zero();
        let mut k: usize = 0;
        let ghost xs = monte_carlo_points(self.start_spec(), self.end_spec(), draws@);
        let ghost mut ys: Seq<T> = Seq::empty();
        while k < draws.len()
            invariant
                k <= draws@.len(),
                self.f_spec() == self.f,
                forall|x: T| self.f_spec().requires((x,)),
                diff == self.end_spec().sub_spec(self.start_spec()),
                xs == monte_carlo_points(self.start_spec(), self.end_spec(), draws@),
                ys.len() == k,
                forall|j: int| 0 <= j < k ==> #[trigger] self.f_spec().ensures((xs[j],), ys[j]),
                sum == running_sum(ys, k as nat),
            decreases draws@.len() - k,
        {
            let x = self.start.add(diff.mul(draws[k]));
            let y = (self.f)(x);
            proof {
                let longer = ys.push(y);
                lemma_running_sum_prefix(ys, longer, k as nat);
                ys = longer;
            }
            sum = sum.add(y);
            k = k + 1;
        }
        proof {
            assert(sampled(self.f_spec(), xs, ys));
        }
        dx.mul(sum)
    }

    /// An approximation of the integral by Simpson's rule: a third of the
    /// step width times the weighted sum of the function's values at the
    /// two ends and at each inner step.
    pub fn simpson(&self) -> (r: T)
        requires
            forall|x: T| self.f_spec().requires((x,)),
        ensures
            exists|ys: Seq<T>|
                {
                    &&& #[trigger] sampled(
                        self.f_spec(),
                        simpson_points(self.start_spec(), self.end_spec(), self.steps_spec()),
                        ys,
                    )
                    &&& r == simpson_running(ys, (ys.len() - 1) as nat).mul_spec(
                        self.end_spec().sub_spec(self.start_spec()).div_spec(
                            T::from_usize_spec(self.steps_spec()),
                        ).div_spec(T::from_i32_spec(3)),
                    )
                },
    {
        assert(self.f_spec() == self.f);
        let first = (self.f)(self.start);
        let last = (self.f)(self.end);
        let mut result = first.add(last);
        let step = self.end.sub(self.start).div(T::from_usize(self.steps));
        let ghost xs = simpson_points(self.start_spec(), self.end_spec(), self.steps_spec());
        let ghost mut ys: Seq<T> = seq![first, last];
        let mut i: usize = 1;
        while i < self.steps
            invariant
                1 <= i,
                self.steps >= 1 ==> i <= self.steps,
                self.steps == 0 ==> i == 1,
                self.f_spec() == self.f,
                forall|x: T| self.f_spec().requires((x,)),
                step == self.end_spec().sub_spec(self.start_spec()).div_spec(
                    T::from_usize_spec(self.steps_spec()),
                ),
                xs == simpson_points(self.start_spec(), self.end_spec(), self.steps_spec()),
                ys.len() == i + 1,
                forall|j: int| 0 <= j < ys.len() ==> #[trigger] self.f_spec().ensures((xs[j],), ys[j]),
                result == simpson_running(ys, i as nat),
            decreases self.steps - i,
        {
            let x = self.start.add(step.mul(T::from_usize(i)));
            let y = (self.f)(x);
            proof {
                let longer = ys.push(y);
                lemma_simpson_running_prefix(ys, longer, i as nat);
                assert(xs[i + 1] == x);
                ys = longer;
            }
            result = if i % 2 == 0 {
                result.add(y.mul(T::from_i32(2)))
            } else {
                result.add(y.mul(T::from_i32(4)))
            };
            i = i + 1;
        }
        proof {
            assert(sampled(self.f_spec(), xs, ys));
        }
        result.mul(step.div(T::from_i32(3)))
    }
}

/// A running sum reads only the values it adds up.
pub proof fn lemma_running_sum_prefix<T: Numeric>(ys: Seq<T>, zs: Seq<T>, k: nat)
    requires
        k <= ys.len() <= zs.len(),
        forall|j: int| 0 <= j < k ==> ys[j] == zs[j],
    ensures
        running_sum(ys, k) == running_sum(zs, k),
    decreases k,
{
    if k > 0 {
        lemma_running_sum_prefix(ys, zs, (k - 1) as nat);
    }
}

/// The weighted sum of Simpson's rule reads only the values it weighs.
pub proof fn lemma_simpson_running_prefix<T: Numeric>(ys: Seq<T>, zs: Seq<T>, k: nat)
    requires
        2 <= ys.len() <= zs.len(),
        k < ys.len(),
        forall|j: int| 0 <= j <= k || j == 1 ==> ys[j] == zs[j],
    ensures
        simpson_running(ys, k) == simpson_running(zs, k),
    decreases k,
{
    if k > 1 {
        lemma_simpson_running_prefix(ys, zs, (k - 1) as nat);
    }
}

} // verus!
