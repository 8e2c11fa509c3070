use vstd::prelude::*;
use crate::numeric::Numeric;

verus! {

/// The pairs `(x, y)` for which `f` may return `y` at `x`.
pub open spec fn graph_of<F: Fn(T) -> T, T>(f: F) -> spec_fn(T, T) -> bool {
    |x: T, y: T| f.ensures((x,), y)
}

/// The shape that stands over one step of a Riemann sum.
pub trait Area<T> {
    /// Whether `r` is the area of the shape over step `i` of width `dx`
    /// from `a` on, for some values that the function may return at the
    /// points the shape samples; `graph(x, y)` says that it may return `y`
    /// at `x`.
    spec fn area_spec(&self, a: T, dx: T, i: usize, graph: spec_fn(T, T) -> bool, r: T) -> bool;

    fn area<F: Fn(T) -> T>(&self, a: T, dx: T, i: usize, f: &F) -> (r: T)
        requires
            i < usize::MAX,
            forall|x: T| f.requires((x,)),
        ensures
            self.area_spec(a, dx, i, graph_of(*f), r),
    ;
}

/// A rectangle, as high as the function is at one point of the step.
pub enum Rectangle {
    MidPoint,
    Left,
    Right,
}

impl Rectangle {
    /// The point of step `i` at which the rectangle samples the function:
    /// the step's left end `a + i * dx`, moved right by a whole or half `dx`
    /// before the step offset is added.
    pub open spec fn sample_point<T: Numeric>(&self, a: T, dx: T, i: usize) -> T {
        let offset = T::from_usize_spec(i).mul_spec(dx);
        match self {
            Rectangle::Left => a.add_spec(offset),
            Rectangle::Right => a.add_spec(dx).add_spec(offset),
            Rectangle::MidPoint => a.add_spec(dx.div_spec(T::from_i32_spec(2))).add_spec(offset),
        }
    }
}

impl<T: Numeric> Area<T> for Rectangle {
    /// The value of `f` at the sample point, times the width.
    open spec fn area_spec(&self, a: T, dx: T, i: usize, graph: spec_fn(T, T) -> bool, r: T) -> bool {
        exists|y: T| #[trigger] graph(self.sample_point(a, dx, i), y) && r == y.mul_spec(dx)
    }

    fn area<F: Fn(T) -> T>(&self, a: T, dx: T, i: usize, f: &F) -> (r: T) {
        let offset = T::from_usize(i).mul(dx);
        let x = match self {
            Rectangle::Left => a.add(offset),
            Rectangle::Right => a.add(dx).add(offset),
            Rectangle::MidPoint => a.add(dx.div(T::from_i32(2))).add(offset),
        };
        let y = f(x);
        assert(x == self.sample_point(a, dx, i));
        assert(graph_of(*f)(x, y));
        y.mul(dx)
    }
}

/// A trapezoid between the function's values at the two ends of the step.
pub struct Trapezoid;

impl<T: Numeric> Area<T> for Trapezoid {
    /// Half the width times the sum of the values of `f` at `a + i * dx`
    /// and `a + (i + 1) * dx`.
    open spec fn area_spec(&self, a: T, dx: T, i: usize, graph: spec_fn(T, T) -> bool, r: T) -> bool {
        exists|y0: T, y1: T|
            {
                &&& #[trigger] graph(a.add_spec(T::from_usize_spec(i).mul_spec(dx)), y0)
                &&& #[trigger] graph(
                    a.add_spec(T::from_usize_spec((i + 1) as usize).mul_spec(dx)),
                    y1,
                )
                &&& r == T::one_spec().div_spec(T::from_i32_spec(2)).mul_spec(dx).mul_spec(
                    y0.add_spec(y1),
                )
            }
    }

    fn area<F: Fn(T) -> T>(&self, a: T, dx: T, i: usize, f: &F) -> (r: T) {
        let half = T::one().div(T::from_i32(2));
        let x0 = a.add(T::from_usize(i).mul(dx));
        let y0 = f(x0);
        let x1 = a.add(T::from_usize(i + 1).mul(dx));
        let y1 = f(x1);
        assert(graph_of(*f)(x0, y0) && graph_of(*f)(x1, y1));
        half.mul(dx).mul(y0.add(y1))
    }
}

/// The areas of a Riemann sum, handed out step by step.
pub struct RiemannSum<F, T, S> {
    f: F,
    a: T,
    n: usize,
    i: usize,
    dx: T,
    shape: S,
}

impl<F, T, S> RiemannSum<F, T, S> {
    /// The function that is integrated.
    pub closed spec fn f_spec(&self) -> F {
        self.f
    }

    /// The left end of the interval.
    pub closed spec fn a_spec(&self) -> T {
        self.a
    }

    /// The number of steps.
    pub closed spec fn n_spec(&self) -> usize {
        self.n
    }

    /// The number of steps handed out.
    pub closed spec fn i_spec(&self) -> usize {
        self.i
    }

    /// The width of a step.
    pub closed spec fn dx_spec(&self) -> T {
        self.dx
    }

    pub closed spec fn shape_spec(&self) -> S {
        self.shape
    }

    /// The same sum with `i` steps handed out.
    pub closed spec fn at_step(self, i: usize) -> Self {
        RiemannSum { i, ..self }
    }
}

impl<F, T: Numeric, S> RiemannSum<F, T, S> {
    /// The sum over `[a, b]` in `n` steps of width `(b - a) / n`, before any
    /// step is handed out.
    pub fn new(a: T, b: T, n: usize, f: F, shape: S) -> (r: Self)
        ensures
            r.f_spec() == f,
            r.a_spec() == a,
            r.n_spec() == n,
            r.i_spec() == 0,
            r.dx_spec() == b.sub_spec(a).div_spec(T::from_usize_spec(n)),
            r.shape_spec() == shape,
    {
        Self { f, a, n, i: 0, dx: b.sub(a).div(T::from_usize(n)), shape }
    }
}

impl<F, T: Numeric> RiemannSum<F, T, Rectangle> {
    /// The sum of rectangles sampled at the left end of each step.
    pub fn left(a: T, b: T, n: usize, f: F) -> (r: Self)
        ensures
            r.f_spec() == f,
            r.a_spec() == a,
            r.n_spec() == n,
            r.i_spec() == 0,
            r.dx_spec() == b.sub_spec(a).div_spec(T::from_usize_spec(n)),
            r.shape_spec() is Left,
    {
        Self::new(a, b, n, f, Rectangle::Left)
    }

    /// The sum of rectangles sampled at the right end of each step.
    pub fn right(a: T, b: T, n: usize, f: F) -> (r: Self)
        ensures
            r.f_spec() == f,
            r.a_spec() == a,
            r.n_spec() == n,
            r.i_spec() == 0,
            r.dx_spec() == b.sub_spec(a).div_spec(T::from_usize_spec(n)),
            r.shape_spec() is Right,
    {
        Self::new(a, b, n, f, Rectangle::Right)
    }

    /// The sum of rectangles sampled at the middle of each step.
    pub fn midpoint(a: T, b: T, n: usize, f: F) -> (r: Self)
        ensures
            r.f_spec() == f,
            r.a_spec() == a,
            r.n_spec() == n,
            r.i_spec() == 0,
            r.dx_spec() == b.sub_spec(a).div_spec(T::from_usize_spec(n)),
            r.shape_spec() is MidPoint,
    {
        Self::new(a, b, n, f, Rectangle::MidPoint)
    }
}

impl<F, T: Numeric> RiemannSum<F, T, Trapezoid> {
    /// The sum of trapezoids.
    pub fn trapezoid(a: T, b: T, n: usize, f: F) -> (r: Self)
        ensures
            r.f_spec() == f,
            r.a_spec() == a,
            r.n_spec() == n,
            r.i_spec() == 0,
            r.dx_spec() == b.sub_spec(a).div_spec(T::from_usize_spec(n)),
    {
        Self::new(a, b, n, f, Trapezoid)
    }
}

impl<F: Fn(T) -> T, T: Numeric, S: Area<T>> RiemannSum<F, T, S> {
    /// The area over the next step, while one of the `n` steps is left; the
    /// sum then stands one step further.
    pub fn next(&mut self) -> (r: Option<T>)
        requires
            forall|x: T| old(self).f_spec().requires((x,)),
        ensures
            r is Some <==> old(self).i_spec() < old(self).n_spec(),
            r is None ==> *final(self) == *old(self),
            r is Some ==> *final(self) == old(self).at_step((old(self).i_spec() + 1) as usize)
                && old(self).shape_spec().area_spec(
                old(self).a_spec(),
                old(self).dx_spec(),
                old(self).i_spec(),
                graph_of(old(self).f_spec()),
                r->Some_0,
            ),
    {
        assert(self.f_spec() == self.f);
        if self.i < self.n {
            let part = self.shape.area(self.a, self.dx, self.i, &self.f);
            self.i += 1;
            Some(part)
        } else {
            None
        }
    }
}

} // verus!
