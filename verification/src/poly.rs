//! Polynomials as sequences of coefficients, from the constant term up

use vstd::prelude::*;
use crate::factor::{divides, gcd_fold, lemma_gcd_fold_divides, magnitude};
use crate::numeric::Numeric;
use crate::series::Series;

verus! {

/// The coefficients of a polynomial divided, one by one, by a fixed divisor.
pub struct Divide<S: Series> {
    iter: S,
    divisor: S::Value,
}

/// The coefficients of the integral of a polynomial: a zero constant term,
/// then each coefficient divided by its new exponent.
pub struct Integral<S: Series> {
    iter: S,
    pos: usize,
}

impl<S: Series> Divide<S> {
    /// The coefficients still to be divided.
    pub closed spec fn iter_spec(&self) -> S {
        self.iter
    }

    pub closed spec fn divisor_spec(&self) -> S::Value {
        self.divisor
    }

    /// The quotients of the coefficients of `iter` by `divisor`.
    pub closed spec fn at(iter: S, divisor: S::Value) -> Self {
        Divide { iter, divisor }
    }

    /// A source is known by its two parts.
    pub proof fn lemma_at(self)
        ensures
            self == Self::at(self.iter_spec(), self.divisor_spec()),
            forall|iter: S, divisor: S::Value|
                (#[trigger] Self::at(iter, divisor)).iter_spec() == iter && Self::at(
                    iter,
                    divisor,
                ).divisor_spec() == divisor,
    {
    }

    pub fn new(iter: S, divisor: S::Value) -> (r: Self)
        ensures
            r == Self::at(iter, divisor),
    {
        Divide { iter, divisor }
    }
}

impl<S: Series> Series for Divide<S> where S::Value: Numeric {
    type Value = S::Value;

    open spec fn wf(&self) -> bool {
        self.iter_spec().wf()
    }

    open spec fn peek_spec(&self) -> Option<S::Value> {
        match self.iter_spec().peek_spec() {
            None => None,
            Some(lhs) => Some(lhs.div_spec(self.divisor_spec())),
        }
    }

    open spec fn rest_spec(&self) -> Self {
        Self::at(self.iter_spec().rest_spec(), self.divisor_spec())
    }

    fn next(&mut self) -> (r: Option<S::Value>) {
        match self.iter.next() {
            None => None,
            Some(lhs) => Some(lhs.div(self.divisor)),
        }
    }
}

impl<S: Series> Integral<S> {
    /// The coefficients still to be integrated.
    pub closed spec fn iter_spec(&self) -> S {
        self.iter
    }

    /// The exponent of the coefficient that comes next.
    pub closed spec fn pos_spec(&self) -> usize {
        self.pos
    }

    /// The integral's coefficients from exponent `pos` on, with the
    /// coefficients `iter` still to be integrated.
    pub closed spec fn at(iter: S, pos: usize) -> Self {
        Integral { iter, pos }
    }

    /// A source is known by its two parts.
    pub proof fn lemma_at(self)
        ensures
            self == Self::at(self.iter_spec(), self.pos_spec()),
            forall|iter: S, pos: usize|
                (#[trigger] Self::at(iter, pos)).iter_spec() == iter && Self::at(
                    iter,
                    pos,
                ).pos_spec() == pos,
    {
    }

    pub fn new(iter: S) -> (r: Self)
        ensures
            r == Self::at(iter, 0),
    {
        Integral { iter, pos: 0 }
    }
}

impl<S: Series> Series for Integral<S> where S::Value: Numeric {
    type Value = S::Value;

    open spec fn wf(&self) -> bool {
        self.iter_spec().wf()
    }

    /// Zero at exponent zero; after that the next coefficient over its new
    /// exponent. The source ends with its coefficients, or where the
    /// exponent can no longer be counted up.
    open spec fn peek_spec(&self) -> Option<S::Value> {
        if self.pos_spec() == usize::MAX {
            None
        } else if self.pos_spec() == 0 {
            Some(S::Value::zero_spec())
        } else {
            match self.iter_spec().peek_spec() {
                None => None,
                Some(c) => Some(c.div_spec(S::Value::from_usize_spec(self.pos_spec()))),
            }
        }
    }

    open spec fn rest_spec(&self) -> Self {
        if self.pos_spec() == usize::MAX {
            *self
        } else if self.pos_spec() == 0 {
            Self::at(self.iter_spec(), 1)
        } else {
            Self::at(self.iter_spec().rest_spec(), (self.pos_spec() + 1) as usize)
        }
    }

    fn next(&mut self) -> (r: Option<S::Value>) {
        if self.pos == usize::MAX {
            return None;
        }
        let coeff = if self.pos == 0 {
            Some(S::Value::zero())
        } else {
            match self.iter.next() {
                None => None,
                Some(c) => Some(c.div(S::Value::from_usize(self.pos))),
            }
        };
        self.pos = self.pos + 1;
        coeff
    }
}

/// What a sequence of coefficients offers as a polynomial.
pub trait Polynomial: Series {
    /// The coefficients of the integral with constant term zero.
    fn integral(self) -> (r: Integral<Self>)
        ensures
            r == Integral::at(self, 0),
    {
        Integral::new(self)
    }

    /// The coefficients divided by `divisor`.
    fn div(self, divisor: Self::Value) -> (r: Divide<Self>)
        ensures
            r == Divide::at(self, divisor),
    {
        Divide::new(self, divisor)
    }
}

impl<S: Series> Polynomial for S {
}

/// The content of a polynomial with integer coefficients: their greatest
/// common divisor, folded from the left; zero for no coefficients.
pub fn content(coefficients: &Vec<i64>) -> (r: i64)
    requires
        forall|k: int| 0 <= k < coefficients@.len() ==> coefficients@[k] > i64::MIN,
    ensures
        coefficients@.len() == 0 ==> r == 0,
        coefficients@.len() > 0 ==> r == gcd_fold(coefficients@),
{
    crate::gcd(coefficients)
}

/// The quotient of `a` by `b` rounded towards zero.
pub open spec fn quotient_of(a: int, b: int) -> int {
    if (a >= 0) == (b > 0) {
        magnitude(a) as int / magnitude(b) as int
    } else {
        -(magnitude(a) as int / magnitude(b) as int)
    }
}

/// Where `b` divides `a` the quotient is exact.
pub proof fn lemma_quotient_exact(a: int, b: int)
    requires
        b != 0,
        divides(magnitude(b), magnitude(a)),
    ensures
        quotient_of(a, b) * b == a,
{
    let p = magnitude(a) as int;
    let q = magnitude(b) as int;
    vstd::arithmetic::div_mod::lemma_fundamental_div_mod(p, q);
    let m = p / q;
    assert(p == q * m);
    if a >= 0 && b > 0 {
        assert(m * b == a) by (nonlinear_arith)
            requires
                a == b * m,
        ;
    } else if a < 0 && b < 0 {
        assert(m * b == a) by (nonlinear_arith)
            requires
                -a == (-b) * m,
        ;
    } else if a >= 0 && b < 0 {
        assert((-m) * b == a) by (nonlinear_arith)
            requires
                a == (-b) * m,
        ;
    } else {
        assert((-m) * b == a) by (nonlinear_arith)
            requires
                -a == b * m,
        ;
    }
}

/// Divides `a` by `b`, rounding towards zero.
pub fn quotient(a: i64, b: i64) -> (r: i64)
    requires
        b != 0,
        a > i64::MIN,
        b > i64::MIN,
    ensures
        r == quotient_of(a as int, b as int),
{
    let p: i64 = if a < 0 {
        -a
    } else {
        a
    };
    let q: i64 = if b < 0 {
        -b
    } else {
        b
    };
    let m: i64 = p / q;
    assert(0 <= m <= p) by (nonlinear_arith)
        requires
            m == p as int / q as int,
            p >= 0,
            q >= 1,
    ;
    if (a >= 0) == (b > 0) {
        m
    } else {
        -m
    }
}

/// The primitive part of a polynomial with integer coefficients: each
/// coefficient divided by the content. `None` where the content is zero.
pub fn primitive_part(coefficients: &Vec<i64>) -> (r: Option<Vec<i64>>)
    requires
        forall|k: int| 0 <= k < coefficients@.len() ==> coefficients@[k] > i64::MIN,
    ensures
        r is None <==> content_of(coefficients@) == 0,
        r is Some ==> r->Some_0@.len() == coefficients@.len() && forall|k: int|
            0 <= k < coefficients@.len() ==> #[trigger] r->Some_0@[k] as int == quotient_of(
                coefficients@[k] as int,
                content_of(coefficients@),
            ) && r->Some_0@[k] * content_of(coefficients@) == coefficients@[k],
{
    let divisor: i64 = content(coefficients);
    if divisor == 0 {
        return None;
    }
    let mut out: Vec<i64> = Vec::new();
    let mut k: usize = 0;
    while k < coefficients.len()
        invariant
            k <= coefficients@.len(),
            divisor != 0,
            divisor > i64::MIN,
            divisor == content_of(coefficients@),
            forall|j: int| 0 <= j < coefficients@.len() ==> coefficients@[j] > i64::MIN,
            out@.len() == k,
            forall|j: int|
                0 <= j < k ==> #[trigger] out@[j] as int == quotient_of(
                    coefficients@[j] as int,
                    divisor as int,
                ) && out@[j] * divisor == coefficients@[j],
        decreases coefficients@.len() - k,
    {
        proof {
            lemma_gcd_fold_divides(coefficients@, k as int);
            lemma_quotient_exact(coefficients@[k as int] as int, divisor as int);
        }
        out.push(quotient(coefficients[k], divisor));
        k = k + 1;
    }
    Some(out)
}

/// The content of the coefficients `s`.
pub open spec fn content_of(s: Seq<i64>) -> int {
    if s.len() == 0 {
        0
    } else {
        gcd_fold(s)
    }
}

} // verus!
