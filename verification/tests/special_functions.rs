use quickmaths::fraction::{
    continued_fraction_a, ratio_to, upper_gamma_fraction, Fraction, Ratio, Tiny,
    UpperIncompleteGammaFraction,
};
use quickmaths::integral::riemann::{Area, Rectangle, Trapezoid};
use quickmaths::integral::{Integral, RiemannSum};
use quickmaths::poly::Polynomial;
use quickmaths::series::{kahan_sum, scale_factor_of, Series, Terms};
use quickmaths::stats::{
    erf, erfc, Distribution, ErfSeries, ErrorFunction, Normal, NormalDistribution,
};
use quickmaths::{epsilon, Digits, Error, Numeric};

/// A double that reports the radix `R` and the digit count `D`.
#[derive(Clone, Copy, Debug, PartialEq, PartialOrd)]
struct Float<const R: u32, const D: u32>(f64);

/// A double that reports itself as binary with 15 digits.
type F = Float<2, 15>;

impl<const R: u32, const D: u32> Numeric for Float<R, D> {
    fn zero() -> Self {
        Float(0.0)
    }
    fn one() -> Self {
        Float(1.0)
    }
    fn from_i32(n: i32) -> Self {
        Float(n as f64)
    }
    fn from_u32(n: u32) -> Self {
        Float(n as f64)
    }
    fn from_usize(n: usize) -> Self {
        Float(n as f64)
    }
    fn pi() -> Self {
        Float(std::f64::consts::PI)
    }
    fn sqrt_2() -> Self {
        Float(std::f64::consts::SQRT_2)
    }
    fn frac_2_sqrt_pi() -> Self {
        Float(std::f64::consts::FRAC_2_SQRT_PI)
    }
    fn add(self, rhs: Self) -> Self {
        Float(self.0 + rhs.0)
    }
    fn sub(self, rhs: Self) -> Self {
        Float(self.0 - rhs.0)
    }
    fn mul(self, rhs: Self) -> Self {
        Float(self.0 * rhs.0)
    }
    fn div(self, rhs: Self) -> Self {
        Float(self.0 / rhs.0)
    }
    fn neg(self) -> Self {
        Float(-self.0)
    }
    fn abs(self) -> Self {
        Float(self.0.abs())
    }
    fn sqrt(self) -> Self {
        Float(self.0.sqrt())
    }
    fn exp(self) -> Self {
        Float(self.0.exp())
    }
    fn powi(self, n: i32) -> Self {
        Float(self.0.powi(n))
    }
    fn is_zero(self) -> bool {
        self.0 == 0.0
    }
    fn lt(self, rhs: Self) -> bool {
        self.0 < rhs.0
    }
    fn le(self, rhs: Self) -> bool {
        self.0 <= rhs.0
    }
    fn zero_spec() -> Self {
        Self::zero()
    }
    fn one_spec() -> Self {
        Self::one()
    }
    fn from_i32_spec(n: i32) -> Self {
        Self::from_i32(n)
    }
    fn from_u32_spec(n: u32) -> Self {
        Self::from_u32(n)
    }
    fn from_usize_spec(n: usize) -> Self {
        Self::from_usize(n)
    }
    fn pi_spec() -> Self {
        Self::pi()
    }
    fn sqrt_2_spec() -> Self {
        Self::sqrt_2()
    }
    fn frac_2_sqrt_pi_spec() -> Self {
        Self::frac_2_sqrt_pi()
    }
    fn add_spec(self, rhs: Self) -> Self {
        self.add(rhs)
    }
    fn sub_spec(self, rhs: Self) -> Self {
        self.sub(rhs)
    }
    fn mul_spec(self, rhs: Self) -> Self {
        self.mul(rhs)
    }
    fn div_spec(self, rhs: Self) -> Self {
        self.div(rhs)
    }
    fn neg_spec(self) -> Self {
        self.neg()
    }
    fn abs_spec(self) -> Self {
        self.abs()
    }
    fn sqrt_spec(self) -> Self {
        self.sqrt()
    }
    fn exp_spec(self) -> Self {
        self.exp()
    }
    fn powi_spec(self, n: i32) -> Self {
        self.powi(n)
    }
    fn is_zero_spec(self) -> bool {
        self.is_zero()
    }
    fn lt_spec(self, rhs: Self) -> bool {
        self.lt(rhs)
    }
    fn le_spec(self, rhs: Self) -> bool {
        self.le(rhs)
    }
}

impl<const R: u32, const D: u32> Digits for Float<R, D> {
    fn radix(&self) -> u32 {
        R
    }
    fn digits(&self) -> u32 {
        D
    }
    fn radix_spec(&self) -> u32 {
        R
    }
    fn digits_spec(&self) -> u32 {
        D
    }
}

impl<const R: u32, const D: u32> Tiny for Float<R, D> {
    fn tiny() -> Self {
        Float(16.0 * f64::MIN_POSITIVE)
    }
    fn tiny_spec() -> Self {
        Self::tiny()
    }
    fn tiny_is_positive() {
        assert!(Self::zero().lt(Self::tiny()) && !Self::tiny().is_zero());
    }
}

fn terms(values: &[f64]) -> Terms<F> {
    Terms::new(values.iter().map(|v| Float(*v)).collect())
}

fn pairs(values: &[(f64, f64)]) -> Terms<Ratio<F>> {
    Terms::new(values.iter().map(|(b, a)| Ratio::new(Float(*b), Float(*a))).collect())
}

fn close(a: f64, b: f64, tolerance: f64) -> bool {
    (a - b).abs() <= tolerance
}

fn erf_at(x: f64) -> f64 {
    erf(Float::<2, 15>(x)).unwrap().0
}

fn erfc_at(x: f64) -> f64 {
    erfc(Float::<2, 15>(x)).unwrap().0
}

fn drain<S: Series>(mut source: S) -> Vec<S::Value> {
    let mut out = Vec::new();
    while let Some(v) = source.next() {
        out.push(v);
    }
    out
}

#[test]
fn it_works() {
    println!("{:?}", ErrorFunction::default().error(Float::<2, 15>(5.)));
    println!(
        "{:?}",
        NormalDistribution::standard().cdf(&Float::<2, 15>(0.2), ErrorFunction::default())
    );
    println!("{:?}", drain(terms(&[0., 4.]).integral()));
}

#[test]
fn it_works_values() {
    let e = ErrorFunction::default().error(Float::<2, 15>(5.)).unwrap().0;
    assert!(close(e, 0.9999999999984637, 1e-14));
    let c = NormalDistribution::standard()
        .cdf(&Float::<2, 15>(0.2), ErrorFunction::default())
        .unwrap()
        .0;
    assert!(close(c, 0.5792597093801933, 1e-14));
    assert_eq!(drain(terms(&[0., 4.]).integral()), vec![Float(0.), Float(0.), Float(2.)]);
}

#[test]
fn erf_and_erfc_sum_to_one() {
    for x in [-3.0, -1.0, -0.5, 0.0, 0.25, 0.5, 1.0, 1.29999, 1.30001, 1.5, 2.0, 5.0, 10.0, 200.0] {
        let sum = erf_at(x) + erfc_at(x);
        assert!(close(sum, 1.0, 4.0 * f64::EPSILON), "x = {}", x);
    }
}

#[test]
fn erf_is_odd_below_the_series_limit() {
    for x in [0.0, 0.1, 0.25, 0.5, 1.0, 1.2, 1.29] {
        assert_eq!(erf_at(-x), -erf_at(x), "x = {}", x);
    }
}

#[test]
fn erf_is_odd_within_tolerance_above_the_series_limit() {
    for x in [1.5, 2.0, 3.0, 5.0] {
        assert!(close(erf_at(-x), -erf_at(x), 2e-3), "x = {}", x);
    }
}

#[test]
fn erf_at_zero_and_far_out() {
    assert_eq!(erf_at(0.0), 0.0);
    assert_eq!(erfc_at(0.0), 1.0);
    assert!(close(erf_at(10.0), 1.0, 1e-9));
    // Past x^2 > 1/epsilon = 16384 the asymptotic tail is taken.
    assert!(close(erf_at(200.0), 1.0, 1e-9));
    assert_eq!(erfc_at(200.0), 0.0);
}

#[test]
fn erf_known_values() {
    assert!(close(erf_at(0.5), 0.5205002809390846, 1e-14));
    assert!(close(erf_at(1.0), 0.8426992967306517, 1e-14));
    assert!(close(erf_at(2.0), 0.9954073365879795, 1e-14));
    assert!(close(erfc_at(2.0), 0.004592663412020456, 1e-14));
    assert!(close(erfc_at(10.0), 2.088386184753441e-45, 1e-55));
    // Against the true function the evaluation is good to a few parts in a
    // thousand, as its coarse tolerance allows.
    assert!(close(erf_at(0.5), 0.5204998778130465, 1e-6));
    assert!(close(erf_at(1.5), 0.9661051464753108, 2e-3));
}

#[test]
fn erf_across_the_series_limit() {
    let below = erf_at(1.29999);
    let above = erf_at(1.30001);
    assert!(close(below, 0.9340026588910909, 1e-14));
    assert!(close(above, 0.938204973940325, 1e-14));
    assert!(close(below, above, 5e-3));
    assert!(below <= above);
}

#[test]
fn error_function_caps() {
    let caps = ErrorFunction::default();
    assert_eq!(caps.sum_max_iters, 1_000_000);
    assert_eq!(caps.fraction_max_iters, 1_000_000);
    // No term summed: the series regime gives zero.
    let none = ErrorFunction { sum_max_iters: 0, fraction_max_iters: 0 };
    assert_eq!(none.error(Float::<2, 15>(0.5)), Ok(Float(0.0)));
    assert_eq!(none.complementary_error(Float::<2, 15>(0.5)), Ok(Float(1.0)));
    // One term summed: 2/sqrt(pi) * x.
    let one = ErrorFunction { sum_max_iters: 1, fraction_max_iters: 0 };
    assert_eq!(
        one.error(Float::<2, 15>(0.5)),
        Ok(Float(std::f64::consts::FRAC_2_SQRT_PI * 0.5))
    );
    // No term pair pulled: the continued fraction has no value.
    assert_eq!(none.error(Float::<2, 15>(2.0)), Err(Error::EmptySequence));
    // The tail needs no term pair.
    assert_eq!(none.error(Float::<2, 15>(200.0)), Ok(Float(1.0)));
}

#[test]
fn error_function_on_unsupported_types() {
    let caps = ErrorFunction::default();
    assert_eq!(caps.error(Float::<3, 15>(0.5)), Err(Error::UnsupportedRadix));
    assert_eq!(caps.error(Float::<2, 53>(0.5)), Err(Error::PrecisionOutOfRange));
    assert_eq!(caps.error(Float::<2, 4000000000>(2.0)), Err(Error::PrecisionOutOfRange));
    // From the series limit on only the digit count is asked for.
    assert!(caps.error(Float::<3, 15>(2.0)).is_ok());
    // In base ten the precision-digit count of 15 digits is zero: factor one.
    assert!(caps.error(Float::<10, 15>(0.5)).is_ok());
}

#[test]
fn continued_fraction_of_two_pairs_is_the_second_convergent() {
    // sqrt(2) - 1 = 1/(2 + 1/(2 + ...)); its second convergent is
    // 1/(2 + 1/2) = 2/5, written with a unit partial denominator.
    let value = continued_fraction_a(pairs(&[(2.0, 1.0), (1.0, 0.5)]), Float(1e-12), 10).unwrap();
    assert!(close(value.0, 0.4, 1e-12));
    assert!(close(value.0, std::f64::consts::SQRT_2 - 1.0, 2e-2));
}

#[test]
fn continued_fraction_exact_values() {
    // One pair: a0 / b0.
    assert_eq!(continued_fraction_a(pairs(&[(2.0, 1.0)]), Float(1e-12), 10), Ok(Float(0.5)));
    // Two pairs (b0, a0), (b1, a1): a0 / (b0 * (b1 + a1 / b0) * b1).
    assert_eq!(
        continued_fraction_a(pairs(&[(2.0, 1.0), (2.0, 1.0)]), Float(1e-12), 10),
        Ok(Float(0.1))
    );
    assert_eq!(
        continued_fraction_a(pairs(&[(2.0, 1.0), (2.0, 1.0), (2.0, 1.0)]), Float(1e-12), 10),
        Ok(Float(0.010416666666666666))
    );
    // The cap counts the leading pair.
    assert_eq!(
        continued_fraction_a(pairs(&[(2.0, 1.0), (2.0, 1.0), (2.0, 1.0)]), Float(1e-12), 2),
        Ok(Float(0.1))
    );
    assert_eq!(
        continued_fraction_a(pairs(&[(2.0, 1.0), (2.0, 1.0), (2.0, 1.0)]), Float(1e-12), 1),
        Ok(Float(0.5))
    );
}

#[test]
fn continued_fraction_stops_when_the_product_settles() {
    // The second pair gives delta = 1 exactly, so the third is never used.
    let settled = continued_fraction_a(
        pairs(&[(1.0, 3.0), (1.0, 0.0), (5.0, 7.0)]),
        Float(1e-9),
        10,
    );
    assert_eq!(settled, Ok(Float(3.0)));
    // The sign of the factor does not matter.
    let negative = continued_fraction_a(
        pairs(&[(1.0, 3.0), (1.0, 0.0), (5.0, 7.0)]),
        Float(-1e-9),
        10,
    );
    assert_eq!(negative, Ok(Float(3.0)));
}

#[test]
fn continued_fraction_floors_exact_zeros() {
    let tiny = 16.0 * f64::MIN_POSITIVE;
    // A zero leading numerator is replaced by the floor value.
    assert_eq!(
        continued_fraction_a(pairs(&[(0.0, 1.0)]), Float(1e-12), 10),
        Ok(Float(1.0 / tiny))
    );
    // d = b + a * 0 = 0 is replaced too: delta = c * tiny.
    let value = continued_fraction_a(pairs(&[(1.0, 1.0), (0.0, 1.0)]), Float(1e-12), 10).unwrap();
    assert_eq!(value.0, 1.0 / (1.0 * ((0.0 + 1.0 / 1.0) * tiny)));
    assert!(value.0.is_finite());
}

#[test]
fn continued_fraction_of_nothing_fails() {
    assert_eq!(continued_fraction_a(pairs(&[]), Float(1e-12), 10), Err(Error::EmptySequence));
    assert_eq!(
        continued_fraction_a(pairs(&[(2.0, 1.0)]), Float(1e-12), 0),
        Err(Error::EmptySequence)
    );
}

#[test]
fn gamma_fraction_terms() {
    let mut g = UpperIncompleteGammaFraction::new(Float::<2, 15>(0.5), Float(4.0));
    let first = g.next().unwrap();
    assert_eq!((*first.numer(), *first.denom()), (Float(-0.5), Float(6.5)));
    let second = g.next().unwrap();
    assert_eq!((*second.numer(), *second.denom()), (Float(-3.0), Float(8.5)));
    let third = g.next().unwrap();
    assert_eq!((*third.numer(), *third.denom()), (Float(-7.5), Float(10.5)));
}

#[test]
fn upper_gamma_fraction_values() {
    let eps = Float::<2, 15>(0.00006103515625);
    assert_eq!(upper_gamma_fraction(Float(0.5), Float(4.0), eps, 0), Err(Error::EmptySequence));
    // One pair (b0, a0) = (-0.5, 6.5): 1 / (z - a + 1 + a0 / b0).
    assert_eq!(
        upper_gamma_fraction(Float(0.5), Float(4.0), eps, 1),
        Ok(Float(1.0 / (4.0 - 0.5 + 1.0 + 6.5 / -0.5)))
    );
    let full = upper_gamma_fraction(Float(0.5), Float(4.0), eps, 1000).unwrap();
    assert!(full.0.is_finite());
}

#[test]
fn kahan_sum_of_ten_tenths_is_exactly_one() {
    assert_eq!(kahan_sum(terms(&[0.1; 10]), None), Ok(Float(1.0)));
    let naive: f64 = [0.1; 10].iter().sum();
    assert_ne!(naive, 1.0);
}

#[test]
fn kahan_sum_edges() {
    assert_eq!(kahan_sum(terms(&[]), None), Ok(Float(0.0)));
    assert_eq!(kahan_sum(terms(&[2.5]), None), Ok(Float(2.5)));
    assert_eq!(kahan_sum(terms(&[0.1; 10]), Some(0)), Ok(Float(0.0)));
    assert_eq!(kahan_sum(terms(&[0.1; 10]), Some(1)), Ok(Float(0.1)));
    assert_eq!(kahan_sum(terms(&[1.0, 2.0, 3.0, 4.0]), Some(3)), Ok(Float(6.0)));
    // An empty series sums to zero whatever the type says of itself.
    let empty: Terms<Float<3, 15>> = Terms::new(vec![]);
    assert_eq!(kahan_sum(empty, None), Ok(Float(0.0)));
    let odd: Terms<Float<3, 15>> = Terms::new(vec![Float(1.0)]);
    assert_eq!(kahan_sum(odd, None), Err(Error::UnsupportedRadix));
    let wide: Terms<Float<2, 32>> = Terms::new(vec![Float(1.0)]);
    assert_eq!(kahan_sum(wide, None), Err(Error::PrecisionOutOfRange));
}

#[test]
fn kahan_sum_stops_once_terms_have_decayed() {
    // 2^15 * 1e-9 is far below the sum, so the third term is never added.
    assert_eq!(kahan_sum(terms(&[1.0, 1e-9, 100.0]), None), Ok(Float(1.0 + 1e-9)));
    // 2^15 * 1e-3 is above the sum, so summation goes on.
    assert_eq!(kahan_sum(terms(&[1.0, 1e-3, 100.0]), None), Ok(Float(1.0 + 1e-3 + 100.0)));
}

#[test]
fn scale_factor_and_epsilon() {
    assert_eq!(scale_factor_of::<Float<2, 15>>(), Ok(Float(32768.0)));
    assert_eq!(scale_factor_of::<Float<2, 31>>(), Ok(Float(2147483648.0)));
    assert_eq!(scale_factor_of::<Float<10, 15>>(), Ok(Float(1.0)));
    assert_eq!(scale_factor_of::<Float<10, 29999>>(), Ok(Float(2.0)));
    assert_eq!(scale_factor_of::<Float<16, 15>>(), Err(Error::UnsupportedRadix));
    assert_eq!(epsilon::<Float<2, 15>>(), Ok(Float(0.00006103515625)));
    assert_eq!(epsilon::<Float<2, 1>>(), Ok(Float(1.0)));
    assert_eq!(epsilon::<Float<2, 53>>(), Ok(Float(f64::EPSILON)));
    assert_eq!(epsilon::<Float<2, 2147483648>>(), Err(Error::PrecisionOutOfRange));
}

#[test]
fn precision_digits_by_radix() {
    assert_eq!(Float::<2, 15>(0.0).precision_digits(), Ok(15));
    assert_eq!(Float::<2, 53>(0.0).precision_digits(), Ok(53));
    assert_eq!(Float::<10, 15>(0.0).precision_digits(), Ok(0));
    assert_eq!(Float::<10, 29998>(0.0).precision_digits(), Ok(0));
    assert_eq!(Float::<10, 29999>(0.0).precision_digits(), Ok(1));
    assert_eq!(Float::<10, 4294967295>(0.0).precision_digits(), Ok(143165));
    assert_eq!(Float::<3, 15>(0.0).precision_digits(), Err(Error::UnsupportedRadix));
    assert_eq!(Float::<0, 15>(0.0).precision_digits(), Err(Error::UnsupportedRadix));
}

#[test]
fn ratio_parts_and_value() {
    let r = Ratio::new(13, 10);
    assert_eq!(*r.numer(), 13);
    assert_eq!(*r.denom(), 10);
    assert_eq!(ratio_to::<F>(r), Float(1.3));
    assert_eq!(ratio_to::<F>(Ratio::new(1, 2)), Float(0.5));
}

#[test]
fn erf_series_terms() {
    let mut s = ErfSeries::new(Float::<2, 15>(0.5));
    assert_eq!(s.next(), Some(Float(0.5)));
    // term 1: x * (-x^2) / 1!, over 3
    assert_eq!(s.next(), Some(Float(0.5 * (-0.25 / 1.0) / 3.0)));
    // term 2: the last term times -x^2 / 2, over 5
    assert_eq!(s.next(), Some(Float(0.5 * (-0.25 / 1.0) * (-0.25 / 2.0) / 5.0)));
}

#[test]
fn standard_normal_cdf_at_zero_is_one_half() {
    let n = NormalDistribution::<F>::standard();
    assert_eq!(n.cdf(&Float(0.0), ErrorFunction::default()), Ok(Float(0.5)));
    assert_eq!(Normal::<F>::standard().cdf(&Float(0.0)), Ok(Float(0.5)));
}

#[test]
fn normal_cdf_values() {
    let n = NormalDistribution::<F>::standard();
    let at = |x: f64| n.cdf(&Float(x), ErrorFunction::default()).unwrap().0;
    assert!(close(at(0.2), 0.5792597093801933, 1e-14));
    assert!(close(at(-1.0), 0.15865588083956078, 1e-14));
    assert!(close(at(1.0), 0.8413441191604392, 1e-14));
    assert!(close(at(3.0), 0.9986477438284149, 1e-14));
    // A shifted and scaled distribution is the standard one at (x - mean) / sd.
    let m = NormalDistribution::new(Float::<2, 15>(2.0), Float(4.0));
    assert_eq!(m.cdf(&Float(2.0), ErrorFunction::default()), Ok(Float(0.5)));
    assert!(close(m.cdf(&Float(6.0), ErrorFunction::default()).unwrap().0, at(1.0), 1e-14));
    let old = Normal::new(Float::<2, 15>(2.0), Float(4.0));
    assert_eq!(old.cdf(&Float(6.0)), m.cdf(&Float(6.0), ErrorFunction::default()));
    let odd = NormalDistribution::<Float<7, 15>>::standard();
    assert_eq!(odd.cdf(&Float(0.5), ErrorFunction::default()), Err(Error::UnsupportedRadix));
}

#[test]
fn normal_cdf_is_monotone_on_a_grid() {
    for (mean, sd) in [(0.0, 1.0), (1.5, 0.25), (-3.0, 10.0)] {
        let n = NormalDistribution::new(Float::<2, 15>(mean), Float(sd));
        let mut last = 0.0;
        // Further than four deviations above the mean the power series no
        // longer resolves the steps of the grid.
        for step in -60..=40 {
            let x = mean + sd * (step as f64) / 10.0;
            let p = n.cdf(&Float(x), ErrorFunction::default()).unwrap().0;
            assert!(last <= p, "mean {} sd {} x {}", mean, sd, x);
            assert!(0.0 <= p && p <= 1.0);
            last = p;
        }
    }
}

#[test]
fn polynomial_integral_and_division() {
    assert_eq!(drain(terms(&[0., 4.]).integral()), vec![Float(0.), Float(0.), Float(2.)]);
    assert_eq!(
        drain(terms(&[3., 2., 9.]).integral()),
        vec![Float(0.), Float(3.), Float(1.), Float(3.)]
    );
    assert_eq!(drain(terms(&[]).integral()), vec![Float(0.)]);
    assert_eq!(drain(terms(&[3., -2., 9.]).div(Float(2.))), vec![Float(1.5), Float(-1.), Float(4.5)]);
}

fn total<S: Area<F>>(mut sum: RiemannSum<fn(F) -> F, F, S>) -> (f64, usize) {
    let mut acc = 0.0;
    let mut n = 0;
    while let Some(part) = sum.next() {
        acc += part.0;
        n += 1;
    }
    (acc, n)
}

fn identity(x: F) -> F {
    x
}

#[test]
fn riemann_sums_of_the_identity() {
    let f: fn(F) -> F = identity;
    let (mid, n) = total(RiemannSum::midpoint(Float(1.), Float(3.), 1_000, f));
    assert_eq!(n, 1_000);
    assert!(close(mid, 4.0, 1e-9));
    let (left, _) = total(RiemannSum::left(Float(1.), Float(3.), 1_000, f));
    assert!(close(left, 3.998, 1e-9));
    let (right, _) = total(RiemannSum::right(Float(1.), Float(3.), 1_000, f));
    assert!(close(right, 4.002, 1e-9));
    let (trapezoid, _) = total(RiemannSum::trapezoid(Float(1.), Float(3.), 1_000, f));
    assert!(close(trapezoid, 4.0, 1e-9));
    let (by_integral, _) = total(Integral::new(Float(1.), Float(3.), 1_000, f).riemann_sum(Trapezoid));
    assert!(close(by_integral, 4.0, 1e-9));
    let (none, n) = total(RiemannSum::new(Float(1.), Float(3.), 0, f, Rectangle::Left));
    assert_eq!((none, n), (0.0, 0));
}

#[test]
fn areas_of_single_steps() {
    let f = |x: F| Float(x.0 * x.0);
    // step 2 of width 0.5 from 1: [2, 2.5]
    assert_eq!(Area::area(&Rectangle::Left, Float(1.), Float(0.5), 2, &f), Float(4.0 * 0.5));
    assert_eq!(Area::area(&Rectangle::Right, Float(1.), Float(0.5), 2, &f), Float(6.25 * 0.5));
    assert_eq!(
        Area::area(&Rectangle::MidPoint, Float(1.), Float(0.5), 2, &f),
        Float(2.25 * 2.25 * 0.5)
    );
    assert_eq!(
        Area::area(&Trapezoid, Float(1.), Float(0.5), 2, &f),
        Float(0.5 * 0.5 * (4.0 + 6.25))
    );
}

#[test]
fn simpson_rule() {
    let curve = |x: F| Float((1.0 + 4.0 * x.0 * x.0).sqrt());
    let length = Integral::new(Float(-5.0), Float(5.0), 1_000, curve).simpson().0;
    let primitive = |x: f64| (x * (1.0 + 4.0 * x * x).sqrt() / 2.0) + ((2.0 * x).asinh() / 4.0);
    assert!(close(length, primitive(5.0) - primitive(-5.0), 1e-8));
    let wave = |x: F| Float(x.0.cos() + 5.);
    let pi = std::f64::consts::PI;
    let area = Integral::new(Float(-pi), Float(pi), 1_000, wave).simpson().0;
    assert!(close(area, 2.0 * pi * 5.0, 1e-9));
    // Two steps over [0, 2] of x^2: (0 + 4 + 4 * 1) * (1 / 3).
    let square = |x: F| Float(x.0 * x.0);
    assert_eq!(
        Integral::new(Float(0.), Float(2.), 2, square).simpson(),
        Float((0.0 + 4.0 + 1.0 * 4.0) * (1.0 / 3.0))
    );
}

#[test]
fn monte_carlo_from_given_draws() {
    let f = |x: F| Float(3. * x.0 * x.0);
    let integral = Integral::new(Float(0.), Float(1.), 4, f);
    // dx = 1/4; the draws 0.5, 1.0, 0.0 give 0.75 + 3 + 0.
    assert_eq!(
        integral.monte_carlo(&vec![Float(0.5), Float(1.0), Float(0.0)]),
        Float(0.25 * 3.75)
    );
    assert_eq!(integral.monte_carlo(&vec![]), Float(0.0));
    // An even grid of draws comes close to the integral.
    let steps = 100_000;
    let grid: Vec<F> = (1..steps).map(|i| Float(i as f64 / steps as f64)).collect();
    let fine = Integral::new(Float(0.), Float(1.), steps, f);
    assert!(close(fine.monte_carlo(&grid).0, 1.0, 1e-2));
}
