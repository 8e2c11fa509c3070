//! Factorization and primes

use vstd::prelude::*;

pub mod prime_factors;

pub use prime_factors::PrimeFactors;

verus! {

/// The greatest common divisor of two natural numbers, by Euclid's rule;
/// the greatest common divisor of zero and `a` is `a`.
pub open spec fn gcd_of(a: nat, b: nat) -> nat
    decreases b,
{
    if b == 0 {
        a
    } else {
        gcd_of(b, a % b)
    }
}

/// Whether `d` divides `n`; zero divides zero alone.
pub open spec fn divides(d: nat, n: nat) -> bool {
    if d == 0 {
        n == 0
    } else {
        n % d == 0
    }
}

/// What divides two numbers divides the sum of one and a multiple of the
/// other.
pub proof fn lemma_divides_combination(d: nat, b: nat, q: nat, r: nat)
    requires
        d > 0,
        b % d == 0,
        r % d == 0,
    ensures
        (b * q + r) % d == 0,
{
    let m = b / d;
    let n = r / d;
    vstd::arithmetic::div_mod::lemma_fundamental_div_mod(b as int, d as int);
    vstd::arithmetic::div_mod::lemma_fundamental_div_mod(r as int, d as int);
    assert(b * q + r == (m * q + n) * d) by (nonlinear_arith)
        requires
            b == d * m,
            r == d * n,
    ;
    vstd::arithmetic::div_mod::lemma_mod_multiples_basic((m * q + n) as int, d as int);
}

/// What divides two numbers divides the remainder of one by the other.
pub proof fn lemma_divides_remainder(d: nat, a: nat, b: nat)
    requires
        d > 0,
        b > 0,
        a % d == 0,
        b % d == 0,
    ensures
        (a % b) % d == 0,
{
    let m = (a / d) as int;
    let n = (b / d) as int;
    let q = (a / b) as int;
    let r = (a % b) as int;
    vstd::arithmetic::div_mod::lemma_fundamental_div_mod(a as int, d as int);
    vstd::arithmetic::div_mod::lemma_fundamental_div_mod(b as int, d as int);
    vstd::arithmetic::div_mod::lemma_fundamental_div_mod(a as int, b as int);
    assert(d * (n * q) == (d * n) * q) by (nonlinear_arith);
    assert(d * m - d * (n * q) == (m - n * q) * d) by (nonlinear_arith);
    assert(r == (m - n * q) * d);
    vstd::arithmetic::div_mod::lemma_mod_multiples_basic(m - n * q, d as int);
}

/// `gcd_of` is a common divisor: it divides both numbers, and is zero only
/// for two zeros.
pub proof fn lemma_gcd_divides(a: nat, b: nat)
    ensures
        divides(gcd_of(a, b), a),
        divides(gcd_of(a, b), b),
        gcd_of(a, b) == 0 <==> (a == 0 && b == 0),
    decreases b,
{
    if b == 0 {
        if a > 0 {
            vstd::arithmetic::div_mod::lemma_mod_self_0(a as int);
            vstd::arithmetic::div_mod::lemma_small_mod(0, a);
        }
    } else {
        let g = gcd_of(b, a % b);
        lemma_gcd_divides(b, a % b);
        assert(g > 0);
        vstd::arithmetic::div_mod::lemma_fundamental_div_mod(a as int, b as int);
        lemma_divides_combination(g, b, a / b, a % b);
        assert(b * (a / b) + a % b == a);
    }
}

/// `gcd_of` is the greatest of the common divisors: every common divisor
/// divides it.
pub proof fn lemma_gcd_greatest(a: nat, b: nat, d: nat)
    requires
        divides(d, a),
        divides(d, b),
    ensures
        divides(d, gcd_of(a, b)),
    decreases b,
{
    if b != 0 {
        lemma_divides_remainder(d, a, b);
        lemma_gcd_greatest(b, a % b, d);
    }
}

/// The distance of `x` from zero.
pub open spec fn magnitude(x: int) -> nat {
    if x < 0 {
        (-x) as nat
    } else {
        x as nat
    }
}

/// The greatest common divisor of two integers, as `num`'s
/// `Integer::gcd` computes it for `i64`: that of their magnitudes, and so
/// never negative. The least `i64` is left out, whose magnitude `num`
/// cannot represent.
#[verifier::external_body]
pub(crate) fn gcd_pair(a: i64, b: i64) -> (r: i64)
    requires
        a > i64::MIN,
        b > i64::MIN,
    ensures
        r == gcd_of(magnitude(a as int), magnitude(b as int)),
        r >= 0,
{
    num::Integer::gcd(&a, &b)
}

/// The largest integer whose square is at most `n`, as `num`'s
/// `Roots::sqrt` computes it for `u64`.
#[verifier::external_body]
pub(crate) fn integer_sqrt(n: u64) -> (r: u64)
    ensures
        r * r <= n < (r + 1) * (r + 1),
{
    num::integer::Roots::sqrt(&n)
}

/// The integers folded from the left by the greatest common divisor: the
/// first as it stands, each further one combined with what came before.
pub open spec fn gcd_fold(integers: Seq<i64>) -> int
    recommends
        integers.len() > 0,
    decreases integers.len(),
{
    if integers.len() <= 1 {
        integers[0] as int
    } else {
        gcd_of(magnitude(gcd_fold(integers.drop_last())), magnitude(integers.last() as int)) as int
    }
}

/// The fold divides every one of the integers.
pub proof fn lemma_gcd_fold_divides(integers: Seq<i64>, k: int)
    requires
        0 <= k < integers.len(),
    ensures
        divides(magnitude(gcd_fold(integers)), magnitude(integers[k] as int)),
    decreases integers.len(),
{
    let g = magnitude(gcd_fold(integers));
    if integers.len() <= 1 {
        if g > 0 {
            vstd::arithmetic::div_mod::lemma_mod_self_0(g as int);
        }
    } else {
        let front = integers.drop_last();
        let f = magnitude(gcd_fold(front));
        let l = magnitude(integers.last() as int);
        lemma_gcd_divides(f, l);
        assert(g == gcd_of(f, l));
        if k < front.len() {
            lemma_gcd_fold_divides(front, k);
            assert(front[k] == integers[k]);
            let m = magnitude(integers[k] as int);
            if g > 0 && f > 0 {
                lemma_divisor_of_divisor(m, f, g);
            }
        }
    }
}

/// Folds `integers` by the greatest common divisor, starting from the first.
/// `None` for no integers at all.
pub fn gcd_fold_of(integers: &Vec<i64>) -> (r: Option<i64>)
    requires
        forall|k: int| 0 <= k < integers@.len() ==> integers@[k] > i64::MIN,
    ensures
        integers@.len() == 0 <==> r is None,
        integers@.len() > 0 ==> r == Some(gcd_fold(integers@) as i64) && gcd_fold(integers@)
            == r->Some_0,
{
    if integers.len() == 0 {
        return None;
    }
    let mut acc: i64 = integers[0];
    let mut k: usize = 1;
    assert(integers@.take(1).len() == 1);
    assert(integers@.take(1)[0] == integers@[0]);
    while k < integers.len()
        invariant
            1 <= k <= integers@.len(),
            forall|j: int| 0 <= j < integers@.len() ==> integers@[j] > i64::MIN,
            acc == gcd_fold(integers@.take(k as int)),
            acc > i64::MIN,
        decreases integers@.len() - k,
    {
        proof {
            let next = integers@.take(k as int + 1);
            assert(next.drop_last() =~= integers@.take(k as int));
            assert(next.last() == integers@[k as int]);
        }
        acc = gcd_pair(acc, integers[k]);
        k = k + 1;
    }
    assert(integers@.take(k as int) =~= integers@);
    Some(acc)
}

/// The greatest common divisor of `integers`, folded from the left; one for
/// no integers at all.
pub fn gcd(integers: &Vec<i64>) -> (r: i64)
    requires
        forall|k: int| 0 <= k < integers@.len() ==> integers@[k] > i64::MIN,
    ensures
        integers@.len() == 0 ==> r == 1,
        integers@.len() > 0 ==> r == gcd_fold(integers@),
{
    match gcd_fold_of(integers) {
        None => 1,
        Some(g) => g,
    }
}

/// Whether `n` is a prime: at least two, and divisible by nothing between
/// one and itself.
pub open spec fn is_prime_number(n: nat) -> bool {
    n >= 2 && forall|d: nat| 2 <= d < n ==> #[trigger] (n % d) != 0
}

/// A multiple of `d` is a multiple of every divisor of `d`.
pub proof fn lemma_divisor_of_divisor(n: nat, d: nat, e: nat)
    requires
        d > 0,
        e > 0,
        n % d == 0,
        d % e == 0,
    ensures
        n % e == 0,
{
    let q = n / d;
    let p = d / e;
    assert(n == d * q) by {
        vstd::arithmetic::div_mod::lemma_fundamental_div_mod(n as int, d as int);
    }
    assert(d == e * p) by {
        vstd::arithmetic::div_mod::lemma_fundamental_div_mod(d as int, e as int);
    }
    assert(n == e * (p * q)) by (nonlinear_arith)
        requires
            n == d * q,
            d == e * p,
    ;
    vstd::arithmetic::div_mod::lemma_mod_multiples_basic((p * q) as int, e as int);
    assert((p * q) * e == e * (p * q)) by (nonlinear_arith);
}

/// A proper divisor `d` of `n` has a cofactor `n / d` that divides `n` too,
/// and one of the two is at most the square root of `n`.
pub proof fn lemma_cofactor(n: nat, d: nat)
    requires
        2 <= d < n,
        n % d == 0,
    ensures
        2 <= n / d < n,
        n % (n / d) == 0,
        d * (n / d) == n,
{
    let q = n / d;
    vstd::arithmetic::div_mod::lemma_fundamental_div_mod(n as int, d as int);
    assert(n == d * q);
    assert(q >= 2 && q < n) by (nonlinear_arith)
        requires
            n == d * q,
            2 <= d < n,
    ;
    vstd::arithmetic::div_mod::lemma_mod_multiples_basic(d as int, q as int);
}

/// A number at least two with no divisor from two up to its integer square
/// root `s` is a prime.
pub proof fn lemma_prime_by_root(n: nat, s: nat)
    requires
        n >= 2,
        n < (s + 1) * (s + 1),
        forall|d: nat| 2 <= d <= s ==> #[trigger] (n % d) != 0,
    ensures
        is_prime_number(n),
{
    assert forall|d: nat| 2 <= d < n implies #[trigger] (n % d) != 0 by {
        if n % d == 0 {
            lemma_cofactor(n, d);
            let q = n / d;
            if d > s {
                if q > s {
                    assert(d * q >= (s + 1) * (s + 1)) by (nonlinear_arith)
                        requires
                            d >= s + 1,
                            q >= s + 1,
                    ;
                }
                assert(n % q != 0);
            }
        }
    }
}

/// What the integers offer towards their factors.
pub trait Factor: Sized {
    spec fn value(self) -> nat;

    /// The divisors of `self`, from one up.
    fn factors(self) -> (r: Factors)
        ensures
            r.n_spec() == self.value(),
            r.cursor_spec() == 0,
    ;

    /// The prime factors of `self`, from the least up.
    fn prime_factors(self) -> (r: PrimeFactors)
        ensures
            r.wf(),
            r.pending() == prime_factors::prime_factors_of(self.value()),
    ;

    /// Whether `self` is a prime.
    fn is_prime(self) -> (r: bool)
        ensures
            r == is_prime_number(self.value()),
    ;
}

impl Factor for u64 {
    open spec fn value(self) -> nat {
        self as nat
    }

    fn factors(self) -> (r: Factors) {
        Factors::new(self)
    }

    fn prime_factors(self) -> (r: PrimeFactors) {
        PrimeFactors::new(self)
    }

    fn is_prime(self) -> (r: bool) {
        if self > 1 && self < 4 {
            assert(is_prime_number(self as nat)) by {
                assert(self == 3 ==> 3nat % 2 != 0);
            }
            return true;
        } else if self < 2 || self % 2 == 0 {
            assert(!is_prime_number(self as nat)) by {
                if self >= 2 {
                    assert((self as nat) % 2 == 0);
                }
            }
            return false;
        }
        let root: u64 = integer_sqrt(self);
        assert(root < 0x1_0000_0000) by (nonlinear_arith)
            requires
                root * root <= self,
                self <= u64::MAX,
        ;
        assert(root >= 2) by (nonlinear_arith)
            requires
                self >= 5,
                self < (root + 1) * (root + 1),
        ;
        let mut i: u64 = 3;
        while i <= root
            invariant
                3 <= i <= root + 2,
                root * root <= self,
                i % 2 == 1,
                root < 0x1_0000_0000,
                self % 2 == 1,
                self >= 4,
                forall|d: nat| 2 <= d < i ==> #[trigger] ((self as nat) % d) != 0,
            decreases root + 2 - i,
        {
            if self % i == 0 {
                assert(i < self) by (nonlinear_arith)
                    requires
                        i <= root,
                        root * root <= self,
                        i >= 3,
                ;
                assert((self as nat) % (i as nat) == 0);
                return false;
            }
            proof {
                let n = self as nat;
                assert forall|d: nat| 2 <= d < i + 2 implies #[trigger] (n % d) != 0 by {
                    if d == i + 1 && n % d == 0 {
                        lemma_divisor_of_divisor(n, d, 2);
                    }
                }
            }
            i = i + 2;
        }
        proof {
            lemma_prime_by_root(self as nat, root as nat);
        }
        true
    }
}

/// The divisors of `n` in rising order, handed out one at a time.
pub struct Factors {
    n: u64,
    i: u64,
}

impl Factors {
    /// The number whose divisors are handed out.
    pub closed spec fn n_spec(&self) -> nat {
        self.n as nat
    }

    /// The last candidate that has been tried; zero before the first pull.
    pub closed spec fn cursor_spec(&self) -> nat {
        self.i as nat
    }

    pub fn new(n: u64) -> (r: Self)
        ensures
            r.n_spec() == n,
            r.cursor_spec() == 0,
    {
        Self { n, i: 0 }
    }

    /// The least divisor of `n` above the cursor, which moves on to it;
    /// `None`, with the cursor at `n`, once there is none left.
    pub fn next(&mut self) -> (r: Option<u64>)
        ensures
            final(self).n_spec() == old(self).n_spec(),
            match r {
                Some(d) => {
                    &&& old(self).cursor_spec() < d <= old(self).n_spec()
                    &&& old(self).n_spec() % (d as nat) == 0
                    &&& forall|k: nat|
                        old(self).cursor_spec() < k < d ==> #[trigger] (old(self).n_spec() % k)
                            != 0
                    &&& final(self).cursor_spec() == d
                },
                None => {
                    &&& forall|k: nat|
                        old(self).cursor_spec() < k <= old(self).n_spec() ==> #[trigger] (old(
                            self,
                        ).n_spec() % k) != 0
                    &&& final(self).cursor_spec() == if old(self).cursor_spec() < old(
                        self,
                    ).n_spec() {
                        old(self).n_spec()
                    } else {
                        old(self).cursor_spec()
                    }
                },
            },
    {
        while self.i < self.n
            invariant
                self.n == old(self).n,
                old(self).i <= self.i,
                old(self).i < old(self).n ==> self.i <= self.n,
                old(self).i >= old(self).n ==> self.i == old(self).i,
                forall|k: nat| old(self).i < k <= self.i ==> #[trigger] ((self.n as nat) % k) != 0,
            decreases self.n - self.i,
        {
            self.i = self.i + 1;
            if self.n % self.i == 0 {
                return Some(self.i);
            }
        }
        None
    }
}

} // verus!
