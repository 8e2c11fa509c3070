use vstd::prelude::*;

verus! {

/// Where the trial division stands.
pub enum State {
    Initial,
    Incomplete(u64),
    Complete,
}

/// The factors that trial division finds in `n`, trying `i` and every
/// larger candidate in turn: a candidate whose square exceeds `n` ends the
/// search with `n` itself, a candidate that divides `n` is a factor and is
/// tried again on the quotient.
pub open spec fn trial_division(n: nat, i: nat) -> Seq<nat>
    decreases n, n - i,
    via trial_division_ends
{
    if n < 2 || i < 2 || i * i > n {
        seq![n]
    } else if n % i == 0 {
        seq![i] + trial_division(n / i, i)
    } else {
        trial_division(n, i + 1)
    }
}

#[via_fn]
proof fn trial_division_ends(n: nat, i: nat) {
    if !(n < 2 || i < 2 || i * i > n) {
        assert(i < n) by (nonlinear_arith)
            requires
                i * i <= n,
                i >= 2,
        ;
        lemma_square_le(i, n);
        vstd::arithmetic::div_mod::lemma_fundamental_div_mod(n as int, i as int);
        let q = n / i;
        assert(q < n) by (nonlinear_arith)
            requires
                n == i * q + n % i,
                i >= 2,
                q >= 1,
        ;
    }
}

/// The prime factors of `n` in rising order, each as often as it divides
/// `n`: none for zero, and one alone for one.
pub open spec fn prime_factors_of(n: nat) -> Seq<nat> {
    if n == 0 {
        Seq::empty()
    } else {
        trial_division(n, 2)
    }
}

/// The prime factors of a number, handed out one at a time from the least.
pub struct PrimeFactors {
    n: u64,
    state: State,
}

impl PrimeFactors {
    /// The factors that are still to come.
    pub closed spec fn pending(&self) -> Seq<nat> {
        match self.state {
            State::Initial => prime_factors_of(self.n as nat),
            State::Incomplete(i) => trial_division(self.n as nat, i as nat),
            State::Complete => Seq::empty(),
        }
    }

    /// While factors are being divided out, nothing below the candidate
    /// divides what is left, and the candidate is two or odd.
    pub closed spec fn wf(&self) -> bool {
        match self.state {
            State::Incomplete(i) => {
                &&& self.n >= 2
                &&& i >= 2
                &&& (i == 2 || i % 2 == 1)
                &&& forall|d: nat| 2 <= d < i ==> #[trigger] ((self.n as nat) % d) != 0
            },
            _ => true,
        }
    }

    /// A bound on the candidates that are still to be tried before the
    /// next factor is found.
    pub closed spec fn steps_left(&self) -> int {
        match self.state {
            State::Initial => self.n + 1,
            State::Incomplete(i) => self.n - i,
            State::Complete => 0,
        }
    }

    pub fn new(n: u64) -> (r: Self)
        ensures
            r.wf(),
            r.pending() == prime_factors_of(n as nat),
    {
        Self { n, state: State::Initial }
    }

    /// Hands out the next prime factor: the first of the pending ones, which
    /// leaves the others pending. `None` once none is pending.
    pub fn next(&mut self) -> (r: Option<u64>)
        requires
            old(self).wf(),
        ensures
            final(self).wf(),
            old(self).pending().len() == 0 ==> r is None && final(self).pending().len() == 0,
            old(self).pending().len() > 0 ==> r == Some(old(self).pending()[0] as u64)
                && r->Some_0 == old(self).pending()[0] && final(self).pending() == old(
                self,
            ).pending().skip(1),
    {
        loop
            invariant
                self.wf(),
                self.pending() == old(self).pending(),
            decreases self.steps_left(),
        {
            match self.state {
                State::Initial => {
                    if self.n == 0 {
                        return None;
                    }
                    if self.n == 1 {
                        self.state = State::Complete;
                        assert(trial_division(1, 2) =~= seq![1nat]);
                        assert(seq![1nat].skip(1) =~= Seq::<nat>::empty());
                        return Some(self.n);
                    } else {
                        self.state = State::Incomplete(2);
                    }
                },
                State::Incomplete(i) => {
                    let ghost n = self.n as nat;
                    proof {
                        lemma_square_le(i as nat, n);
                    }
                    if i <= self.n / i {
                        assert(i < 0x1_0000_0000 && i + 2 <= self.n) by (nonlinear_arith)
                            requires
                                i * i <= self.n,
                                i >= 2,
                                self.n <= u64::MAX,
                        ;
                        if self.n % i != 0 {
                            proof {
                                lemma_skip_even(n, i as nat);
                            }
                            let next: u64 = if i != 2 {
                                i + 2
                            } else {
                                i + 1
                            };
                            self.state = State::Incomplete(next);
                        } else {
                            proof {
                                lemma_divide_out(n, i as nat);
                                assert((seq![i as nat] + trial_division(n / (i as nat), i as nat)).skip(
                                    1,
                                ) =~= trial_division(n / (i as nat), i as nat));
                            }
                            self.n = self.n / i;
                            return Some(i);
                        }
                    } else {
                        self.state = State::Complete;
                        assert(seq![n].skip(1) =~= Seq::<nat>::empty());
                        return Some(self.n);
                    }
                },
                State::Complete => {
                    return None;
                },
            }
        }
    }
}

/// For a candidate of at least one, `i <= n / i` says that its square is at
/// most `n`.
pub proof fn lemma_square_le(i: nat, n: nat)
    requires
        i >= 1,
    ensures
        i <= n / i <==> i * i <= n,
{
    vstd::arithmetic::div_mod::lemma_fundamental_div_mod(n as int, i as int);
    let q = n / i;
    let r = n % i;
    assert(0 <= r < i);
    if i <= q {
        assert(i * i <= n) by (nonlinear_arith)
            requires
                n == i * q + r,
                i <= q,
                r >= 0,
        ;
    } else {
        assert(i * i > n) by (nonlinear_arith)
            requires
                n == i * q + r,
                q + 1 <= i,
                r < i,
        ;
    }
}

/// Where nothing below the candidate `i` divides `n` and `i` does not
/// either, the search goes on at `i + 1` for `i == 2` and may pass over the
/// even `i + 1` for an odd `i`.
pub proof fn lemma_skip_even(n: nat, i: nat)
    requires
        n >= 2,
        i >= 2,
        i == 2 || i % 2 == 1,
        i * i <= n,
        n % i != 0,
        forall|d: nat| 2 <= d < i ==> #[trigger] (n % d) != 0,
    ensures
        i == 2 ==> trial_division(n, i) == trial_division(n, 3),
        i != 2 ==> trial_division(n, i) == trial_division(n, i + 2),
        forall|d: nat| 2 <= d < (if i == 2 { 3nat } else { i + 2 }) ==> #[trigger] (n % d) != 0,
{
    if i != 2 {
        let e = i + 1;
        assert(n % 2 != 0);
        if n % e == 0 {
            super::lemma_divisor_of_divisor(n, e, 2);
        }
        assert(trial_division(n, i) == trial_division(n, e));
        if e * e > n {
            assert((e + 1) * (e + 1) > n) by (nonlinear_arith)
                requires
                    e * e > n,
            ;
            assert(trial_division(n, e) == seq![n]);
            assert(trial_division(n, e + 1) == seq![n]);
        } else {
            assert(trial_division(n, e) == trial_division(n, e + 1));
        }
        assert forall|d: nat| 2 <= d < i + 2 implies #[trigger] (n % d) != 0 by {
            if d == e && n % d == 0 {
                super::lemma_divisor_of_divisor(n, e, 2);
            }
        }
    }
}

/// Where the candidate `i` divides `n` and its square is at most `n`, the
/// quotient is smaller than `n` and at least `i`, and nothing below `i`
/// divides it.
pub proof fn lemma_divide_out(n: nat, i: nat)
    requires
        n >= 2,
        i >= 2,
        i * i <= n,
        n % i == 0,
        forall|d: nat| 2 <= d < i ==> #[trigger] (n % d) != 0,
    ensures
        i <= n / i < n,
        i * (n / i) == n,
        trial_division(n, i) == seq![i] + trial_division(n / i, i),
        forall|d: nat| 2 <= d < i ==> #[trigger] ((n / i) % d) != 0,
{
    let q = n / i;
    vstd::arithmetic::div_mod::lemma_fundamental_div_mod(n as int, i as int);
    assert(n == i * q);
    lemma_square_le(i, n);
    assert(q < n) by (nonlinear_arith)
        requires
            n == i * q,
            i >= 2,
            q >= 1,
    ;
    assert forall|d: nat| 2 <= d < i implies #[trigger] (q % d) != 0 by {
        if q % d == 0 {
            vstd::arithmetic::div_mod::lemma_mod_multiples_basic(i as int, q as int);
            assert((i * q) % q == 0) by (nonlinear_arith)
                requires
                    (i as int * q as int) % (q as int) == 0,
            ;
            super::lemma_divisor_of_divisor(n, q, d);
        }
    }
}

/// The product of the numbers of `s`; one for none.
pub open spec fn product(s: Seq<nat>) -> nat
    decreases s.len(),
{
    if s.len() == 0 {
        1
    } else {
        s[0] * product(s.skip(1))
    }
}

/// Whether `s` holds primes only, in rising order, none below `least`, with
/// the product `n`.
pub open spec fn is_factorization(s: Seq<nat>, n: nat, least: nat) -> bool {
    &&& s.len() >= 1
    &&& product(s) == n
    &&& forall|k: int| 0 <= k < s.len() ==> super::is_prime_number(#[trigger] s[k]) && s[k] >= least
    &&& forall|j: int, k: int| 0 <= j <= k < s.len() ==> s[j] <= s[k]
}

/// Trial division from the candidate `i` on, of a number that nothing below
/// `i` divides, finds a factorization into primes of at least `i`.
pub proof fn lemma_trial_division(n: nat, i: nat)
    requires
        n >= 2,
        i >= 2,
        forall|d: nat| 2 <= d < i ==> #[trigger] (n % d) != 0,
    ensures
        is_factorization(trial_division(n, i), n, i),
    decreases n, n - i,
{
    let s = trial_division(n, i);
    if i * i > n {
        assert(s =~= seq![n]);
        assert(n < ((i - 1) as nat + 1) * ((i - 1) as nat + 1));
        super::lemma_prime_by_root(n, (i - 1) as nat);
        if n < i {
            assert(n % n == 0);
        }
        assert(s.skip(1).len() == 0);
        assert(product(s) == n * product(s.skip(1)));
        assert(product(s) == n) by (nonlinear_arith)
            requires
                product(s) == n * product(s.skip(1)),
                product(s.skip(1)) == 1,
        ;
    } else if n % i == 0 {
        lemma_divide_out(n, i);
        let q = n / i;
        let rest = trial_division(q, i);
        lemma_trial_division(q, i);
        assert(s =~= seq![i] + rest);
        assert(s.skip(1) =~= rest);
        assert(s[0] == i);
        assert(super::is_prime_number(i)) by {
            assert forall|d: nat| 2 <= d < i implies #[trigger] (i % d) != 0 by {
                if i % d == 0 {
                    super::lemma_divisor_of_divisor(n, i, d);
                }
            }
        }
        assert forall|k: int| 0 <= k < s.len() implies super::is_prime_number(#[trigger] s[k])
            && s[k] >= i by {
            if k > 0 {
                assert(s[k] == rest[k - 1]);
            }
        }
        assert forall|j: int, k: int| 0 <= j <= k < s.len() implies s[j] <= s[k] by {
            if j > 0 {
                assert(s[j] == rest[j - 1]);
                assert(s[k] == rest[k - 1]);
            } else if k > 0 {
                assert(s[k] == rest[k - 1]);
            }
        }
    } else {
        assert(i < n) by (nonlinear_arith)
            requires
                i * i <= n,
                i >= 2,
        ;
        lemma_trial_division(n, i + 1);
        let t = trial_division(n, i + 1);
        assert(s == t);
    }
}

/// The prime factors of a number of at least two are primes in rising order
/// whose product is the number.
pub proof fn lemma_prime_factors(n: nat)
    requires
        n >= 2,
    ensures
        is_factorization(prime_factors_of(n), n, 2),
{
    lemma_trial_division(n, 2);
}

} // verus!
