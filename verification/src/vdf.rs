//! Wesolowski verifiable delay function over an RSA-like modulus `n`.
//!
//! `prove(x, n, t)` returns `(y, pi)` with `y = x^(2^t) mod n` computed by
//! `t` sequential squarings and a log-sized proof `pi = x^q mod n`, where
//! `r = 2^t mod l`, `q = (2^t - r) / l` and `l` is the fixed public prime
//! `2^128 + 51`. `verify` checks `pi^l * x^r == y (mod n)` with a single
//! pair of modular exponentiations, and is proved to accept every honestly
//! produced proof.

use vstd::prelude::*;
use vstd::arithmetic::power::{
    pow,
    lemma_pow1,
    lemma_pow_adds,
    lemma_pow_multiplies,
    lemma_pow_mod_noop,
};
use vstd::arithmetic::power2::{pow2, lemma_pow2_pos, lemma_pow2_unfold, lemma2_to64};
use vstd::arithmetic::div_mod::{
    lemma_fundamental_div_mod,
    lemma_div_multiples_vanish,
    lemma_mod_decreases,
    lemma_mod_twice,
    lemma_mul_mod_noop,
    lemma_small_mod,
    lemma_mod_division_less_than_divisor,
};
use crate::bignum::{
    Big,
    pow_mod,
    le_val,
    big_from_u64,
    big_add,
    big_sub,
    big_mul,
    big_div,
    big_rem,
    big_modpow,
    big_one_shl,
    big_eq,
};

verus! {

/// The fixed public prime parameter `l = 2^128 + 51`.
pub open spec fn ell() -> nat {
    pow2(128) + 51
}

/// `t` repeated squarings of `x` modulo `n`, starting from `x` reduced.
pub open spec fn spec_eval(x: nat, n: nat, t: nat) -> nat
    decreases t,
{
    if t == 0 {
        x % n
    } else {
        let p = spec_eval(x, n, (t - 1) as nat);
        (p * p) % n
    }
}

/// Remainder of the proof exponent split: `2^t mod l`.
pub open spec fn spec_r(t: nat) -> nat {
    pow2(t) % ell()
}

/// Quotient of the proof exponent split: `(2^t - r) / l`.
pub open spec fn spec_q(t: nat) -> nat {
    (((pow2(t) - spec_r(t)) as int) / (ell() as int)) as nat
}

/// The proof part of an honest prover's output: `x^q mod n`.
pub open spec fn spec_prove_pi(x: nat, n: nat, t: nat) -> nat {
    pow_mod(x, spec_q(t), n)
}

/// What verification checks: `pi^l * x^r == y (mod n)`, with `x^r` taken
/// as `1` when `r == 0`.
pub open spec fn spec_verify(x: nat, y: nat, pi: nat, n: nat, t: nat) -> bool {
    let r = spec_r(t);
    let a = pow_mod(pi, ell(), n);
    let b: nat = if r == 0 {
        1
    } else {
        pow_mod(x, r, n)
    };
    (a * b) % n == y
}

/// The public prime `l` as a big integer.
pub fn ell_big() -> (r: Big)
    ensures
        r@ == ell(),
{
    let a = big_one_shl(128);
    let b = big_from_u64(51);
    big_add(&a, &b)
}

/// Classic repeated squaring: `x^(2^t) mod n`.
pub fn eval(x: &Big, n: &Big, t: u64) -> (y: Big)
    requires
        n@ > 0,
    ensures
        y@ == spec_eval(x@, n@, t as nat),
{
    let two = big_from_u64(2);
    let mut y = big_rem(x, n);
    let mut i: u64 = 0;
    while i < t
        invariant
            n@ > 0,
            i <= t,
            two@ == 2,
            y@ == spec_eval(x@, n@, i as nat),
        decreases t - i,
    {
        let ghost prev = y@;
        y = big_modpow(&y, &two, n);
        proof {
            assert(pow(prev as int, 2) == prev * prev) by {
                lemma_pow1(prev as int);
                reveal_with_fuel(pow, 3);
            }
        }
        i = i + 1;
    }
    y
}

/// Squaring chain by multiply-then-reduce; same value as [`eval`].
fn eval_mul_reduce(x: &Big, n: &Big, t: u64) -> (y: Big)
    requires
        n@ > 0,
    ensures
        y@ == spec_eval(x@, n@, t as nat),
{
    let mut y = big_rem(x, n);
    let mut i: u64 = 0;
    while i < t
        invariant
            n@ > 0,
            i <= t,
            y@ == spec_eval(x@, n@, i as nat),
        decreases t - i,
    {
        let sq = big_mul(&y, &y);
        y = big_rem(&sq, n);
        i = i + 1;
    }
    y
}

/// Produce `(y, pi)` for input `x`, modulus `n` and difficulty `t`.
pub fn prove(x: &Big, n: &Big, t: u64) -> (r: (Big, Big))
    requires
        n@ > 0,
    ensures
        r.0@ == spec_eval(x@, n@, t as nat),
        r.1@ == spec_prove_pi(x@, n@, t as nat),
{
    let y = eval(x, n, t);
    let exp_two = big_one_shl(t);
    let lp = ell_big();
    let rr = big_rem(&exp_two, &lp);
    proof {
        lemma_pow2_pos(128);
        lemma_mod_decreases(pow2(t as nat), ell());
    }
    let diff = big_sub(&exp_two, &rr);
    let q = big_div(&diff, &lp);
    let pi = big_modpow(x, &q, n);
    (y, pi)
}

/// Relies on `rayon::join`: it returns the pair of the two closures'
/// results; the closures only call this crate's verified squaring chain and
/// the `modpow` wrapper, here run on two threads.
#[verifier::external_body]
fn par_eval_modpow(x: &Big, n: &Big, t: u64, q: &Big) -> (r: (Big, Big))
    requires
        n@ > 0,
    ensures
        r.0@ == spec_eval(x@, n@, t as nat),
        r.1@ == pow_mod(x@, q@, n@),
{
    rayon::join(|| eval_mul_reduce(x, n, t), || big_modpow(x, q, n))
}

/// Same result as [`prove`], with the squaring chain and the proof
/// exponentiation computed in parallel.
pub fn prove_mont(x: &Big, n: &Big, t: u64) -> (r: (Big, Big))
    requires
        n@ > 0,
    ensures
        r.0@ == spec_eval(x@, n@, t as nat),
        r.1@ == spec_prove_pi(x@, n@, t as nat),
{
    let exp_two = big_one_shl(t);
    let lp = ell_big();
    let rr = big_rem(&exp_two, &lp);
    proof {
        lemma_pow2_pos(128);
        lemma_mod_decreases(pow2(t as nat), ell());
    }
    let diff = big_sub(&exp_two, &rr);
    let q = big_div(&diff, &lp);
    par_eval_modpow(x, n, t, &q)
}

/// Check a Wesolowski proof.
pub fn verify(x: &Big, y: &Big, pi: &Big, n: &Big, t: u64) -> (r: bool)
    requires
        n@ > 0,
    ensures
        r == spec_verify(x@, y@, pi@, n@, t as nat),
{
    let exp_two = big_one_shl(t);
    let lp = ell_big();
    proof {
        lemma_pow2_pos(128);
    }
    let rr = big_rem(&exp_two, &lp);
    let a = big_modpow(pi, &lp, n);
    let zero = big_from_u64(0);
    let b = if big_eq(&rr, &zero) {
        big_from_u64(1)
    } else {
        big_modpow(x, &rr, n)
    };
    let prod = big_mul(&a, &b);
    let lhs = big_rem(&prod, n);
    big_eq(&lhs, y)
}

/// The squaring chain equals one modular exponentiation:
/// `spec_eval(x, n, t) == x^(2^t) mod n`.
proof fn lemma_eval_pow(x: nat, n: nat, t: nat)
    requires
        n > 0,
    ensures
        spec_eval(x, n, t) == pow(x as int, pow2(t)) % (n as int),
    decreases t,
{
    let xi = x as int;
    let ni = n as int;
    if t == 0 {
        assert(pow2(0) == 1) by {
            lemma2_to64();
        }
        lemma_pow1(xi);
    } else if t == 1 {
        assert(pow2(1) == 2) by {
            lemma2_to64();
        }
        assert(pow(xi, 2) == xi * xi) by {
            lemma_pow1(xi);
            reveal_with_fuel(pow, 3);
        }
        assert(spec_eval(x, n, 1) == ((x % n) * (x % n)) % n) by {
            reveal_with_fuel(spec_eval, 3);
        }
        lemma_mul_mod_noop(xi, xi, ni);
    } else {
        lemma_eval_pow(x, n, (t - 1) as nat);
        let h = pow2((t - 1) as nat);
        let p = pow(xi, h) % ni;
        assert(spec_eval(x, n, t) == (p * p) % ni);
        lemma_mul_mod_noop(pow(xi, h), pow(xi, h), ni);
        lemma_pow_adds(xi, h, h);
        lemma_pow2_unfold(t);
        assert(h + h == pow2(t));
        assert((p * p) % ni == pow(xi, pow2(t)) % ni);
    }
}

/// An honestly produced proof always verifies: for every input `x`,
/// positive modulus `n` and difficulty `t`, the output of [`prove`] — and
/// so also of [`prove_mont`], which ensures the same `(y, pi)` — passes
/// [`verify`].
pub proof fn lemma_vdf_round_trip(x: nat, n: nat, t: nat)
    requires
        n > 0,
    ensures
        spec_verify(x, spec_eval(x, n, t), spec_prove_pi(x, n, t), n, t),
{
    let xi = x as int;
    let ni = n as int;
    let li = ell() as int;
    let ti = pow2(t) as int;
    lemma_pow2_pos(128);
    lemma_pow2_pos(t);
    let r = spec_r(t) as int;
    let q = spec_q(t) as int;

    // The exponent split is exact: q * l + r == 2^t.
    lemma_fundamental_div_mod(ti, li);
    assert(ti - r == li * (ti / li));
    lemma_div_multiples_vanish(ti / li, li);
    assert(q == ti / li);
    assert(q * li + r == ti) by {
        vstd::arithmetic::mul::lemma_mul_is_commutative(q, li);
    }

    // pi^l mod n == x^(q*l) mod n.
    let pi = spec_prove_pi(x, n, t) as int;
    lemma_mod_division_less_than_divisor(pow(xi, q as nat), ni);
    assert(pi == pow(xi, q as nat) % ni);
    lemma_pow_mod_noop(pow(xi, q as nat), ell(), ni);
    lemma_pow_multiplies(xi, q as nat, ell());
    let a = pow_mod(spec_prove_pi(x, n, t), ell(), n) as int;
    assert(a == pow(xi, (q * li) as nat) % ni);

    // The verification product reduces to x^(2^t) mod n.
    let lhs_target = pow(xi, pow2(t)) % ni;
    if spec_r(t) == 0 {
        assert(q * li == ti);
        lemma_mod_twice(pow(xi, (q * li) as nat), ni);
        assert((a * 1) % ni == lhs_target);
    } else {
        let b = pow_mod(x, spec_r(t), n) as int;
        assert(b == pow(xi, r as nat) % ni);
        lemma_mul_mod_noop(pow(xi, (q * li) as nat), pow(xi, r as nat), ni);
        lemma_pow_adds(xi, (q * li) as nat, r as nat);
        assert((q * li) as nat + r as nat == pow2(t));
        assert((a * b) % ni == lhs_target);
    }

    // The honest y is that same value.
    lemma_eval_pow(x, n, t);
}

} // verus!
