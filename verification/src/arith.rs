//! Small integer helpers the block-size planner is built on: greatest common
//! divisor, ceiling division, rounding down to a multiple, and the least
//! power of two at or above a value.

use vstd::prelude::*;

verus! {

use vstd::arithmetic::div_mod::lemma_fundamental_div_mod;
use vstd::arithmetic::div_mod::lemma_mod_multiples_basic;
use vstd::arithmetic::div_mod::lemma_mod_self_0;
use vstd::arithmetic::mul::lemma_mul_inequality;

/// Greatest common divisor by Euclid's rule; `spec_gcd(a, 0) == a`.
pub open spec fn spec_gcd(a: nat, b: nat) -> nat
    decreases b,
{
    if b == 0 {
        a
    } else {
        spec_gcd(b, a % b)
    }
}

/// The gcd of a positive `a` and any `b` is positive, divides both, and is
/// at most `a`.
pub proof fn lemma_gcd_divides(a: nat, b: nat)
    requires
        a > 0,
    ensures
        spec_gcd(a, b) > 0,
        a % spec_gcd(a, b) == 0,
        b % spec_gcd(a, b) == 0,
        spec_gcd(a, b) <= a,
    decreases b,
{
    let g = spec_gcd(a, b);
    let ai = a as int;
    let bi = b as int;
    let gi = g as int;
    if b == 0 {
        lemma_mod_self_0(ai);
        assert(b % g == 0);
    } else {
        lemma_gcd_divides(b, a % b);
        assert(g == spec_gcd(b, a % b));
        assert(b % g == 0);
        assert((a % b) % g == 0);
        // a == b * (a / b) + a % b, and both summands are multiples of g.
        let q = ai / bi;
        let rem = ai % bi;
        lemma_fundamental_div_mod(ai, bi);
        let u = bi / gi;
        lemma_fundamental_div_mod(bi, gi);
        assert(bi == gi * u);
        let v = rem / gi;
        lemma_fundamental_div_mod(rem, gi);
        assert(rem == gi * v);
        assert(ai == gi * (u * q + v)) by (nonlinear_arith)
            requires
                ai == bi * q + rem,
                bi == gi * u,
                rem == gi * v,
        ;
        lemma_mod_multiples_basic(u * q + v, gi);
        assert(gi * (u * q + v) == (u * q + v) * gi) by (nonlinear_arith);
        assert(ai % gi == 0);
        // g divides the positive a, so g <= a.
        assert(gi <= ai) by (nonlinear_arith)
            requires
                ai == gi * (u * q + v),
                ai > 0,
                gi > 0,
        ;
    }
}

/// Euclid's algorithm, as the planner uses it to find the micropanel stride.
pub fn gcd(a: usize, b: usize) -> (r: usize)
    ensures
        r as nat == spec_gcd(a as nat, b as nat),
{
    let mut x = a;
    let mut y = b;
    while y != 0
        invariant
            spec_gcd(x as nat, y as nat) == spec_gcd(a as nat, b as nat),
        decreases y,
    {
        let rem = x % y;
        x = y;
        y = rem;
    }
    x
}

/// `a / b` rounded towards positive infinity.
pub open spec fn spec_div_ceil(a: int, b: int) -> int
    recommends
        b > 0,
{
    if a % b == 0 {
        a / b
    } else {
        a / b + 1
    }
}

/// For positive `a` and `b` the ceiling quotient lies between 1 and `a`.
pub proof fn lemma_div_ceil_bounds(a: int, b: int)
    requires
        1 <= a,
        1 <= b,
    ensures
        1 <= spec_div_ceil(a, b),
        spec_div_ceil(a, b) <= a,
{
    lemma_fundamental_div_mod(a, b);
    if a % b == 0 {
        assert(a == b * (a / b));
        assert(a / b >= 1) by {
            if a / b <= 0 {
                lemma_mul_inequality(a / b, 0, b);
            }
        }
        assert(a / b <= a) by {
            lemma_mul_inequality(1, b, a / b);
        }
    } else {
        assert(a / b >= 0) by {
            if a / b < 0 {
                lemma_mul_inequality(a / b, -1, b);
            }
        }
        if b == 1 {
            assert(a % b == 0);
        }
        // b >= 2 here, so a / b <= a / 2 and a / b + 1 <= a.
        assert(b * (a / b) >= 2 * (a / b)) by {
            lemma_mul_inequality(2, b, a / b);
        }
        assert(2 * (a / b) <= a - 1);
        assert(a / b + 1 <= a);
    }
}

/// Ceiling division; the divisor must be positive.
pub fn div_ceil(a: usize, b: usize) -> (r: usize)
    requires
        b > 0,
    ensures
        r as int == spec_div_ceil(a as int, b as int),
{
    let d = a / b;
    let rem = a % b;
    if rem > 0 && b > 0 {
        proof {
            lemma_fundamental_div_mod(a as int, b as int);
            assert(b >= 2);
            assert((b as int) * (a as int / b as int) >= 2 * (a as int / b as int)) by {
                lemma_mul_inequality(2, b as int, a as int / b as int);
            }
        }
        d + 1
    } else {
        d
    }
}

/// Largest multiple of `b` at or below `a`; the divisor must be positive.
pub fn round_down(a: usize, b: usize) -> (r: usize)
    requires
        b > 0,
    ensures
        r as int == (a as int / b as int) * (b as int),
        r <= a,
        r as int % (b as int) == 0,
{
    proof {
        lemma_fundamental_div_mod(a as int, b as int);
        lemma_mod_multiples_basic(a as int / b as int, b as int);
        assert((a as int / b as int) * (b as int) == (b as int) * (a as int / b as int)) by {
            vstd::arithmetic::mul::lemma_mul_is_commutative(a as int / b as int, b as int);
        }
    }
    a / b * b
}

/// Doubling chain from `p` up to the first power of two at or above `n`.
pub open spec fn spec_npot_from(p: nat, n: nat) -> nat
    decreases 2 * n - p,
    when 1 <= p <= 2 * n
{
    if p >= n {
        p
    } else {
        spec_npot_from(2 * p, n)
    }
}

/// The least power of two at or above `n`, with 1 for `n <= 1`, matching
/// `usize::next_power_of_two`.
pub open spec fn spec_npot(n: nat) -> nat {
    if n <= 1 {
        1
    } else {
        spec_npot_from(1, n)
    }
}

/// The least power of two at or above `n`, or `None` when no such power
/// fits in `usize`.
pub fn checked_next_power_of_two(n: usize) -> (r: Option<usize>)
    ensures
        r is Some <==> n <= usize::MAX / 2 + 1,
        r matches Some(p) ==> p as nat == spec_npot(n as nat),
{
    if n <= 1 {
        return Some(1);
    }
    if n > usize::MAX / 2 + 1 {
        return None;
    }
    let mut p: usize = 1;
    while p < n
        invariant
            1 <= p,
            p <= 2 * (n as nat),
            n <= usize::MAX / 2 + 1,
            2 <= n,
            spec_npot_from(p as nat, n as nat) == spec_npot(n as nat),
        decreases 2 * (n as int) - p,
    {
        p = p * 2;
    }
    Some(p)
}

} // verus!
