//! Exact integer primitives used by the simulation: division that rounds
//! toward zero (as Rust's integer division does) and an integer square root.

use vstd::prelude::*;

verus! {

/// Quotient of `a / b` rounded toward zero, the rounding that Rust's own
/// integer division performs. The Verus `/` on `int` is Euclidean, so the
/// negative case is spelled out through the magnitude.
pub open spec fn div_trunc(a: int, b: int) -> int
    recommends
        b > 0,
{
    if a >= 0 {
        a / b
    } else {
        -((-a) / b)
    }
}

/// Remainder left over by `div_trunc`.
pub open spec fn rem_trunc(a: int, b: int) -> int
    recommends
        b > 0,
{
    a - b * div_trunc(a, b)
}

/// Magnitude of an integer.
pub open spec fn absi(a: int) -> int {
    if a >= 0 {
        a
    } else {
        -a
    }
}

/// Truncating division never grows the magnitude, keeps the sign of the
/// numerator, and is exact on the zero numerator.
pub proof fn lemma_div_trunc_basics(a: int, b: int)
    requires
        b > 0,
    ensures
        absi(div_trunc(a, b)) <= absi(a),
        a >= 0 ==> div_trunc(a, b) >= 0,
        a <= 0 ==> div_trunc(a, b) <= 0,
        div_trunc(0, b) == 0,
{
    if a >= 0 {
        vstd::arithmetic::div_mod::lemma_div_nonincreasing(a, b);
        vstd::arithmetic::div_mod::lemma_div_pos_is_pos(a, b);
    } else {
        vstd::arithmetic::div_mod::lemma_div_nonincreasing(-a, b);
        vstd::arithmetic::div_mod::lemma_div_pos_is_pos(-a, b);
    }
    vstd::arithmetic::div_mod::lemma_div_pos_is_pos(0, b);
    vstd::arithmetic::div_mod::lemma_div_nonincreasing(0, b);
}

/// Flipping the numerator's sign flips the quotient's sign.
pub proof fn lemma_div_trunc_odd(a: int, b: int)
    requires
        b > 0,
    ensures
        div_trunc(-a, b) == -div_trunc(a, b),
{
}

/// The remainder of a truncating division is smaller in magnitude than the
/// divisor.
pub proof fn lemma_rem_trunc_bound(a: int, b: int)
    requires
        b > 0,
    ensures
        absi(rem_trunc(a, b)) < b,
{
    if a >= 0 {
        vstd::arithmetic::div_mod::lemma_fundamental_div_mod(a, b);
        vstd::arithmetic::div_mod::lemma_mod_bound(a, b);
        assert(rem_trunc(a, b) == a % b);
    } else {
        let q = (-a) / b;
        vstd::arithmetic::div_mod::lemma_fundamental_div_mod(-a, b);
        vstd::arithmetic::div_mod::lemma_mod_bound(-a, b);
        assert(div_trunc(a, b) == -q);
        vstd::arithmetic::mul::lemma_mul_unary_negation(b, q);
        assert(b * div_trunc(a, b) == -(b * q));
        assert(rem_trunc(a, b) == -((-a) % b));
    }
}

/// A numerator no larger than `c * b` in magnitude gives a quotient no
/// larger than `c` in magnitude.
pub proof fn lemma_div_trunc_scale_bound(a: int, b: int, c: int)
    requires
        b > 0,
        c >= 0,
        absi(a) <= c * b,
    ensures
        absi(div_trunc(a, b)) <= c,
{
    vstd::arithmetic::mul::lemma_mul_is_commutative(c, b);
    if a >= 0 {
        vstd::arithmetic::div_mod::lemma_multiply_divide_le(a, b, c);
        vstd::arithmetic::div_mod::lemma_div_pos_is_pos(a, b);
    } else {
        vstd::arithmetic::div_mod::lemma_multiply_divide_le(-a, b, c);
        vstd::arithmetic::div_mod::lemma_div_pos_is_pos(-a, b);
    }
}

/// For non-negative numerators, a larger numerator never gives a smaller
/// quotient.
pub proof fn lemma_div_trunc_ordered(a1: int, a2: int, b: int)
    requires
        0 <= a1 <= a2,
        b > 0,
    ensures
        div_trunc(a1, b) <= div_trunc(a2, b),
{
    vstd::arithmetic::div_mod::lemma_div_is_ordered(a1, a2, b);
}

/// Dividing an exact multiple of the divisor recovers the factor.
pub proof fn lemma_div_trunc_multiple(k: int, b: int)
    requires
        k >= 0,
        b > 0,
    ensures
        div_trunc(k * b, b) == k,
{
    vstd::arithmetic::div_mod::lemma_div_multiples_vanish(k, b);
    vstd::arithmetic::mul::lemma_mul_is_commutative(k, b);
    assert(k * b >= 0) by (nonlinear_arith)
        requires
            k >= 0,
            b > 0,
    ;
}

/// Integer square root: the largest `r` with `r * r <= x`, defined by
/// counting up from zero.
pub open spec fn isqrt_spec(x: nat) -> nat
    decreases x,
{
    if x == 0 {
        0
    } else {
        let r = isqrt_spec((x - 1) as nat);
        if (r + 1) * (r + 1) <= x {
            r + 1
        } else {
            r
        }
    }
}

/// `isqrt_spec(x)` squares to at most `x`, and the next integer squares past
/// `x`.
pub proof fn lemma_isqrt_bounds(x: nat)
    ensures
        isqrt_spec(x) * isqrt_spec(x) <= x,
        x < (isqrt_spec(x) + 1) * (isqrt_spec(x) + 1),
    decreases x,
{
    if x == 0 {
        assert(isqrt_spec(x) == 0);
        assert((isqrt_spec(x) + 1) * (isqrt_spec(x) + 1) == 1) by (nonlinear_arith)
            requires
                isqrt_spec(x) == 0,
        ;
    } else {
        let r = isqrt_spec((x - 1) as nat);
        lemma_isqrt_bounds((x - 1) as nat);
        assert(r * r <= x - 1);
        assert(x - 1 < (r + 1) * (r + 1));
        if (r + 1) * (r + 1) <= x {
            assert(isqrt_spec(x) == r + 1);
            assert(x < (r + 2) * (r + 2)) by (nonlinear_arith)
                requires
                    x - 1 < (r + 1) * (r + 1),
                    r >= 0,
            ;
            assert(x < (isqrt_spec(x) + 1) * (isqrt_spec(x) + 1));
        } else {
            assert(isqrt_spec(x) == r);
            assert(r * r <= x);
            assert(x < (r + 1) * (r + 1));
            assert(x < (isqrt_spec(x) + 1) * (isqrt_spec(x) + 1));
        }
    }
}

/// Any `r` within the square-root bracket is the integer square root.
pub proof fn lemma_isqrt_unique(x: nat, r: nat)
    requires
        r * r <= x,
        x < (r + 1) * (r + 1),
    ensures
        r == isqrt_spec(x),
{
    let s = isqrt_spec(x);
    lemma_isqrt_bounds(x);
    assert(r == s) by (nonlinear_arith)
        requires
            r * r <= x,
            x < (r + 1) * (r + 1),
            s * s <= x,
            x < (s + 1) * (s + 1),
            r >= 0,
            s >= 0,
    ;
}

/// Truncating division by a positive divisor, through the checked division
/// of the standard library.
pub fn div_trunc_i128(a: i128, b: i128) -> (q: i128)
    requires
        b > 0,
    ensures
        q as int == div_trunc(a as int, b as int),
        absi(q as int) <= absi(a as int),
{
    proof {
        lemma_div_trunc_basics(a as int, b as int);
    }
    let q = a.checked_div(b);
    proof {
        assert(q.is_some());
        assert(q->Some_0 as int == div_trunc(a as int, b as int));
    }
    q.unwrap()
}

/// Binary search for the integer square root of `x`.
pub fn isqrt_u128(x: u128) -> (r: u128)
    requires
        x < 0x4000_0000_0000_0000_0000_0000_0000_0000,
    ensures
        r == isqrt_spec(x as nat),
        r * r <= x,
        x < (r + 1) * (r + 1),
{
    let mut lo: u128 = 0;
    let mut hi: u128 = 0x8000_0000_0000_0000;
    while lo + 1 < hi
        invariant
            lo < hi <= 0x8000_0000_0000_0000u128,
            lo * lo <= x,
            x < hi * hi,
        decreases hi - lo,
    {
        let mid: u128 = lo + (hi - lo) / 2;
        assert(lo < mid < hi);
        assert(mid * mid <= 0x4000_0000_0000_0000_0000_0000_0000_0000u128) by (nonlinear_arith)
            requires
                mid <= 0x8000_0000_0000_0000u128,
        ;
        if mid * mid <= x {
            lo = mid;
        } else {
            hi = mid;
        }
    }
    proof {
        assert(hi == lo + 1);
        lemma_isqrt_unique(x as nat, lo as nat);
    }
    lo
}

} // verus!
