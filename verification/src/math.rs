//! Scaled-integer arithmetic primitives shared by the controller.
//!
//! Exec code works on `i64` values; contracts speak of mathematical
//! integers through `div_tz` (division truncating toward zero, the
//! semantics of hardware division) and `mag` (absolute value).

use vstd::prelude::*;

verus! {

use vstd::arithmetic::div_mod::{
    lemma_div_pos_is_pos, lemma_fundamental_div_mod, lemma_div_nonincreasing,
    lemma_div_is_ordered, lemma_mod_bound, lemma_div_multiples_vanish,
};

/// Thousandths of a world unit make one world unit; a unit direction
/// vector is stored scaled by this factor.
pub const SCALE: i64 = 1000;

/// Absolute value of a mathematical integer.
pub open spec fn mag(x: int) -> int {
    if x >= 0 {
        x
    } else {
        -x
    }
}

/// Division truncating toward zero, as `i64` division performs it.
pub open spec fn div_tz(x: int, d: int) -> int
    recommends
        d > 0,
{
    if x >= 0 {
        x / d
    } else {
        -((-x) / d)
    }
}

/// For a positive divisor, truncating division keeps the sign of the
/// dividend, never grows its magnitude, and leaves a remainder smaller
/// than the divisor.
pub proof fn lemma_div_tz_basics(x: int, d: int)
    requires
        d >= 1,
    ensures
        x >= 0 ==> 0 <= div_tz(x, d) <= x,
        x <= 0 ==> x <= div_tz(x, d) <= 0,
        mag(div_tz(x, d)) <= mag(x),
        mag(x - div_tz(x, d) * d) < d,
        mag(div_tz(x, d) * d) <= mag(x),
        mag(div_tz(x, d)) * d <= mag(x),
{
    if x >= 0 {
        lemma_div_pos_is_pos(x, d);
        lemma_div_nonincreasing(x, d);
        lemma_fundamental_div_mod(x, d);
        lemma_mod_bound(x, d);
        assert(x == d * (x / d) + x % d);
        assert(0 <= x % d < d);
        assert(div_tz(x, d) * d == x - x % d) by (nonlinear_arith)
            requires
                x == d * (x / d) + x % d && div_tz(x, d) == x / d,
        ;
    } else {
        let y = -x;
        lemma_div_pos_is_pos(y, d);
        lemma_div_nonincreasing(y, d);
        lemma_fundamental_div_mod(y, d);
        lemma_mod_bound(y, d);
        assert(y == d * (y / d) + y % d);
        assert(0 <= y % d < d);
        assert((y / d) * d == y - y % d) by (nonlinear_arith)
            requires
                y == d * (y / d) + y % d,
        ;
        assert(div_tz(x, d) == -(y / d));
        assert(div_tz(x, d) * d == -(y - y % d)) by (nonlinear_arith)
            requires
                div_tz(x, d) == -(y / d) && (y / d) * d == y - y % d,
        ;
    }
}

/// Truncating division is exact on exact multiples.
pub proof fn lemma_div_tz_exact(q: int, d: int)
    requires
        d >= 1,
    ensures
        div_tz(q * d, d) == q,
{
    if q >= 0 {
        lemma_fundamental_div_mod(q * d, d);
        assert(q * d >= 0) by (nonlinear_arith)
            requires
                q >= 0 && d >= 1,
        ;
        assert(q * d == d * q) by (nonlinear_arith);
        assert((q * d) / d == q) by {
            lemma_div_multiples_vanish(q, d);
        }
    } else {
        assert(q * d <= 0) by (nonlinear_arith)
            requires
                q <= 0 && d >= 1,
        ;
        assert(-(q * d) == (-q) * d) by (nonlinear_arith);
        assert((-q) * d == d * (-q)) by (nonlinear_arith);
        assert(((-q) * d) / d == -q) by {
            lemma_div_multiples_vanish(-q, d);
        }
        if q * d == 0 {
            assert(q == 0) by (nonlinear_arith)
                requires
                    q * d == 0 && d >= 1,
            ;
        }
    }
}

/// Ordering is preserved by truncating division with a positive divisor.
pub proof fn lemma_div_tz_ordered(a: int, b: int, d: int)
    requires
        d >= 1,
        a <= b,
    ensures
        div_tz(a, d) <= div_tz(b, d),
{
    if a >= 0 {
        lemma_div_is_ordered(a, b, d);
    } else if b <= 0 {
        lemma_div_is_ordered(-b, -a, d);
    } else {
        lemma_div_pos_is_pos(-a, d);
        lemma_div_pos_is_pos(b, d);
    }
}

/// `i64` division truncating toward zero, proved against `div_tz`.
pub fn div_i64(x: i64, d: i64) -> (r: i64)
    requires
        d > 0,
        x > i64::MIN,
    ensures
        r == div_tz(x as int, d as int),
{
    proof {
        lemma_div_tz_basics(x as int, d as int);
    }
    let q = x.checked_div(d);
    q.unwrap()
}

/// `a * b / d` with truncation toward zero, for products within `i64`.
pub fn mul_div_i64(a: i64, b: i64, d: i64) -> (r: i64)
    requires
        d > 0,
        i64::MIN < a * b <= i64::MAX,
    ensures
        r == div_tz(a * b, d as int),
{
    let p: i64 = a * b;
    div_i64(p, d)
}

/// Larger magnitude of the two arguments, as `max` computes it.
pub open spec fn max_i(a: int, b: int) -> int {
    if a >= b {
        a
    } else {
        b
    }
}

/// Smaller of the two arguments, as `min` computes it.
pub open spec fn min_i(a: int, b: int) -> int {
    if a <= b {
        a
    } else {
        b
    }
}

/// Larger of two `i64` values.
pub fn max_i64(a: i64, b: i64) -> (r: i64)
    ensures
        r == max_i(a as int, b as int),
{
    if a >= b {
        a
    } else {
        b
    }
}

/// Smaller of two `i64` values.
pub fn min_i64(a: i64, b: i64) -> (r: i64)
    ensures
        r == min_i(a as int, b as int),
{
    if a <= b {
        a
    } else {
        b
    }
}

/// Clamp `x` into `[lo, hi]`.
pub open spec fn clamp_i(x: int, lo: int, hi: int) -> int
    recommends
        lo <= hi,
{
    if x < lo {
        lo
    } else if x > hi {
        hi
    } else {
        x
    }
}

/// Clamp an `i64` into an inclusive interval.
pub fn clamp_i64(x: i64, lo: i64, hi: i64) -> (r: i64)
    requires
        lo <= hi,
    ensures
        r == clamp_i(x as int, lo as int, hi as int),
        lo <= r <= hi,
{
    if x < lo {
        lo
    } else if x > hi {
        hi
    } else {
        x
    }
}

} // verus!
