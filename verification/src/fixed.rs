//! Fixed-point scalars.
//!
//! Every coordinate, matrix entry and trigonometric value in this crate is a
//! signed 32-bit integer that stands for `raw / 65536`: sixteen integer bits
//! and sixteen fractional bits. Intermediate results are computed exactly in
//! wider integers, rounded towards negative infinity once, and then clamped to
//! the 32-bit range.
use vstd::arithmetic::div_mod::lemma_fundamental_div_mod;
use vstd::arithmetic::div_mod::lemma_fundamental_div_mod_converse;
use vstd::prelude::*;

verus! {

/// The raw value of the number one.
pub const ONE: i32 = 65536;

/// The floor of the rational number `n / d`, for any nonzero `d`.
pub open spec fn floor_ratio(n: int, d: int) -> int {
    if d > 0 {
        n / d
    } else {
        (-n) / (-d)
    }
}

/// `v` clamped to the range of a 32-bit signed integer.
pub open spec fn saturate(v: int) -> int {
    if v < i32::MIN {
        i32::MIN as int
    } else if v > i32::MAX {
        i32::MAX as int
    } else {
        v
    }
}

/// The largest integer that is not above the fixed-point value `raw`.
pub open spec fn floor_cell(raw: int) -> int {
    raw / (ONE as int)
}

/// The smallest integer that is not below the fixed-point value `raw`.
pub open spec fn ceil_cell(raw: int) -> int {
    -((-raw) / (ONE as int))
}

/// The absolute value of `v`.
pub open spec fn magnitude(v: int) -> int {
    if v < 0 {
        -v
    } else {
        v
    }
}

/// A factor common to both parts of a ratio can be cancelled.
pub proof fn lemma_floor_ratio_cancel(n: int, d: int, k: int)
    requires
        d > 0,
        k != 0,
    ensures
        floor_ratio(n * k, d * k) == n / d,
{
    let q = n / d;
    let r = n % d;
    let p = if k > 0 {
        k
    } else {
        -k
    };
    lemma_fundamental_div_mod(n, d);
    assert(n * p == q * (d * p) + r * p) by (nonlinear_arith)
        requires
            n == d * q + r,
    ;
    assert(0 <= r * p < d * p) by (nonlinear_arith)
        requires
            0 <= r < d,
            p > 0,
    ;
    lemma_fundamental_div_mod_converse(n * p, d * p, q, r * p);
    if k < 0 {
        assert(-(n * k) == n * p) by (nonlinear_arith)
            requires
                p == -k,
        ;
        assert(-(d * k) == d * p) by (nonlinear_arith)
            requires
                p == -k,
        ;
        assert(d * k < 0) by (nonlinear_arith)
            requires
                d > 0,
                k < 0,
        ;
    } else {
        assert(d * k > 0) by (nonlinear_arith)
            requires
                d > 0,
                k > 0,
        ;
    }
}

/// The floor of a ratio is no larger in magnitude than a bound on its
/// numerator.
pub proof fn lemma_floor_ratio_bounded(n: int, d: int, bound: int)
    requires
        d != 0,
        -bound <= n <= bound,
    ensures
        -bound <= floor_ratio(n, d) <= bound,
{
    let p = if d > 0 {
        d
    } else {
        -d
    };
    let m = if d > 0 {
        n
    } else {
        -n
    };
    let q = m / p;
    lemma_fundamental_div_mod(m, p);
    assert(-bound <= q <= bound) by (nonlinear_arith)
        requires
            m == p * q + m % p,
            0 <= m % p < p,
            p >= 1,
            -bound <= m <= bound,
    ;
}

/// A ratio that lies strictly between `-s` and `s` has its floor at least
/// `-s` and below `s`.
pub proof fn lemma_floor_ratio_within(n: int, d: int, s: int)
    requires
        d != 0,
        magnitude(n) < s * magnitude(d),
    ensures
        -s <= floor_ratio(n, d) < s,
{
    let p = magnitude(d);
    let m = if d > 0 {
        n
    } else {
        -n
    };
    let q = m / p;
    let r = m % p;
    lemma_fundamental_div_mod(m, p);
    assert(-s <= q < s) by (nonlinear_arith)
        requires
            m == p * q + r,
            0 <= r < p,
            -(s * p) < m < s * p,
    ;
}

/// A ratio that is at least zero and below `s` has its floor at least zero
/// and below `s`.
pub proof fn lemma_floor_ratio_between(n: int, d: int, s: int)
    requires
        d != 0,
        d > 0 ==> 0 <= n < s * d,
        d < 0 ==> 0 <= -n < s * (-d),
    ensures
        0 <= floor_ratio(n, d) < s,
{
    let p = magnitude(d);
    let m = if d > 0 {
        n
    } else {
        -n
    };
    let q = m / p;
    let r = m % p;
    lemma_fundamental_div_mod(m, p);
    assert(0 <= q < s) by (nonlinear_arith)
        requires
            m == p * q + r,
            0 <= r < p,
            0 <= m < s * p,
    ;
}

/// Moving both parts of a ratio a little moves its floor a little: if the
/// numerator moves by at most `dn` and the denominator, which stays at or
/// above `least`, by at most `dd`, and both floors are below `bound` in
/// magnitude, then the floor moves by at most `k`, for any `k` with
/// `bound * dd + dn <= k * least`.
pub proof fn lemma_floor_ratio_stable(
    n: int,
    d: int,
    n2: int,
    d2: int,
    dn: int,
    dd: int,
    bound: int,
    least: int,
    k: int,
)
    requires
        0 < least <= d,
        least <= d2,
        magnitude(n2 - n) <= dn,
        magnitude(d2 - d) <= dd,
        magnitude(n / d + 1) <= bound,
        magnitude(n2 / d2 + 1) <= bound,
        bound * dd + dn <= k * least,
    ensures
        magnitude(n2 / d2 - n / d) <= k,
{
    lemma_floor_step(n, d, n2, d2, dn, dd, bound, least, k);
    lemma_floor_step(n2, d2, n, d, dn, dd, bound, least, k);
}

/// One direction of `lemma_floor_ratio_stable`.
proof fn lemma_floor_step(
    n: int,
    d: int,
    n2: int,
    d2: int,
    dn: int,
    dd: int,
    bound: int,
    least: int,
    k: int,
)
    requires
        0 < least <= d,
        least <= d2,
        magnitude(n2 - n) <= dn,
        magnitude(d2 - d) <= dd,
        magnitude(n / d + 1) <= bound,
        bound * dd + dn <= k * least,
    ensures
        n2 / d2 <= n / d + k,
{
    let q = n / d;
    let q2 = n2 / d2;
    lemma_fundamental_div_mod(n, d);
    lemma_fundamental_div_mod(n2, d2);
    // the numerator stays below the next multiple of the denominator
    assert(n < (q + 1) * d) by (nonlinear_arith)
        requires
            n == d * q + n % d,
            0 <= n % d < d,
    ;
    assert(0 <= dd && 0 <= bound);
    assert((q + 1) * d <= (q + 1) * d2 + bound * dd) by (nonlinear_arith)
        requires
            -dd <= d2 - d <= dd,
            -bound <= q + 1 <= bound,
            0 <= dd,
            0 <= bound,
    ;
    assert(k >= 0) by (nonlinear_arith)
        requires
            0 <= bound * dd + dn <= k * least,
            least > 0,
    ;
    assert(k * least <= k * d2) by (nonlinear_arith)
        requires
            k >= 0,
            least <= d2,
    ;
    assert(n2 < (q + 1 + k) * d2) by (nonlinear_arith)
        requires
            n2 <= n + dn,
            n < (q + 1) * d,
            (q + 1) * d <= (q + 1) * d2 + bound * dd,
            bound * dd + dn <= k * least,
            k * least <= k * d2,
    ;
    assert(q2 < q + 1 + k) by (nonlinear_arith)
        requires
            n2 == d2 * q2 + n2 % d2,
            0 <= n2 % d2,
            n2 < (q + 1 + k) * d2,
            d2 > 0,
    ;
}

/// The floor of `n / d`, computed on magnitudes so that the machine's
/// truncating division never sees a negative operand.
pub(crate) fn floor_div(n: i128, d: i128) -> (q: i128)
    requires
        d != 0,
        n > i128::MIN,
        d > i128::MIN,
    ensures
        q == floor_ratio(n as int, d as int),
{
    let (num, den): (i128, i128) = if d < 0 {
        (-n, -d)
    } else {
        (n, d)
    };
    if num >= 0 {
        num / den
    } else {
        let m: i128 = -num;
        let whole: i128 = m / den;
        let rest: i128 = m % den;
        proof {
            lemma_fundamental_div_mod(m as int, den as int);
            assert(den * whole == whole * den) by (nonlinear_arith);
        }
        if rest == 0 {
            proof {
                assert((-whole) * den == -(whole * den)) by (nonlinear_arith);
                lemma_fundamental_div_mod_converse(num as int, den as int, -whole, 0);
            }
            -whole
        } else {
            proof {
                assert((-whole - 1) * den == -(whole * den) - den) by (nonlinear_arith);
                lemma_fundamental_div_mod_converse(
                    num as int,
                    den as int,
                    -whole - 1,
                    den - rest,
                );
            }
            -whole - 1
        }
    }
}

/// Clamps a wide intermediate result to the 32-bit range.
pub(crate) fn saturate_i32(v: i128) -> (r: i32)
    ensures
        r == saturate(v as int),
{
    if v < -2147483648 {
        -2147483648
    } else if v > 2147483647 {
        2147483647
    } else {
        v as i32
    }
}

/// Converts a whole number of cells to its fixed-point value, clamped to the
/// representable range.
pub fn from_int(cells: i32) -> (raw: i32)
    ensures
        raw == saturate(cells * ONE),
{
    saturate_i32(cells as i128 * 65536)
}

/// The largest whole number that is not above the fixed-point value `raw`.
pub fn floor(raw: i32) -> (cells: i32)
    ensures
        cells == floor_cell(raw as int),
{
    let q: i128 = floor_div(raw as i128, 65536);
    q as i32
}

/// The smallest whole number that is not below the fixed-point value `raw`.
pub fn ceil(raw: i32) -> (cells: i32)
    ensures
        cells == ceil_cell(raw as int),
{
    let q: i128 = floor_div(-(raw as i128), 65536);
    (-q) as i32
}

} // verus!
