//! Exact fixed-point arithmetic: a value of one map unit is stored as `SCALE`
//! raw steps in an `i64`. Division truncates toward zero (`tdiv`), matching
//! hardware signed division; `fp_floor` rounds toward negative infinity and
//! is what grid-cell lookups use.

use vstd::prelude::*;

verus! {

/// Raw fixed-point steps per map unit.
pub const SCALE: i64 = 1_000_000;

/// Absolute value of a mathematical integer.
pub open spec fn iabs(n: int) -> int {
    if n < 0 {
        -n
    } else {
        n
    }
}

/// Division truncating toward zero, for a nonzero divisor.
pub open spec fn tdiv(n: int, d: int) -> int
    recommends
        d != 0,
{
    if (n < 0) == (d < 0) {
        iabs(n) / iabs(d)
    } else {
        -(iabs(n) / iabs(d))
    }
}

/// Truncating division agrees with Euclidean division on a nonnegative
/// dividend and stays within the dividend's magnitude.
pub proof fn lemma_tdiv_abs_le(n: int, d: int)
    requires
        d != 0,
    ensures
        iabs(tdiv(n, d)) <= iabs(n),
        n >= 0 && d > 0 ==> tdiv(n, d) == n / d,
{
    vstd::arithmetic::div_mod::lemma_div_pos_is_pos(iabs(n), iabs(d));
    vstd::arithmetic::div_mod::lemma_div_nonincreasing(iabs(n), iabs(d));
}

/// A dividend bounded by `b * d` has a truncated quotient bounded by `b`.
pub proof fn lemma_tdiv_scaled_le(n: int, d: int, b: int)
    requires
        d > 0,
        0 <= b,
        iabs(n) <= b * d,
    ensures
        iabs(tdiv(n, d)) <= b,
{
    vstd::arithmetic::div_mod::lemma_div_pos_is_pos(iabs(n), iabs(d));
    vstd::arithmetic::div_mod::lemma_div_is_ordered(iabs(n), b * d, d);
    vstd::arithmetic::div_mod::lemma_div_by_multiple(b, d);
}

/// Bound on a product from bounds on its factors.
pub proof fn lemma_mul_le(a: int, b: int, aa: int, bb: int)
    by (nonlinear_arith)
    requires
        -aa <= a <= aa,
        -bb <= b <= bb,
    ensures
        -(aa * bb) <= a * b <= aa * bb,
{
}

/// Truncating division by `d` shrinks the square of the scaled quotient:
/// `(tdiv(n, d) * d)^2 <= n^2`.
pub proof fn lemma_tdiv_sq_le(n: int, d: int)
    requires
        d > 0,
    ensures
        tdiv(n, d) * tdiv(n, d) * (d * d) <= n * n,
{
    let q = iabs(n) / d;
    vstd::arithmetic::div_mod::lemma_div_pos_is_pos(iabs(n), d);
    vstd::arithmetic::div_mod::lemma_fundamental_div_mod(iabs(n), d);
    vstd::arithmetic::div_mod::lemma_mod_division_less_than_divisor(iabs(n), d);
    assert(0 <= q * d <= iabs(n));
    assert(q * d * (q * d) <= iabs(n) * iabs(n)) by (nonlinear_arith)
        requires
            0 <= q * d <= iabs(n),
    ;
    assert(q * q * (d * d) == q * d * (q * d)) by (nonlinear_arith);
    assert(iabs(n) * iabs(n) == n * n) by (nonlinear_arith);
    assert(tdiv(n, d) * tdiv(n, d) == q * q) by (nonlinear_arith)
        requires
            tdiv(n, d) == q || tdiv(n, d) == -q,
    ;
}

/// Truncating division of an `i128` by a positive divisor, computed through
/// unsigned division on magnitudes.
fn div_trunc_i128(n: i128, d: i128) -> (q: i128)
    requires
        d > 0,
        n > i128::MIN,
    ensures
        q == tdiv(n as int, d as int),
{
    if n >= 0 {
        let qu: u128 = (n as u128) / (d as u128);
        proof {
            lemma_tdiv_abs_le(n as int, d as int);
        }
        qu as i128
    } else {
        let m: u128 = (-n) as u128;
        let qu: u128 = m / (d as u128);
        proof {
            lemma_tdiv_abs_le(n as int, d as int);
        }
        -(qu as i128)
    }
}

/// Fixed-point multiplication: `r == tdiv(a * b, SCALE)`.
pub fn fp_mul(a: i64, b: i64) -> (r: i64)
    requires
        -i64::MAX <= tdiv(a as int * b as int, SCALE as int) <= i64::MAX,
    ensures
        r == tdiv(a as int * b as int, SCALE as int),
{
    proof {
        lemma_mul_le(a as int, b as int, i64::MAX as int + 1, i64::MAX as int + 1);
    }
    let p: i128 = (a as i128) * (b as i128);
    let q: i128 = div_trunc_i128(p, SCALE as i128);
    q as i64
}

/// Fixed-point division: `r == tdiv(a * SCALE, b)`.
pub fn fp_div(a: i64, b: i64) -> (r: i64)
    requires
        b != 0,
        -i64::MAX <= tdiv(a as int * SCALE as int, b as int) <= i64::MAX,
    ensures
        r == tdiv(a as int * SCALE as int, b as int),
{
    proof {
        lemma_mul_le(a as int, SCALE as int, i64::MAX as int + 1, SCALE as int);
    }
    let p: i128 = (a as i128) * (SCALE as i128);
    let q: i128 = if b > 0 {
        div_trunc_i128(p, b as i128)
    } else {
        div_trunc_i128(-p, -(b as i128))
    };
    q as i64
}

/// Fixed-point two-term dot product: `r == tdiv(a * b + c * d, SCALE)`.
/// A single final division keeps the full intermediate precision.
pub fn fp_dot(a: i64, b: i64, c: i64, d: i64) -> (r: i64)
    requires
        iabs(a as int) <= 0x4000_0000_0000_0000,
        iabs(b as int) <= 0x4000_0000_0000_0000,
        iabs(c as int) <= 0x4000_0000_0000_0000,
        iabs(d as int) <= 0x4000_0000_0000_0000,
        -i64::MAX <= tdiv(a as int * b as int + c as int * d as int, SCALE as int) <= i64::MAX,
    ensures
        r == tdiv(a as int * b as int + c as int * d as int, SCALE as int),
{
    proof {
        lemma_mul_le(a as int, b as int, 0x4000_0000_0000_0000, 0x4000_0000_0000_0000);
        lemma_mul_le(c as int, d as int, 0x4000_0000_0000_0000, 0x4000_0000_0000_0000);
    }
    let p: i128 = (a as i128) * (b as i128) + (c as i128) * (d as i128);
    let q: i128 = div_trunc_i128(p, SCALE as i128);
    q as i64
}

/// Truncating division of an `i64` by a positive `i64`.
pub fn div_trunc(a: i64, d: i64) -> (r: i64)
    requires
        d > 0,
    ensures
        r == tdiv(a as int, d as int),
{
    proof {
        lemma_tdiv_abs_le(a as int, d as int);
    }
    let q: i128 = div_trunc_i128(a as i128, d as i128);
    q as i64
}

/// Grid cell of a fixed-point coordinate: floor division by `SCALE`
/// (Euclidean division, rounding toward negative infinity).
pub fn fp_floor(a: i64) -> (r: i64)
    ensures
        r == a as int / SCALE as int,
{
    if a >= 0 {
        let q: u64 = (a as u64) / (SCALE as u64);
        proof {
            vstd::arithmetic::div_mod::lemma_div_nonincreasing(a as int, SCALE as int);
            vstd::arithmetic::div_mod::lemma_div_pos_is_pos(a as int, SCALE as int);
        }
        q as i64
    } else {
        let m: u64 = (-(a as i128)) as u64;
        let q: u64 = (m + (SCALE as u64) - 1) / (SCALE as u64);
        proof {
            lemma_floor_of_negative(a as int, SCALE as int);
            vstd::arithmetic::div_mod::lemma_div_is_ordered(
                -(a as int) + SCALE - 1,
                0x8000_0000_0000_0000 + SCALE as int - 1,
                SCALE as int,
            );
        }
        -(q as i64)
    }
}

/// A coordinate whose floor-divided cell index lies in `[0, n)` lies itself
/// in `[0, n * d)`.
pub proof fn lemma_floor_range(v: int, d: int, n: int)
    requires
        d > 0,
        0 <= v / d < n,
    ensures
        0 <= v < n * d,
{
    vstd::arithmetic::div_mod::lemma_fundamental_div_mod(v, d);
    vstd::arithmetic::div_mod::lemma_mod_division_less_than_divisor(v, d);
    assert(0 <= v && v < n * d) by (nonlinear_arith)
        requires
            v == d * (v / d) + v % d,
            0 <= v % d < d,
            0 <= v / d < n,
            d > 0,
    ;
}

/// A coordinate in `[0, n * d)` has its floor-divided cell index in `[0, n)`.
pub proof fn lemma_floor_range_converse(v: int, d: int, n: int)
    requires
        d > 0,
        0 <= v < n * d,
    ensures
        0 <= v / d < n,
        v == d * (v / d) + v % d,
        0 <= v % d < d,
{
    vstd::arithmetic::div_mod::lemma_fundamental_div_mod(v, d);
    vstd::arithmetic::div_mod::lemma_mod_division_less_than_divisor(v, d);
    assert(0 <= v / d && v / d < n) by (nonlinear_arith)
        requires
            v == d * (v / d) + v % d,
            0 <= v % d < d,
            0 <= v < n * d,
            d > 0,
    ;
}

/// For a negative dividend `a` and positive divisor `d`, the floor quotient is
/// the negated ceiling quotient of the magnitude: `a / d == -((-a + d - 1) / d)`.
proof fn lemma_floor_of_negative(a: int, d: int)
    requires
        a < 0,
        d > 0,
    ensures
        a / d == -((-a + d - 1) / d),
{
    let k = a / d;
    let r = a % d;
    vstd::arithmetic::div_mod::lemma_fundamental_div_mod(a, d);
    vstd::arithmetic::div_mod::lemma_mod_division_less_than_divisor(a, d);
    assert(a == d * k + r);
    if r == 0 {
        assert(-a + d - 1 == d * (-k) + (d - 1)) by {
            assert(d * (-k) == -(d * k)) by (nonlinear_arith);
        }
        vstd::arithmetic::div_mod::lemma_fundamental_div_mod_converse(-a + d - 1, d, -k, d - 1);
    } else {
        assert(-a + d - 1 == d * (-k) + (d - r - 1)) by {
            assert(d * (-k) == -(d * k)) by (nonlinear_arith);
        }
        vstd::arithmetic::div_mod::lemma_fundamental_div_mod_converse(-a + d - 1, d, -k, d - r - 1);
    }
}

} // verus!
