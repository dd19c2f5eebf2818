//! Fixed-point arithmetic in thousandths: clamping, rounding division and the
//! integer square root that distances are measured with.

use vstd::prelude::*;
use vstd::arithmetic::div_mod::{lemma_fundamental_div_mod, lemma_fundamental_div_mod_converse};

verus! {

/// One whole unit, in thousandths.
pub const SCALE: i64 = 1000;

/// `v` limited to the closed interval from `lo` to `hi`.
pub open spec fn clamp(v: int, lo: int, hi: int) -> int {
    if v < lo {
        lo
    } else if v > hi {
        hi
    } else {
        v
    }
}

/// `v` limited to the unit interval, which is `0..=SCALE` in thousandths.
pub open spec fn clamp_unit(v: int) -> int {
    clamp(v, 0, SCALE as int)
}

/// The quotient of `a` by a positive `b`, rounded toward zero.
pub open spec fn div_toward_zero(a: int, b: int) -> int {
    if a >= 0 {
        a / b
    } else {
        -((-a) / b)
    }
}

/// `v` limited to what a coordinate can hold.
pub open spec fn saturate(v: int) -> int {
    clamp(v, i32::MIN as int, i32::MAX as int)
}

/// `v` limited to what a 64-bit quantity can hold.
pub open spec fn saturate_wide(v: int) -> int {
    clamp(v, i64::MIN as int, i64::MAX as int)
}

/// `r` is the square root of `n`, rounded down.
pub open spec fn is_floor_sqrt(n: int, r: int) -> bool {
    0 <= r && r * r <= n && n < (r + 1) * (r + 1)
}

/// The square root of `n`, rounded down; meaningful for `n >= 0`.
pub open spec fn floor_sqrt(n: int) -> int {
    choose|r: int| is_floor_sqrt(n, r)
}

/// The square root of `n`, rounded up; meaningful for `n >= 0`.
pub open spec fn ceil_sqrt(n: int) -> int {
    let r = floor_sqrt(n);
    if r * r == n {
        r
    } else {
        r + 1
    }
}

/// Every non-negative integer has a rounded-down square root.
pub proof fn lemma_floor_sqrt_exists(n: int)
    requires
        n >= 0,
    ensures
        is_floor_sqrt(n, floor_sqrt(n)),
    decreases n,
{
    if n == 0 {
        assert(is_floor_sqrt(0, 0));
    } else {
        lemma_floor_sqrt_exists(n - 1);
        let r = floor_sqrt(n - 1);
        if n < (r + 1) * (r + 1) {
            assert(is_floor_sqrt(n, r));
        } else {
            assert((r + 2) * (r + 2) == (r + 1) * (r + 1) + 2 * r + 3) by (nonlinear_arith);
            assert(is_floor_sqrt(n, r + 1));
        }
    }
}

/// The rounded-down square root is the only number between whose square and
/// whose successor's square `n` lies.
pub proof fn lemma_floor_sqrt_unique(n: int, r: int)
    requires
        is_floor_sqrt(n, r),
    ensures
        r == floor_sqrt(n),
{
    let s = floor_sqrt(n);
    assert(is_floor_sqrt(n, s));
    if s < r {
        assert((s + 1) * (s + 1) <= r * r) by (nonlinear_arith)
            requires
                0 <= s,
                s + 1 <= r,
        ;
    } else if r < s {
        assert((r + 1) * (r + 1) <= s * s) by (nonlinear_arith)
            requires
                0 <= r,
                r + 1 <= s,
        ;
    }
}

/// The square of the rounded-up square root is not below the number, and the
/// root is zero for zero alone.
pub proof fn lemma_ceil_sqrt(n: int)
    requires
        n >= 0,
    ensures
        ceil_sqrt(n) >= 0,
        ceil_sqrt(n) * ceil_sqrt(n) >= n,
        ceil_sqrt(n) == 0 <==> n == 0,
        floor_sqrt(n) <= ceil_sqrt(n) <= floor_sqrt(n) + 1,
{
    lemma_floor_sqrt_exists(n);
    let r = floor_sqrt(n);
    assert(r == 0 ==> r * r == 0) by (nonlinear_arith);
    assert(r >= 1 ==> r * r >= 1) by (nonlinear_arith);
    assert((r + 1) * (r + 1) >= 1) by (nonlinear_arith)
        requires
            r >= 0,
    ;
}

/// The square root of `n`, rounded down.
pub fn isqrt(n: u128) -> (r: u64)
    ensures
        r == floor_sqrt(n as int),
        is_floor_sqrt(n as int, r as int),
{
    let mut lo: u128 = 0;
    let mut hi: u128 = 0x1_0000_0000_0000_0000;
    assert(hi * hi > n) by (nonlinear_arith)
        requires
            hi == 0x1_0000_0000_0000_0000,
            n <= u128::MAX,
    ;
    while hi - lo > 1
        invariant
            lo < hi <= 0x1_0000_0000_0000_0000,
            lo * lo <= n,
            n < hi * hi,
        decreases hi - lo,
    {
        let mid: u128 = lo + (hi - lo) / 2;
        assert(mid * mid <= 0xffff_ffff_ffff_ffff * 0xffff_ffff_ffff_ffff) by (nonlinear_arith)
            requires
                0 <= mid <= 0xffff_ffff_ffff_ffff,
        ;
        if mid * mid <= n {
            lo = mid;
        } else {
            hi = mid;
        }
    }
    proof {
        lemma_floor_sqrt_unique(n as int, lo as int);
    }
    lo as u64
}

/// The square root of `n`, rounded up.
pub fn isqrt_up(n: u128) -> (r: u128)
    ensures
        r == ceil_sqrt(n as int),
        r <= 0x1_0000_0000_0000_0000,
{
    let root: u128 = isqrt(n) as u128;
    assert(root * root <= 0xffff_ffff_ffff_ffff * 0xffff_ffff_ffff_ffff) by (nonlinear_arith)
        requires
            0 <= root <= 0xffff_ffff_ffff_ffff,
    ;
    if root * root == n {
        root
    } else {
        root + 1
    }
}

/// `v` limited to the unit interval.
pub fn clamp_to_unit(v: i128) -> (r: i64)
    ensures
        r == clamp_unit(v as int),
        0 <= r <= SCALE,
{
    if v < 0 {
        0
    } else if v > SCALE as i128 {
        SCALE
    } else {
        v as i64
    }
}

/// `v` limited to what a coordinate can hold.
pub fn saturate_to_coordinate(v: i128) -> (r: i32)
    ensures
        r == saturate(v as int),
{
    if v < i32::MIN as i128 {
        i32::MIN
    } else if v > i32::MAX as i128 {
        i32::MAX
    } else {
        v as i32
    }
}

/// `v` limited to what a 64-bit quantity can hold.
pub fn saturate_to_wide(v: i128) -> (r: i64)
    ensures
        r == saturate_wide(v as int),
{
    if v < i64::MIN as i128 {
        i64::MIN
    } else if v > i64::MAX as i128 {
        i64::MAX
    } else {
        v as i64
    }
}

/// The quotient of `a` by a positive `b`, rounded down.
pub fn floor_div(a: i128, b: i128) -> (q: i128)
    requires
        b > 0,
    ensures
        q == a as int / b as int,
        a >= 0 ==> 0 <= q <= a,
        a < 0 ==> a <= q < 0,
{
    proof {
        let d = b as int;
        let whole = a as int / d;
        let rest = a as int % d;
        lemma_fundamental_div_mod(a as int, d);
        assert((a >= 0 ==> 0 <= whole <= a) && (a < 0 ==> a <= whole < 0)) by (nonlinear_arith)
            requires
                a == d * whole + rest,
                0 <= rest < d,
        ;
    }
    if a >= 0 {
        a / b
    } else {
        let below: i128 = -(a + 1);
        let quotient: i128 = below / b;
        proof {
            let d = b as int;
            let k = quotient as int;
            let r = below as int % d;
            lemma_fundamental_div_mod(below as int, d);
            assert((-k - 1) * d == -(d * k) - d) by (nonlinear_arith);
            lemma_fundamental_div_mod_converse(a as int, d, -k - 1, d - 1 - r);
        }
        -quotient - 1
    }
}

/// `value * numerator / denominator`, rounded toward zero.
pub open spec fn scaled(value: int, numerator: int, denominator: int) -> int {
    div_toward_zero(value * numerator, denominator)
}

/// `value * numerator / denominator`, rounded toward zero. Where the factor
/// `numerator / denominator` is in the unit interval, the result lies between
/// zero and `value`.
pub fn scale(value: i64, numerator: i64, denominator: i64) -> (r: i128)
    requires
        denominator > 0,
    ensures
        r == scaled(value as int, numerator as int, denominator as int),
        0 <= numerator <= denominator ==> (value >= 0 ==> 0 <= r <= value) && (value < 0 ==> value
            <= r <= 0),
{
    let wide_value: i128 = value as i128;
    let wide_numerator: i128 = numerator as i128;
    assert(-0x4000_0000_0000_0000_0000_0000_0000_0000 <= wide_value * wide_numerator
        <= 0x4000_0000_0000_0000_0000_0000_0000_0000) by (nonlinear_arith)
        requires
            -0x8000_0000_0000_0000 <= wide_value <= 0x8000_0000_0000_0000,
            -0x8000_0000_0000_0000 <= wide_numerator <= 0x8000_0000_0000_0000,
    ;
    let product: i128 = wide_value * wide_numerator;
    proof {
        if 0 <= numerator <= denominator {
            lemma_scaled_within(value as int, numerator as int, denominator as int);
        }
    }
    product / (denominator as i128)
}

/// Scaling by a factor in the unit interval gives a value between zero and
/// the value scaled.
pub proof fn lemma_scaled_within(value: int, numerator: int, denominator: int)
    requires
        0 <= numerator <= denominator,
        denominator > 0,
    ensures
        value >= 0 ==> 0 <= scaled(value, numerator, denominator) <= value,
        value < 0 ==> value <= scaled(value, numerator, denominator) <= 0,
{
    let size = if value >= 0 {
        value
    } else {
        -value
    };
    let product = size * numerator;
    assert(0 <= product <= size * denominator) by (nonlinear_arith)
        requires
            0 <= size,
            0 <= numerator <= denominator,
            product == size * numerator,
    ;
    let whole = product / denominator;
    let rest = product % denominator;
    lemma_fundamental_div_mod(product, denominator);
    assert(0 <= whole <= size) by (nonlinear_arith)
        requires
            product == denominator * whole + rest,
            0 <= rest < denominator,
            0 <= product <= size * denominator,
    ;
    if value < 0 {
        assert(-(value * numerator) == size * numerator) by (nonlinear_arith)
            requires
                size == -value,
        ;
        assert(value * numerator <= 0) by (nonlinear_arith)
            requires
                value < 0,
                numerator >= 0,
        ;
        if value * numerator == 0 {
            assert(product == 0);
        }
    } else {
        assert(value * numerator >= 0) by (nonlinear_arith)
            requires
                value >= 0,
                numerator >= 0,
        ;
    }
}

/// Scaling by a factor that is not negative keeps the sign.
pub proof fn lemma_scaled_sign(value: int, numerator: int, denominator: int)
    requires
        numerator >= 0,
        denominator > 0,
    ensures
        value >= 0 ==> scaled(value, numerator, denominator) >= 0,
        value <= 0 ==> scaled(value, numerator, denominator) <= 0,
{
    let product = value * numerator;
    if value >= 0 {
        assert(product >= 0) by (nonlinear_arith)
            requires
                product == value * numerator,
                value >= 0,
                numerator >= 0,
        ;
        lemma_fundamental_div_mod(product, denominator);
        assert(product / denominator >= 0) by (nonlinear_arith)
            requires
                product == denominator * (product / denominator) + product % denominator,
                0 <= product % denominator < denominator,
                product >= 0,
        ;
    }
    if value <= 0 {
        assert(product <= 0) by (nonlinear_arith)
            requires
                product == value * numerator,
                value <= 0,
                numerator >= 0,
        ;
        lemma_fundamental_div_mod(-product, denominator);
        assert((-product) / denominator >= 0) by (nonlinear_arith)
            requires
                -product == denominator * ((-product) / denominator) + (-product) % denominator,
                0 <= (-product) % denominator < denominator,
                -product >= 0,
        ;
    }
}

/// Scaling a multiple of the denominator is exact.
pub proof fn lemma_scaled_exact(factor: int, numerator: int, denominator: int)
    requires
        denominator > 0,
    ensures
        scaled(factor * denominator, numerator, denominator) == factor * numerator,
{
    let product = factor * denominator * numerator;
    assert(product == denominator * (factor * numerator)) by (nonlinear_arith)
        requires
            product == factor * denominator * numerator,
    ;
    vstd::arithmetic::div_mod::lemma_div_multiples_vanish(factor * numerator, denominator);
    assert(-product == denominator * (-(factor * numerator))) by (nonlinear_arith)
        requires
            product == denominator * (factor * numerator),
    ;
    vstd::arithmetic::div_mod::lemma_div_multiples_vanish(-(factor * numerator), denominator);
}

/// Scaling multiplies the size by no more than the factor: the square of
/// the result, times the square of the denominator, is at most the square of
/// the value times the square of the numerator.
pub proof fn lemma_scaled_square(value: int, numerator: int, denominator: int)
    requires
        numerator >= 0,
        denominator > 0,
    ensures
        scaled(value, numerator, denominator) * scaled(value, numerator, denominator) * (
        denominator * denominator) <= (value * value) * (numerator * numerator),
{
    let size = if value >= 0 {
        value
    } else {
        -value
    };
    let product = size * numerator;
    let whole = product / denominator;
    let rest = product % denominator;
    let result = scaled(value, numerator, denominator);
    assert(product >= 0) by (nonlinear_arith)
        requires
            product == size * numerator,
            size >= 0,
            numerator >= 0,
    ;
    lemma_fundamental_div_mod(product, denominator);
    assert(0 <= whole * denominator <= product) by (nonlinear_arith)
        requires
            product == denominator * whole + rest,
            0 <= rest < denominator,
            product >= 0,
    ;
    assert(result == whole || result == -whole) by {
        if value >= 0 {
            assert(value * numerator == product);
        } else {
            assert(value * numerator == -product) by (nonlinear_arith)
                requires
                    product == size * numerator,
                    size == -value,
            ;
            if product == 0 {
                assert(whole == 0);
            }
        }
    }
    assert(result * result * (denominator * denominator) <= (value * value) * (numerator
        * numerator)) by (nonlinear_arith)
        requires
            result == whole || result == -whole,
            0 <= whole * denominator <= product,
            product == size * numerator,
            size == value || size == -value,
    ;
}

/// Limiting a value to the range of a coordinate does not make it larger.
pub proof fn lemma_saturate_square(v: int)
    ensures
        saturate(v) * saturate(v) <= v * v,
{
    let s = saturate(v);
    assert(s * s <= v * v) by (nonlinear_arith)
        requires
            (0 <= s <= v) || (v <= s <= 0),
    ;
}

} // verus!
