//! Fixed-point helpers: the scale, the magnitude bound, floor division and the
//! integer square root.
use vstd::prelude::*;

verus! {

/// One unit, in millionths.
pub const SCALE: i64 = 1_000_000;

/// The largest magnitude of a length, tolerance or sensitivity that the
/// analyses accept: one million units.
pub const LIMIT: i64 = 1_000_000_000_000;

/// The bound on a product of two bounded values, taken back to millionths:
/// `LIMIT * LIMIT / SCALE`.
pub const PRODUCT_LIMIT: i64 = 1_000_000_000_000_000_000;

/// Is `x` within the magnitude bound?
pub open spec fn in_limit(x: int) -> bool {
    -LIMIT <= x <= LIMIT
}

/// Is `x` within twice the magnitude bound, as the sum of two bounded
/// values is?
pub open spec fn in_wide_limit(x: int) -> bool {
    -2 * LIMIT <= x <= 2 * LIMIT
}

/// Division rounded towards negative infinity, for a nonzero divisor.
pub open spec fn floor_div(a: int, b: int) -> int {
    if b > 0 {
        a / b
    } else {
        (-a) / (-b)
    }
}

/// `x` multiplied by one unit.
pub fn times_scale(x: i128) -> (r: i128)
    requires
        -0x10_0000_0000_0000_0000_0000_0000 <= x <= 0x10_0000_0000_0000_0000_0000_0000,
    ensures
        r == x * SCALE,
{
    x * 1_000_000
}

/// Floor division on `i128`.
pub fn div_floor(a: i128, b: i128) -> (r: i128)
    requires
        b != 0,
        -0x1000_0000_0000_0000_0000_0000_0000_0000 < a < 0x1000_0000_0000_0000_0000_0000_0000_0000,
        -0x1000_0000_0000_0000_0000_0000_0000_0000 < b < 0x1000_0000_0000_0000_0000_0000_0000_0000,
    ensures
        r == floor_div(a as int, b as int),
{
    let (n, d) = if b > 0 { (a, b) } else { (-a, -b) };
    if n >= 0 {
        n / d
    } else {
        let m: i128 = -n - 1;
        let q: i128 = m / d;
        proof {
            let ni = n as int;
            let di = d as int;
            let qi = q as int;
            assert(m as int == di * qi + (m as int) % di) by (nonlinear_arith)
                requires di > 0, m >= 0, qi == (m as int) / di;
            assert(ni / di == -qi - 1) by {
                let r0 = (m as int) % di;
                assert(0 <= r0 < di);
                assert(ni == di * (-qi - 1) + (di - 1 - r0)) by (nonlinear_arith)
                    requires m as int == di * qi + r0, ni == -(m as int) - 1;
                vstd::arithmetic::div_mod::lemma_fundamental_div_mod_converse(ni, di, -qi - 1, di - 1 - r0);
            }
        }
        -q - 1
    }
}

/// `r` is the square root of `n`, rounded down.
pub open spec fn is_root(r: int, n: int) -> bool {
    0 <= r && r * r <= n && n < (r + 1) * (r + 1)
}

/// The square root of `n`, rounded down.
pub open spec fn isqrt(n: int) -> int {
    choose|r: int| is_root(r, n)
}

/// Every nonnegative number has a rounded-down square root, so `isqrt`
/// names it.
pub proof fn lemma_isqrt_is_root(n: int)
    requires
        n >= 0,
    ensures
        is_root(isqrt(n), n),
{
    lemma_root_exists(n);
}

/// Every nonnegative number has a rounded-down square root.
proof fn lemma_root_exists(n: int)
    requires
        n >= 0,
    ensures
        exists|r: int| #[trigger] is_root(r, n),
    decreases n,
{
    if n == 0 {
        assert(is_root(0, 0));
    } else {
        lemma_root_exists(n - 1);
        let r = choose|r: int| #[trigger] is_root(r, n - 1);
        if (r + 1) * (r + 1) <= n {
            assert(n < (r + 2) * (r + 2)) by (nonlinear_arith)
                requires n - 1 < (r + 1) * (r + 1), r >= 0;
            assert(is_root(r + 1, n));
        } else {
            assert(is_root(r, n));
        }
    }
}

/// A number has at most one rounded-down square root.
pub proof fn lemma_root_unique(r1: int, r2: int, n: int)
    requires
        is_root(r1, n),
        is_root(r2, n),
    ensures
        r1 == r2,
{
    if r1 < r2 {
        assert((r1 + 1) * (r1 + 1) <= r2 * r2) by (nonlinear_arith)
            requires 0 <= r1 < r2;
    } else if r2 < r1 {
        assert((r2 + 1) * (r2 + 1) <= r1 * r1) by (nonlinear_arith)
            requires 0 <= r2 < r1;
    }
}

/// Any witness of `is_root` is the value of `isqrt`.
pub proof fn lemma_isqrt_is(r: int, n: int)
    requires
        is_root(r, n),
    ensures
        isqrt(n) == r,
{
    lemma_root_unique(isqrt(n), r, n);
}

/// The square root of `n`, rounded down, by bisection.
pub fn sqrt_floor(n: u128) -> (r: u128)
    ensures
        r == isqrt(n as int),
        is_root(r as int, n as int),
        r <= 0xffff_ffff_ffff_ffff,
{
    let mut lo: u128 = 0;
    let mut hi: u128 = 0x1_0000_0000_0000_0000;
    assert(n < hi * hi);
    while hi - lo > 1
        invariant
            lo < hi <= 0x1_0000_0000_0000_0000,
            lo * lo <= n,
            n < hi * hi,
        decreases hi - lo,
    {
        let mid: u128 = lo + (hi - lo) / 2;
        assert(mid * mid < 0x1_0000_0000_0000_0000 * 0x1_0000_0000_0000_0000) by (nonlinear_arith)
            requires mid < 0x1_0000_0000_0000_0000;
        if mid * mid <= n {
            lo = mid;
        } else {
            hi = mid;
        }
    }
    proof {
        lemma_isqrt_is(lo as int, n as int);
    }
    lo
}

/// The sum of `f` over the elements of `s`.
pub open spec fn sum_of<T>(s: Seq<T>, f: spec_fn(T) -> int) -> int
    decreases s.len(),
{
    if s.len() == 0 {
        0
    } else {
        sum_of(s.drop_last(), f) + f(s.last())
    }
}

/// Summing one more element of a prefix adds its term.
pub proof fn lemma_sum_of_take<T>(s: Seq<T>, f: spec_fn(T) -> int, i: int)
    requires
        0 <= i < s.len(),
    ensures
        sum_of(s.take(i + 1), f) == sum_of(s.take(i), f) + f(s[i]),
{
    assert(s.take(i + 1).drop_last() =~= s.take(i));
}

/// A prefix of nonnegative terms sums to no more than the whole sequence.
pub proof fn lemma_sum_of_prefix_le<T>(s: Seq<T>, f: spec_fn(T) -> int, i: int)
    requires
        0 <= i <= s.len(),
        forall|j: int| 0 <= j < s.len() ==> f(#[trigger] s[j]) >= 0,
    ensures
        0 <= sum_of(s.take(i), f) <= sum_of(s, f),
    decreases s.len() - i,
{
    if i < s.len() {
        lemma_sum_of_take(s, f, i);
        lemma_sum_of_prefix_le(s, f, i + 1);
        assert(f(s[i]) >= 0);
        assert(forall|j: int| 0 <= j < s.take(i).len() ==> s.take(i)[j] == s[j]);
        lemma_sum_of_nonneg(s.take(i), f);
    } else {
        assert(s.take(i) =~= s);
        lemma_sum_of_nonneg(s, f);
    }
}

/// A sum of nonnegative terms is nonnegative.
pub proof fn lemma_sum_of_nonneg<T>(s: Seq<T>, f: spec_fn(T) -> int)
    requires
        forall|j: int| 0 <= j < s.len() ==> f(#[trigger] s[j]) >= 0,
    ensures
        sum_of(s, f) >= 0,
    decreases s.len(),
{
    if s.len() > 0 {
        assert(forall|j: int| 0 <= j < s.drop_last().len() ==> s.drop_last()[j] == s[j]);
        lemma_sum_of_nonneg(s.drop_last(), f);
        assert(f(s[s.len() - 1]) >= 0);
    }
}

/// Dividing by a nonzero integer does not grow a magnitude.
pub proof fn lemma_floor_div_bound(a: int, b: int, m: int)
    requires
        -m <= a <= m,
        b != 0,
    ensures
        -m <= floor_div(a, b) <= m,
{
    let (n, d) = if b > 0 { (a, b) } else { (-a, -b) };
    assert(-m <= n <= m);
    let q = n / d;
    let r = n % d;
    vstd::arithmetic::div_mod::lemma_fundamental_div_mod(n, d);
    assert(0 <= r < d);
    assert(-m <= q <= m) by (nonlinear_arith)
        requires n == d * q + r, 0 <= r < d, -m <= n <= m, d >= 1;
}

/// A product of bounded factors is bounded by the product of the bounds.
pub proof fn lemma_mul_bound(a: int, b: int, ma: int, mb: int)
    requires
        -ma <= a <= ma,
        -mb <= b <= mb,
    ensures
        -(ma * mb) <= a * b <= ma * mb,
{
    assert(-(ma * mb) <= a * b <= ma * mb) by (nonlinear_arith)
        requires -ma <= a <= ma, -mb <= b <= mb;
}

/// Dividing by a positive `d` shrinks a bound of `m * d` to `m`.
pub proof fn lemma_div_shrinks(x: int, d: int, m: int)
    requires
        d > 0,
        -(m * d) <= x <= m * d,
    ensures
        -m <= x / d <= m,
{
    let q = x / d;
    vstd::arithmetic::div_mod::lemma_fundamental_div_mod(x, d);
    assert(-m <= q <= m) by (nonlinear_arith)
        requires x == d * q + x % d, 0 <= x % d < d, -(m * d) <= x <= m * d, d > 0;
}

/// Dividing by one unit shrinks a bound of `m` units to `m`.
pub proof fn lemma_descale_bound(x: int, m: int)
    requires
        -(m * SCALE) <= x <= m * SCALE,
    ensures
        -m <= floor_div(x, SCALE as int) <= m,
{
    let q = x / (SCALE as int);
    vstd::arithmetic::div_mod::lemma_fundamental_div_mod(x, SCALE as int);
    assert(-m <= q <= m) by (nonlinear_arith)
        requires
            x == SCALE * q + x % (SCALE as int),
            0 <= x % (SCALE as int) < SCALE,
            -(m * SCALE) <= x <= m * SCALE,
            SCALE == 1_000_000;
}

/// Half of a value, rounded down.
pub fn halve(x: i128) -> (r: i128)
    requires
        -0x10_0000_0000_0000_0000_0000_0000 <= x <= 0x10_0000_0000_0000_0000_0000_0000,
    ensures
        r == floor_div(x as int, 2),
        -0x10_0000_0000_0000_0000_0000_0000 <= r <= 0x10_0000_0000_0000_0000_0000_0000,
        x >= 0 ==> 0 <= r <= x,
        x < 0 ==> x <= r < 0,
{
    div_floor(x, 2)
}

} // verus!
