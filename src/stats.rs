//! Process-capability indices, the root sum square and the correction factor
//! of the modified root sum square, on fixed-point values.
use vstd::prelude::*;
use crate::fixed::{
    div_floor, floor_div, in_limit, in_wide_limit, is_root, isqrt, lemma_floor_div_bound,
    lemma_sum_of_prefix_le, lemma_sum_of_take, sqrt_floor, sum_of, times_scale, LIMIT, SCALE,
};

verus! {

/// `(ul - ll) / (6 * std_dev)`, as a fixed-point ratio.
pub open spec fn c_p_of(ul: int, ll: int, std_dev: int) -> int {
    floor_div((ul - ll) * SCALE, 6 * std_dev)
}

/// `min((ul - mean) / (3 * std_dev), (mean - ll) / (3 * std_dev))`, as a
/// fixed-point ratio.
pub open spec fn c_pk_of(ul: int, ll: int, mean: int, std_dev: int) -> int {
    let cpu = floor_div((ul - mean) * SCALE, 3 * std_dev);
    let cpl = floor_div((mean - ll) * SCALE, 3 * std_dev);
    if cpu <= cpl { cpu } else { cpl }
}

/// The square of a value.
pub open spec fn square_fn() -> spec_fn(i64) -> int {
    |x: i64| x * x
}

/// The sum of the squares of the values.
pub open spec fn sum_squares(s: Seq<i64>) -> int {
    sum_of(s, square_fn())
}

/// The root sum square of the values: the square root of the sum of their
/// squares. Squares of millionths are millionths squared, so the root is
/// again in millionths.
pub open spec fn rss_of(s: Seq<i64>) -> int {
    isqrt(sum_squares(s))
}

/// The square root of `n`, in millionths.
pub open spec fn sqrt_count(n: int) -> int {
    isqrt(n * SCALE * SCALE)
}

/// The correction factor of the modified root sum square,
/// `1 + 0.5 * (t_wc - t_rss) / (t_rss * (sqrt(n) - 1))`, in millionths.
pub open spec fn c_f_of(t_rss: int, t_wc: int, n: int) -> int {
    SCALE + floor_div((t_wc - t_rss) * SCALE * SCALE, 2 * t_rss * (sqrt_count(n) - SCALE))
}

/// Process capability index of a spread `std_dev` within the limits
/// `ll..ul`.
pub fn c_p(ul: i64, ll: i64, std_dev: i64) -> (r: i64)
    requires
        in_wide_limit(ul as int),
        in_wide_limit(ll as int),
        in_limit(std_dev as int),
        std_dev != 0,
    ensures
        r == c_p_of(ul as int, ll as int, std_dev as int),
{
    let num: i128 = times_scale(ul as i128 - ll as i128);
    let q = div_floor(num, 6 * std_dev as i128);
    proof {
        lemma_floor_div_bound(num as int, 6 * std_dev, 4 * LIMIT * SCALE);
    }
    q as i64
}

/// Process capability index adjusted for centering: the smaller of the
/// upper and the lower one-sided index.
pub fn c_pk(ul: i64, ll: i64, mean: i64, std_dev: i64) -> (r: i64)
    requires
        in_wide_limit(ul as int),
        in_wide_limit(ll as int),
        in_wide_limit(mean as int),
        in_limit(std_dev as int),
        std_dev != 0,
    ensures
        r == c_pk_of(ul as int, ll as int, mean as int, std_dev as int),
{
    let num_u: i128 = times_scale(ul as i128 - mean as i128);
    let num_l: i128 = times_scale(mean as i128 - ll as i128);
    let cpu = div_floor(num_u, 3 * std_dev as i128);
    let cpl = div_floor(num_l, 3 * std_dev as i128);
    proof {
        lemma_floor_div_bound(num_u as int, 3 * std_dev, 4 * LIMIT * SCALE);
        lemma_floor_div_bound(num_l as int, 3 * std_dev, 4 * LIMIT * SCALE);
    }
    if cpu <= cpl {
        cpu as i64
    } else {
        cpl as i64
    }
}

/// Root sum square of the values.
pub fn rss(args: &Vec<i64>) -> (r: i64)
    requires
        sum_squares(args@) < 0x4000_0000_0000_0000_0000_0000_0000_0000,
    ensures
        r == rss_of(args@),
        is_root(r as int, sum_squares(args@)),
        r >= 0,
{
    let mut acc: u128 = 0;
    let mut i: usize = 0;
    proof {
        assert forall|j: int| 0 <= j < args@.len() implies (square_fn())(#[trigger] args@[j]) >= 0 by {
            let x = args@[j] as int;
            assert(x * x >= 0) by (nonlinear_arith);
        }
    }
    while i < args.len()
        invariant
            i <= args.len(),
            acc == sum_of(args@.take(i as int), square_fn()),
            sum_squares(args@) < 0x4000_0000_0000_0000_0000_0000_0000_0000,
            forall|j: int| 0 <= j < args@.len() ==> (square_fn())(#[trigger] args@[j]) >= 0,
        decreases args.len() - i,
    {
        let x: i128 = args[i] as i128;
        assert(x * x <= 0x4000_0000_0000_0000_0000_0000_0000_0000) by (nonlinear_arith)
            requires -0x8000_0000_0000_0000 <= x <= 0x7fff_ffff_ffff_ffff;
        assert(x * x >= 0) by (nonlinear_arith);
        let sq: u128 = (x * x) as u128;
        proof {
            lemma_sum_of_take(args@, square_fn(), i as int);
            lemma_sum_of_prefix_le(args@, square_fn(), i as int + 1);
        }
        acc = acc + sq;
        i = i + 1;
    }
    assert(args@.take(args@.len() as int) =~= args@);
    let root = sqrt_floor(acc);
    proof {
        let ri = root as int;
        assert(ri < 0x8000_0000_0000_0000) by (nonlinear_arith)
            requires ri >= 0, ri * ri <= acc as int, acc < 0x4000_0000_0000_0000_0000_0000_0000_0000;
    }
    root as i64
}

/// The correction factor of the modified root sum square for `n` components
/// whose worst-case sum is `t_wc` and whose root sum square is `t_rss`.
pub fn c_f(t_rss: i64, t_wc: i64, n: u64) -> (r: i64)
    requires
        in_limit(t_rss as int),
        in_limit(t_wc as int),
        t_rss != 0,
        n >= 2,
        i64::MIN <= c_f_of(t_rss as int, t_wc as int, n as int) <= i64::MAX,
    ensures
        r == c_f_of(t_rss as int, t_wc as int, n as int),
{
    assert(n as int * (SCALE * SCALE) <= 0xffff_ffff_ffff_ffff * (SCALE * SCALE)) by (nonlinear_arith)
        requires n <= 0xffff_ffff_ffff_ffff;
    let sqrt_n = sqrt_floor(n as u128 * (SCALE as u128 * SCALE as u128));
    proof {
        let ri = sqrt_n as int;
        let ni = n as int;
        assert(ni * SCALE * SCALE == ni * (SCALE * SCALE)) by (nonlinear_arith);
        assert(ri > SCALE) by (nonlinear_arith)
            requires
                ri >= 0,
                ni * SCALE * SCALE < (ri + 1) * (ri + 1),
                ni >= 2,
                SCALE == 1_000_000;
    }
    let num: i128 = times_scale(times_scale(t_wc as i128 - t_rss as i128));
    let excess: i128 = sqrt_n as i128 - SCALE as i128;
    assert(2 * (t_rss as int) * (excess as int) <= 2 * LIMIT * 0x1_0000_0000_0000_0000) by (nonlinear_arith)
        requires in_limit(t_rss as int), 0 < excess <= 0x1_0000_0000_0000_0000;
    assert(2 * (t_rss as int) * (excess as int) >= -2 * LIMIT * 0x1_0000_0000_0000_0000) by (nonlinear_arith)
        requires in_limit(t_rss as int), 0 < excess <= 0x1_0000_0000_0000_0000;
    assert(2 * (t_rss as int) * (excess as int) != 0) by (nonlinear_arith)
        requires t_rss != 0, excess > 0;
    let den: i128 = 2 * t_rss as i128 * excess;
    let q = div_floor(num, den);
    (SCALE as i128 + q) as i64
}

} // verus!
