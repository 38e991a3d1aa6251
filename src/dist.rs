//! Statistical distributions of a dimension: uniform and normal.
use vstd::prelude::*;
use crate::fixed::{
    div_floor, floor_div, in_limit, isqrt, lemma_div_shrinks, lemma_floor_div_bound,
    lemma_sum_of_take, sqrt_floor, sum_of, times_scale, LIMIT, SCALE,
};

verus! {

/// A distribution, uniform or normal.
#[derive(Clone, Copy, Debug)]
pub enum Distribution {
    Uniform(Uniform),
    Normal(Normal),
}

/// A uniform distribution over `lower..=upper`.
#[derive(Clone, Copy, Debug)]
pub struct Uniform {
    pub upper: i64,
    pub lower: i64,
}

impl Uniform {
    /// Are the bounds within the magnitude bound, and in order?
    pub open spec fn wf(self) -> bool {
        in_limit(self.lower as int) && in_limit(self.upper as int) && self.lower < self.upper
    }

    /// The density at `x`: `1 / (upper - lower)` inside the band, else 0.
    pub open spec fn pdf_at(self, x: int) -> int {
        if x < self.lower || x > self.upper {
            0
        } else {
            floor_div(SCALE * SCALE, self.upper - self.lower)
        }
    }

    /// The cumulative probability at `x`: `(x - lower) / (upper - lower)`
    /// inside the band, 0 below it and 1 above it.
    pub open spec fn cdf_at(self, x: int) -> int {
        if x < self.lower {
            0
        } else if x > self.upper {
            SCALE as int
        } else {
            floor_div((x - self.lower) * SCALE, self.upper - self.lower)
        }
    }

    pub fn new(lower: i64, upper: i64) -> (r: Uniform)
        ensures
            r.lower == lower,
            r.upper == upper,
    {
        Uniform { lower, upper }
    }

    /// Probability density at `x`.
    pub fn pdf(&self, x: i64) -> (r: i64)
        requires
            self.wf(),
        ensures
            r == self.pdf_at(x as int),
    {
        if x < self.lower || x > self.upper {
            return 0;
        }
        let q = div_floor(SCALE as i128 * SCALE as i128, self.upper as i128 - self.lower as i128);
        proof {
            lemma_floor_div_bound(SCALE * SCALE, self.upper - self.lower, SCALE * SCALE);
        }
        q as i64
    }

    /// Cumulative probability at `x`, clamped to `0..=1` outside the band.
    pub fn cdf(&self, x: i64) -> (r: i64)
        requires
            self.wf(),
        ensures
            r == self.cdf_at(x as int),
            0 <= r <= SCALE,
            x < self.lower ==> r == 0,
            x > self.upper ==> r == SCALE,
    {
        if x < self.lower {
            return 0;
        } else if x > self.upper {
            return SCALE;
        }
        let num = times_scale(x as i128 - self.lower as i128);
        let den = self.upper as i128 - self.lower as i128;
        let q = div_floor(num, den);
        proof {
            let n = num as int;
            let d = den as int;
            assert(0 <= n / d <= SCALE) by (nonlinear_arith)
                requires 0 <= n <= d * SCALE, d > 0;
        }
        q as i64
    }
}

/// A normal distribution.
#[derive(Clone, Copy, Debug)]
pub struct Normal {
    pub mean: i64,
    pub std_dev: i64,
}

/// The largest number of samples that [`Normal::fit`] takes.
pub const MAX_SAMPLES: usize = 1_000_000_000;

/// A sample as an integer.
pub open spec fn sample_fn() -> spec_fn(i64) -> int {
    |x: i64| x as int
}

/// The squared deviation of a sample from `mean`.
pub open spec fn sq_dev_fn(mean: int) -> spec_fn(i64) -> int {
    |x: i64| (x - mean) * (x - mean)
}

/// The arithmetic mean of the samples, rounded down.
pub open spec fn sample_mean(s: Seq<i64>) -> int {
    floor_div(sum_of(s, sample_fn()), s.len() as int)
}

/// The population standard deviation of the samples: the square root of
/// the mean squared deviation from [`sample_mean`], each rounded down.
pub open spec fn sample_std_dev(s: Seq<i64>) -> int {
    isqrt(floor_div(sum_of(s, sq_dev_fn(sample_mean(s))), s.len() as int))
}

impl Normal {
    /// The variance, `std_dev²`.
    pub open spec fn variance_of(self) -> int {
        floor_div(self.std_dev * self.std_dev, SCALE as int)
    }

    pub fn new(mean: i64, std_dev: i64) -> (r: Normal)
        ensures
            r.mean == mean,
            r.std_dev == std_dev,
    {
        Normal { mean, std_dev }
    }

    /// The variance of the distribution.
    pub fn variance(&self) -> (r: i64)
        requires
            in_limit(self.std_dev as int),
        ensures
            r == self.variance_of(),
    {
        let sd = self.std_dev as i128;
        assert(0 <= sd * sd <= LIMIT * LIMIT) by (nonlinear_arith)
            requires in_limit(sd as int);
        let q = div_floor(sd * sd, SCALE as i128);
        proof {
            let v = (sd * sd) as int;
            assert(0 <= v / (SCALE as int) <= (LIMIT as int) * (LIMIT as int) / (SCALE as int)) by (nonlinear_arith)
                requires 0 <= v <= LIMIT * LIMIT, SCALE == 1_000_000;
        }
        q as i64
    }

    /// The normal distribution fitted to the samples: their mean, and the
    /// standard deviation of the population variance (divided by the number
    /// of samples, not one less).
    pub fn fit(measurements: &Vec<i64>) -> (r: Normal)
        requires
            0 < measurements@.len() <= MAX_SAMPLES,
            forall|i: int| 0 <= i < measurements@.len() ==> in_limit(#[trigger] measurements@[i] as int),
        ensures
            r.mean == sample_mean(measurements@),
            r.std_dev == sample_std_dev(measurements@),
            in_limit(r.mean as int),
            r.std_dev >= 0,
    {
        let n = measurements.len();
        let mut total: i128 = 0;
        let mut i: usize = 0;
        while i < n
            invariant
                n == measurements@.len() <= MAX_SAMPLES,
                i <= n,
                forall|j: int| 0 <= j < measurements@.len() ==> in_limit(#[trigger] measurements@[j] as int),
                total == sum_of(measurements@.take(i as int), sample_fn()),
                -(i as int) * LIMIT <= total <= (i as int) * LIMIT,
            decreases n - i,
        {
            proof {
                lemma_sum_of_take(measurements@, sample_fn(), i as int);
            }
            total = total + measurements[i] as i128;
            i = i + 1;
        }
        assert(measurements@.take(n as int) =~= measurements@);
        let mean = div_floor(total, n as i128);
        proof {
            lemma_div_shrinks(total as int, n as int, LIMIT as int);
        }
        let mean = mean as i64;
        let mut squares: i128 = 0;
        let mut i: usize = 0;
        while i < n
            invariant
                n == measurements@.len() <= MAX_SAMPLES,
                i <= n,
                in_limit(mean as int),
                forall|j: int| 0 <= j < measurements@.len() ==> in_limit(#[trigger] measurements@[j] as int),
                squares == sum_of(measurements@.take(i as int), sq_dev_fn(mean as int)),
                0 <= squares <= (i as int) * 4_000_000_000_000_000_000_000_000,
            decreases n - i,
        {
            let dev: i128 = measurements[i] as i128 - mean as i128;
            assert(0 <= dev * dev <= 4_000_000_000_000_000_000_000_000) by (nonlinear_arith)
                requires -2_000_000_000_000 <= dev <= 2_000_000_000_000;
            proof {
                lemma_sum_of_take(measurements@, sq_dev_fn(mean as int), i as int);
            }
            squares = squares + dev * dev;
            i = i + 1;
        }
        assert(measurements@.take(n as int) =~= measurements@);
        let variance = div_floor(squares, n as i128);
        proof {
            lemma_div_shrinks(squares as int, n as int, 4_000_000_000_000_000_000_000_000);
        }
        let root = sqrt_floor(variance as u128);
        proof {
            let ri = root as int;
            assert(ri <= 2_000_000_000_000) by (nonlinear_arith)
                requires ri >= 0, ri * ri <= variance, variance <= 4_000_000_000_000_000_000_000_000;
        }
        Normal { mean, std_dev: root as i64 }
    }
}

} // verus!
