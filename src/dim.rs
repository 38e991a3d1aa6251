//! Dimensions: a toleranced measurement, stacks of them, reviewed dimensions
//! with a statistical distribution, and requirements on a distribution.
use vstd::prelude::*;
use crate::dist::{Distribution, Normal};
use crate::fixed::{
    div_floor, floor_div, halve, in_limit, lemma_descale_bound, lemma_floor_div_bound,
    lemma_mul_bound, times_scale, LIMIT, PRODUCT_LIMIT, SCALE,
};
use crate::stats;
use crate::tol::Bilateral;

verus! {

/// The direction of a measurement along its axis.
#[derive(Clone, Copy, Debug, PartialEq, Eq, Structural)]
pub enum Direction {
    Positive,
    Negative,
}

impl Direction {
    /// One unit, with the sign of the direction.
    pub fn signum(&self) -> (r: i64)
        ensures
            r == match self {
                Direction::Positive => SCALE as int,
                Direction::Negative => -SCALE,
            },
    {
        match self {
            Direction::Positive => SCALE,
            Direction::Negative => -SCALE,
        }
    }

    /// The direction of a value: positive when it is greater than zero,
    /// negative otherwise.
    pub fn from(num: i64) -> (r: Direction)
        ensures
            r == (if num > 0 { Direction::Positive } else { Direction::Negative }),
    {
        if num > 0 {
            Direction::Positive
        } else {
            Direction::Negative
        }
    }
}

/// A signed position along a line, in millionths of a unit.
#[derive(Clone, Copy, Debug)]
pub struct Vec1D {
    pub x: i64,
}

impl Vec1D {
    pub fn new(x: i64) -> (r: Vec1D)
        ensures
            r.x == x,
    {
        Vec1D { x }
    }
}

/// A toleranced linear measurement.
///
/// `nom` is the signed nominal value, `tol` the tolerance as authored for a
/// positive measurement, and `a` the sensitivity with which the measurement
/// contributes to a derived dimension (one unit is `SCALE`).
#[derive(Clone, Debug)]
pub struct Basic {
    pub nom: Vec1D,
    pub tol: Bilateral,
    pub a: i64,
    pub name: String,
    pub desc: String,
}

impl Basic {
    /// Are the nominal value, the tolerance offsets and the sensitivity within
    /// the magnitude bound?
    pub open spec fn wf(self) -> bool {
        &&& in_limit(self.nom.x as int)
        &&& in_limit(self.tol.upper as int)
        &&& in_limit(self.tol.lower as int)
        &&& in_limit(self.a as int)
    }

    /// The lower end of the unsigned band, `|nom| + tol.lower`.
    pub open spec fn spec_lower(self) -> int {
        (if self.nom.x >= 0 { self.nom.x as int } else { -self.nom.x }) + self.tol.lower
    }

    /// The upper end of the unsigned band, `|nom| + tol.upper`.
    pub open spec fn spec_upper(self) -> int {
        (if self.nom.x >= 0 { self.nom.x as int } else { -self.nom.x }) + self.tol.upper
    }

    /// The middle of the unsigned band.
    pub open spec fn spec_median(self) -> int {
        floor_div(self.spec_lower() + self.spec_upper(), 2)
    }

    /// The nominal value scaled by the sensitivity.
    pub open spec fn spec_absolute_nominal_adj(self) -> int {
        floor_div(self.nom.x * self.a, SCALE as int)
    }

    /// The physical lower offset: the authored lower offset for a positive
    /// nominal value, the negated upper offset otherwise.
    pub open spec fn spec_absolute_lower_tol(self) -> int {
        if self.nom.x > 0 {
            self.tol.lower as int
        } else {
            -self.tol.upper
        }
    }

    /// The physical upper offset: the authored upper offset for a positive
    /// nominal value, the negated lower offset otherwise.
    pub open spec fn spec_absolute_upper_tol(self) -> int {
        if self.nom.x > 0 {
            self.tol.upper as int
        } else {
            -self.tol.lower
        }
    }

    /// The signed lower bound of the measurement.
    pub open spec fn spec_absolute_lower(self) -> int {
        self.nom.x + self.spec_absolute_lower_tol()
    }

    /// The signed upper bound of the measurement.
    pub open spec fn spec_absolute_upper(self) -> int {
        self.nom.x + self.spec_absolute_upper_tol()
    }

    /// The middle of the signed band.
    pub open spec fn spec_absolute_median(self) -> int {
        floor_div(self.spec_absolute_lower() + self.spec_absolute_upper(), 2)
    }

    /// The middle of the signed band scaled by the sensitivity.
    pub open spec fn spec_absolute_median_adj(self) -> int {
        floor_div(self.spec_absolute_median() * self.a, SCALE as int)
    }

    /// A measurement with the given parts.
    pub fn new(nom: Vec1D, tol: Bilateral, a: i64, name: String, desc: String) -> (r: Basic)
        ensures
            r == (Basic { nom, tol, a, name, desc }),
    {
        Basic { nom, tol, a, name, desc }
    }

    /// The middle of the unsigned band.
    pub fn median(&self) -> (r: i64)
        requires
            self.wf(),
        ensures
            r == self.spec_median(),
    {
        let m = halve(self.lower() as i128 + self.upper() as i128);
        m as i64
    }

    /// The lower end of the unsigned band.
    pub fn lower(&self) -> (r: i64)
        requires
            self.wf(),
        ensures
            r == self.spec_lower(),
            -LIMIT <= r <= 2 * LIMIT,
    {
        let mag: i64 = if self.nom.x >= 0 { self.nom.x } else { -self.nom.x };
        mag + self.tol.lower
    }

    /// The upper end of the unsigned band.
    pub fn upper(&self) -> (r: i64)
        requires
            self.wf(),
        ensures
            r == self.spec_upper(),
            -LIMIT <= r <= 2 * LIMIT,
    {
        let mag: i64 = if self.nom.x >= 0 { self.nom.x } else { -self.nom.x };
        mag + self.tol.upper
    }

    /// The nominal value scaled by the sensitivity.
    pub fn absolute_nominal_adj(&self) -> (r: i64)
        requires
            self.wf(),
        ensures
            r == self.spec_absolute_nominal_adj(),
            -PRODUCT_LIMIT <= r <= PRODUCT_LIMIT,
    {
        proof {
            lemma_mul_bound(self.nom.x as int, self.a as int, LIMIT as int, LIMIT as int);
        }
        let p: i128 = self.nom.x as i128 * self.a as i128;
        proof {
            lemma_descale_bound(p as int, PRODUCT_LIMIT as int);
        }
        div_floor(p, SCALE as i128) as i64
    }

    /// The middle of the signed band.
    pub fn absolute_median(&self) -> (r: i64)
        requires
            self.wf(),
        ensures
            r == self.spec_absolute_median(),
            -2 * LIMIT <= r <= 2 * LIMIT,
    {
        halve(self.absolute_lower() as i128 + self.absolute_upper() as i128) as i64
    }

    /// The middle of the signed band scaled by the sensitivity.
    pub fn absolute_median_adj(&self) -> (r: i64)
        requires
            self.wf(),
        ensures
            r == self.spec_absolute_median_adj(),
            -2 * PRODUCT_LIMIT <= r <= 2 * PRODUCT_LIMIT,
    {
        let m = self.absolute_median();
        proof {
            lemma_mul_bound(m as int, self.a as int, 2 * LIMIT, LIMIT as int);
        }
        let p: i128 = m as i128 * self.a as i128;
        proof {
            lemma_descale_bound(p as int, 2 * PRODUCT_LIMIT);
        }
        div_floor(p, SCALE as i128) as i64
    }

    /// The signed lower bound of the measurement.
    pub fn absolute_lower(&self) -> (r: i64)
        requires
            self.wf(),
        ensures
            r == self.spec_absolute_lower(),
            -2 * LIMIT <= r <= 2 * LIMIT,
    {
        self.nom.x + self.absolute_lower_tol()
    }

    /// The signed upper bound of the measurement.
    pub fn absolute_upper(&self) -> (r: i64)
        requires
            self.wf(),
        ensures
            r == self.spec_absolute_upper(),
            -2 * LIMIT <= r <= 2 * LIMIT,
    {
        self.nom.x + self.absolute_upper_tol()
    }

    /// The physical lower offset. A measurement with a nominal value that is
    /// not positive runs the other way, so its authored offsets swap roles
    /// and change sign.
    pub fn absolute_lower_tol(&self) -> (r: i64)
        requires
            self.wf(),
        ensures
            r == self.spec_absolute_lower_tol(),
            in_limit(r as int),
    {
        if self.nom.x > 0 {
            self.tol.lower
        } else {
            -self.tol.upper
        }
    }

    /// The physical upper offset; see [`Basic::absolute_lower_tol`].
    pub fn absolute_upper_tol(&self) -> (r: i64)
        requires
            self.wf(),
        ensures
            r == self.spec_absolute_upper_tol(),
            in_limit(r as int),
    {
        if self.nom.x > 0 {
            self.tol.upper
        } else {
            -self.tol.lower
        }
    }

    /// The same measurement re-centred: the nominal value becomes the middle
    /// of the unsigned band and the tolerance keeps the band's width, split
    /// evenly on either side. Half of an odd number of millionths cannot be
    /// held, so the upper offset then takes the odd millionth.
    pub fn recenter_nom(&self) -> (r: Basic)
        requires
            self.wf(),
        ensures
            r.nom.x == self.spec_median(),
            r.tol.width() == self.tol.width(),
            r.tol.lower == -floor_div(self.tol.width(), 2),
            0 <= r.tol.upper + r.tol.lower <= 1,
            r.a == self.a,
            r.name == self.name,
            r.desc == self.desc,
    {
        let median = self.median();
        let t = self.tol.t();
        let half = halve(t as i128) as i64;
        Basic::new(
            Vec1D::new(median),
            Bilateral { upper: t - half, lower: -half },
            self.a,
            self.name.clone(),
            self.desc.clone(),
        )
    }
}


/// Is every measurement of the sequence well formed?
pub open spec fn all_wf(dims: Seq<Basic>) -> bool {
    forall|i: int| 0 <= i < dims.len() ==> (#[trigger] dims[i]).wf()
}

/// A named, ordered stack of measurements.
pub struct Stack {
    pub name: String,
    pub description: String,
    pub dims: Vec<Basic>,
}

impl Stack {
    /// Is every measurement well formed?
    pub open spec fn wf(&self) -> bool {
        all_wf(self.dims@)
    }

    pub fn new(name: String, description: String, dims: Vec<Basic>) -> (r: Stack)
        ensures
            r.name == name,
            r.description == description,
            r.dims@ == dims@,
    {
        Stack { name, description, dims }
    }

    /// Adds a measurement at the end of the stack.
    pub fn append(&mut self, measurement: Basic)
        ensures
            final(self).dims@ == old(self).dims@.push(measurement),
            final(self).name == old(self).name,
            final(self).description == old(self).description,
    {
        self.dims.push(measurement);
    }

    /// The stack of the measurements of a reviewed stack, in the same order.
    pub fn from_reviewed(reviewed_stack: &ReviewedStack) -> (r: Stack)
        ensures
            r.name == reviewed_stack.name,
            r.description == reviewed_stack.description,
            r.dims@ == reviewed_stack.dims@.map_values(|d: Reviewed| d.dim),
    {
        let mut dims: Vec<Basic> = Vec::new();
        let mut i: usize = 0;
        while i < reviewed_stack.dims.len()
            invariant
                i <= reviewed_stack.dims@.len(),
                dims@ =~= reviewed_stack.dims@.take(i as int).map_values(|d: Reviewed| d.dim),
            decreases reviewed_stack.dims.len() - i,
        {
            let d = &reviewed_stack.dims[i].dim;
            dims.push(
                Basic {
                    nom: d.nom,
                    tol: d.tol,
                    a: d.a,
                    name: d.name.clone(),
                    desc: d.desc.clone(),
                },
            );
            assert(reviewed_stack.dims@.take(i as int + 1) =~= reviewed_stack.dims@.take(
                i as int,
            ).push(reviewed_stack.dims@[i as int]));
            i = i + 1;
        }
        assert(reviewed_stack.dims@.take(i as int) =~= reviewed_stack.dims@);
        Stack {
            name: reviewed_stack.name.clone(),
            description: reviewed_stack.description.clone(),
            dims,
        }
    }
}

/// Does `d` hold a normal distribution with this mean and spread?
pub open spec fn has_normal(d: Option<Distribution>, mean: int, std_dev: int) -> bool {
    match d {
        Some(Distribution::Normal(n)) => n.mean == mean && n.std_dev == std_dev,
        _ => false,
    }
}

/// A measurement with the distribution that its manufacturing process is
/// assumed, or was found, to follow.
#[derive(Clone, Debug)]
pub struct Reviewed {
    pub dim: Basic,
    /// How many standard deviations of the process fit between the middle
    /// and either edge of the band (one is `SCALE`).
    pub target_process_sigma: i64,
    pub distribution: Option<Distribution>,
}

impl Reviewed {
    /// Are the measurement, the target sigma and the distribution's
    /// parameters within the magnitude bound?
    pub open spec fn wf(self) -> bool {
        &&& self.dim.wf()
        &&& in_limit(self.target_process_sigma as int)
        &&& match self.distribution {
            Some(Distribution::Normal(n)) => in_limit(n.mean as int) && in_limit(n.std_dev as int),
            Some(Distribution::Uniform(u)) => u.wf(),
            None => true,
        }
    }

    /// The middle of the signed band.
    pub open spec fn spec_mean_eff(self) -> int {
        self.dim.spec_absolute_median()
    }

    /// The spread of a normal distribution that reaches either edge of the
    /// band at `target_process_sigma` standard deviations.
    pub open spec fn spec_assumed_std_dev(self) -> int {
        floor_div(
            (self.dim.spec_absolute_upper() - self.dim.spec_absolute_lower()) * SCALE,
            2 * self.target_process_sigma,
        )
    }

    /// The mean of the assumed normal distribution moved by `skew` times its
    /// reach, `std_dev * target_process_sigma`.
    pub open spec fn spec_skewed_mean(self, skew: int) -> int {
        self.spec_mean_eff() + floor_div(
            skew * floor_div(
                self.spec_assumed_std_dev() * self.target_process_sigma,
                SCALE as int,
            ),
            SCALE as int,
        )
    }

    /// The smaller distance from the mean of `n` to an edge of the signed
    /// band.
    pub open spec fn spec_outer_shift(self, n: Normal) -> int {
        let up = self.dim.spec_absolute_upper() - n.mean;
        let down = n.mean - self.dim.spec_absolute_lower();
        if up <= down { up } else { down }
    }

    /// Can the capability indices divide by the spread: a normal
    /// distribution has a nonzero standard deviation?
    pub open spec fn spread_defined(self) -> bool {
        match self.distribution {
            Some(Distribution::Normal(n)) => n.std_dev != 0,
            _ => true,
        }
    }

    /// Can the effective metrics divide by the outer shift: the mean of a
    /// normal distribution is away from the edges of the signed band?
    pub open spec fn shift_defined(self) -> bool {
        match self.distribution {
            Some(Distribution::Normal(n)) => self.spec_outer_shift(n) != 0,
            _ => true,
        }
    }

    /// The standard deviation that the distribution implies for the
    /// authored band: `t * std_dev / (2 * outer_shift)`; 0 unless normal.
    pub open spec fn spec_std_dev_eff(self) -> int {
        match self.distribution {
            Some(Distribution::Normal(n)) => floor_div(
                self.dim.tol.width() * n.std_dev,
                2 * self.spec_outer_shift(n),
            ),
            _ => 0,
        }
    }

    /// The smaller distance from the middle of the signed band to an edge.
    pub open spec fn spec_min_tol_gap(self) -> int {
        let up = self.dim.spec_absolute_upper() - self.spec_mean_eff();
        let down = self.spec_mean_eff() - self.dim.spec_absolute_lower();
        if up <= down { up } else { down }
    }

    /// How many effective standard deviations fit between the middle of the
    /// band and its nearer edge; 0 when the effective spread is 0.
    pub open spec fn spec_process_sigma_eff(self) -> int {
        let sde = self.spec_std_dev_eff();
        if sde == 0 {
            0
        } else {
            floor_div(self.spec_min_tol_gap() * SCALE, sde)
        }
    }

    /// The centring ratio `t / (2 * outer_shift)`; 0 unless normal.
    pub open spec fn spec_k(self) -> int {
        match self.distribution {
            Some(Distribution::Normal(n)) => floor_div(
                self.dim.tol.width() * SCALE,
                2 * self.spec_outer_shift(n),
            ),
            _ => 0,
        }
    }

    /// A reviewed measurement. Without a distribution, a normal one is
    /// assumed (see [`Reviewed::assume_normal_dist`]).
    pub fn new(dim: Basic, target_process_sigma: i64, distribution: Option<Distribution>) -> (r:
        Reviewed)
        requires
            distribution is None ==> dim.wf() && target_process_sigma != 0,
        ensures
            r.dim == dim,
            r.target_process_sigma == target_process_sigma,
            distribution is Some ==> r.distribution == distribution,
            distribution is None ==> has_normal(
                r.distribution,
                r.spec_mean_eff(),
                r.spec_assumed_std_dev(),
            ),
    {
        let ret = Reviewed { dim, target_process_sigma, distribution };
        if ret.distribution.is_none() {
            ret.assume_normal_dist()
        } else {
            ret
        }
    }

    /// A reviewed measurement with an assumed normal distribution.
    pub fn of_basic(basic: Basic, target_process_sigma: i64) -> (r: Reviewed)
        requires
            basic.wf(),
            target_process_sigma != 0,
        ensures
            r.dim == basic,
            r.target_process_sigma == target_process_sigma,
            has_normal(r.distribution, r.spec_mean_eff(), r.spec_assumed_std_dev()),
    {
        Reviewed::new(basic, target_process_sigma, None)
    }

    /// The same measurement with a normal distribution centred on the signed
    /// band and reaching either edge at `target_process_sigma` standard
    /// deviations.
    pub fn assume_normal_dist(self) -> (r: Reviewed)
        requires
            self.dim.wf(),
            self.target_process_sigma != 0,
        ensures
            r.dim == self.dim,
            r.target_process_sigma == self.target_process_sigma,
            has_normal(r.distribution, self.spec_mean_eff(), self.spec_assumed_std_dev()),
    {
        let mean = self.mean_eff();
        let width: i128 = self.dim.absolute_upper() as i128 - self.dim.absolute_lower() as i128;
        let num = times_scale(width);
        let sd = div_floor(num, 2 * self.target_process_sigma as i128);
        proof {
            lemma_floor_div_bound(num as int, 2 * self.target_process_sigma, 4 * LIMIT * SCALE);
        }
        let distribution = Normal::new(mean, sd as i64);
        Reviewed {
            dim: self.dim,
            target_process_sigma: self.target_process_sigma,
            distribution: Some(Distribution::Normal(distribution)),
        }
    }

    /// The same measurement with an assumed normal distribution whose mean
    /// is moved off the middle of the band by `skew` times its reach, as for
    /// an off-centre process. The spread stays that of the centred one.
    pub fn assume_normal_dist_skewed(self, skew: i64) -> (r: Reviewed)
        requires
            self.dim.wf(),
            self.target_process_sigma != 0,
            in_limit(self.target_process_sigma as int),
            in_limit(skew as int),
            i64::MIN <= self.spec_skewed_mean(skew as int) <= i64::MAX,
        ensures
            r.dim == self.dim,
            r.target_process_sigma == self.target_process_sigma,
            has_normal(
                r.distribution,
                self.spec_skewed_mean(skew as int),
                self.spec_assumed_std_dev(),
            ),
    {
        let reviewed = self.assume_normal_dist();
        match reviewed.distribution {
            Some(Distribution::Normal(normal)) => {
                let tps = reviewed.target_process_sigma;
                proof {
                    lemma_mul_bound(normal.std_dev as int, tps as int, 10 * PRODUCT_LIMIT, LIMIT as int);
                }
                let reach_raw: i128 = normal.std_dev as i128 * tps as i128;
                let reach = div_floor(reach_raw, SCALE as i128);
                proof {
                    lemma_descale_bound(reach_raw as int, 10 * PRODUCT_LIMIT * LIMIT / (SCALE as int));
                    lemma_mul_bound(skew as int, reach as int, LIMIT as int, 10 * PRODUCT_LIMIT * LIMIT / (SCALE as int));
                }
                let shift = div_floor(skew as i128 * reach, SCALE as i128);
                let mean = normal.mean as i128 + shift;
                let distribution = Normal::new(mean as i64, normal.std_dev);
                Reviewed {
                    dim: reviewed.dim,
                    target_process_sigma: tps,
                    distribution: Some(Distribution::Normal(distribution)),
                }
            },
            _ => reviewed,
        }
    }

    /// Process capability index of the unsigned band; 0 unless the
    /// distribution is normal.
    pub fn c_p(&self) -> (r: i64)
        requires
            self.wf(),
            self.spread_defined(),
        ensures
            r == match self.distribution {
                Some(Distribution::Normal(n)) => stats::c_p_of(
                    self.dim.spec_upper(),
                    self.dim.spec_lower(),
                    n.std_dev as int,
                ),
                _ => 0,
            },
    {
        match &self.distribution {
            Some(Distribution::Normal(normal)) => stats::c_p(
                self.dim.upper(),
                self.dim.lower(),
                normal.std_dev,
            ),
            _ => 0,
        }
    }

    /// Process capability index adjusted for centring; 0 unless the
    /// distribution is normal.
    pub fn c_pk(&self) -> (r: i64)
        requires
            self.wf(),
            self.spread_defined(),
        ensures
            r == match self.distribution {
                Some(Distribution::Normal(n)) => stats::c_pk_of(
                    self.dim.spec_upper(),
                    self.dim.spec_lower(),
                    n.mean as int,
                    n.std_dev as int,
                ),
                _ => 0,
            },
    {
        match &self.distribution {
            Some(Distribution::Normal(normal)) => stats::c_pk(
                self.dim.upper(),
                self.dim.lower(),
                normal.mean,
                normal.std_dev,
            ),
            _ => 0,
        }
    }

    /// The middle of the signed band.
    pub fn mean_eff(&self) -> (r: i64)
        requires
            self.dim.wf(),
        ensures
            r == self.spec_mean_eff(),
            -2 * LIMIT <= r <= 2 * LIMIT,
    {
        self.dim.absolute_median()
    }

    /// The smaller distance from the distribution's mean to an edge of the
    /// signed band.
    fn outer_shift(&self, normal: &Normal) -> (r: i128)
        requires
            self.wf(),
            in_limit(normal.mean as int),
        ensures
            r == self.spec_outer_shift(*normal),
            -3 * LIMIT <= r <= 3 * LIMIT,
    {
        let up = self.dim.absolute_upper() as i128 - normal.mean as i128;
        let down = normal.mean as i128 - self.dim.absolute_lower() as i128;
        if up <= down {
            up
        } else {
            down
        }
    }

    /// The effective standard deviation: the spread that the distribution
    /// implies relative to the authored band; 0 unless normal.
    pub fn std_dev_eff(&self) -> (r: i64)
        requires
            self.wf(),
            self.shift_defined(),
            i64::MIN <= self.spec_std_dev_eff() <= i64::MAX,
        ensures
            r == self.spec_std_dev_eff(),
    {
        match &self.distribution {
            Some(Distribution::Normal(normal)) => {
                let outer_shift = self.outer_shift(normal);
                let t = self.dim.tol.t();
                proof {
                    lemma_mul_bound(t as int, normal.std_dev as int, 2 * LIMIT, LIMIT as int);
                }
                div_floor(t as i128 * normal.std_dev as i128, 2 * outer_shift) as i64
            },
            _ => 0,
        }
    }

    /// How many effective standard deviations fit between the middle of the
    /// signed band and its nearer edge; 0 when the effective spread is 0.
    pub fn process_sigma_eff(&self) -> (r: i64)
        requires
            self.wf(),
            self.shift_defined(),
            i64::MIN <= self.spec_std_dev_eff() <= i64::MAX,
        ensures
            r == self.spec_process_sigma_eff(),
    {
        let sde = self.std_dev_eff();
        if sde == 0 {
            return 0;
        }
        let mean = self.mean_eff() as i128;
        let up = self.dim.absolute_upper() as i128 - mean;
        let down = mean - self.dim.absolute_lower() as i128;
        let gap = if up <= down { up } else { down };
        let num = times_scale(gap);
        proof {
            lemma_floor_div_bound(num as int, sde as int, 4 * LIMIT * SCALE);
        }
        div_floor(num, sde as i128) as i64
    }

    /// The centring ratio `t / (2 * outer_shift)`; 0 unless normal.
    pub fn k(&self) -> (r: i64)
        requires
            self.wf(),
            self.shift_defined(),
        ensures
            r == self.spec_k(),
    {
        match &self.distribution {
            Some(Distribution::Normal(normal)) => {
                let outer_shift = self.outer_shift(normal);
                let num = times_scale(self.dim.tol.t() as i128);
                proof {
                    lemma_floor_div_bound(num as int, 2 * outer_shift, 2 * LIMIT * SCALE);
                }
                div_floor(num, 2 * outer_shift) as i64
            },
            _ => 0,
        }
    }

    /// The probability that a part falls within the signed band, given the
    /// normal distribution's cumulative probabilities at its lower and upper
    /// edge; 0 unless the distribution is normal.
    pub fn yield_probability(&self, cdf_lower: i64, cdf_upper: i64) -> (r: i64)
        requires
            0 <= cdf_lower <= SCALE,
            0 <= cdf_upper <= SCALE,
        ensures
            r == match self.distribution {
                Some(Distribution::Normal(_)) => cdf_upper - cdf_lower,
                _ => 0,
            },
    {
        match &self.distribution {
            Some(Distribution::Normal(_)) => cdf_upper - cdf_lower,
            _ => 0,
        }
    }

    /// The probability that a part falls outside the signed band, with the
    /// cumulative probabilities as for [`Reviewed::yield_probability`]; 0
    /// without a distribution.
    pub fn yield_loss_probability(&self, cdf_lower: i64, cdf_upper: i64) -> (r: i64)
        requires
            0 <= cdf_lower <= SCALE,
            0 <= cdf_upper <= SCALE,
        ensures
            r == match self.distribution {
                Some(Distribution::Normal(_)) => SCALE - (cdf_upper - cdf_lower),
                Some(Distribution::Uniform(_)) => SCALE as int,
                None => 0,
            },
    {
        if self.distribution.is_none() {
            return 0;
        }
        SCALE - self.yield_probability(cdf_lower, cdf_upper)
    }
}

/// A named, ordered stack of reviewed measurements.
pub struct ReviewedStack {
    pub name: String,
    pub description: String,
    pub dims: Vec<Reviewed>,
}

impl ReviewedStack {
    pub fn new(name: String, description: String, dims: Vec<Reviewed>) -> (r: ReviewedStack)
        ensures
            r.name == name,
            r.description == description,
            r.dims@ == dims@,
    {
        ReviewedStack { name, description, dims }
    }

    /// Adds a reviewed measurement at the end of the stack.
    pub fn append(&mut self, measurement: Reviewed)
        ensures
            final(self).dims@ == old(self).dims@.push(measurement),
            final(self).name == old(self).name,
            final(self).description == old(self).description,
    {
        self.dims.push(measurement);
    }
}

/// A specification limit check: the limits `ll..ul` that parts drawn from a
/// distribution must meet.
pub struct Requirement {
    pub name: String,
    pub description: String,
    pub distribution: Distribution,
    pub ll: i64,
    pub ul: i64,
}

impl Requirement {
    /// Are the limits within the magnitude bound, and a uniform distribution
    /// well formed?
    pub open spec fn wf(&self) -> bool {
        &&& in_limit(self.ll as int)
        &&& in_limit(self.ul as int)
        &&& match self.distribution {
            Distribution::Uniform(u) => u.wf(),
            Distribution::Normal(_) => true,
        }
    }

    /// The probability between the limits: for a uniform distribution its
    /// own cumulative probabilities, for a normal one those given.
    pub open spec fn spec_yield_probability(&self, cdf_ll: int, cdf_ul: int) -> int {
        match self.distribution {
            Distribution::Uniform(u) => u.cdf_at(self.ul as int) - u.cdf_at(self.ll as int),
            Distribution::Normal(_) => cdf_ul - cdf_ll,
        }
    }

    pub fn new(
        name: String,
        description: String,
        distribution: Distribution,
        ll: i64,
        ul: i64,
    ) -> (r: Requirement)
        ensures
            r == (Requirement { name, description, distribution, ll, ul }),
    {
        Requirement { name, description, distribution, ll, ul }
    }

    /// The middle of the limits.
    pub fn median(&self) -> (r: i64)
        requires
            self.wf(),
        ensures
            r == floor_div(self.ll + self.ul, 2),
    {
        halve(self.ll as i128 + self.ul as i128) as i64
    }

    /// The probability that a part meets the limits. A uniform distribution
    /// is evaluated here; for a normal one, `cdf_ll` and `cdf_ul` are its
    /// cumulative probabilities at the lower and the upper limit.
    pub fn yield_probability(&self, cdf_ll: i64, cdf_ul: i64) -> (r: i64)
        requires
            self.wf(),
            0 <= cdf_ll <= SCALE,
            0 <= cdf_ul <= SCALE,
        ensures
            r == self.spec_yield_probability(cdf_ll as int, cdf_ul as int),
            -SCALE <= r <= SCALE,
    {
        match &self.distribution {
            Distribution::Uniform(uniform) => uniform.cdf(self.ul) - uniform.cdf(self.ll),
            Distribution::Normal(_) => cdf_ul - cdf_ll,
        }
    }

    /// The probability that a part misses the limits.
    pub fn yield_loss_probability(&self, cdf_ll: i64, cdf_ul: i64) -> (r: i64)
        requires
            self.wf(),
            0 <= cdf_ll <= SCALE,
            0 <= cdf_ul <= SCALE,
        ensures
            r == SCALE - self.spec_yield_probability(cdf_ll as int, cdf_ul as int),
            0 <= r <= 2 * SCALE,
    {
        SCALE - self.yield_probability(cdf_ll, cdf_ul)
    }

    /// The reject rate in parts per million (one part per million is
    /// `SCALE`).
    pub fn r(&self, cdf_ll: i64, cdf_ul: i64) -> (r: i64)
        requires
            self.wf(),
            0 <= cdf_ll <= SCALE,
            0 <= cdf_ul <= SCALE,
        ensures
            r == (SCALE - self.spec_yield_probability(cdf_ll as int, cdf_ul as int)) * 1_000_000,
    {
        self.yield_loss_probability(cdf_ll, cdf_ul) * 1_000_000
    }
}

} // verus!
