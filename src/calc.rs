//! The stack-up analyses: closed, worst case, root sum square, modified root
//! sum square and six sigma.
use vstd::prelude::*;
use vstd::string::StringExecFns;
use crate::dim::{all_wf, has_normal, Basic, Reviewed, ReviewedStack, Stack, Vec1D};
use crate::dist::{Distribution, Normal};
use crate::fixed::{
    div_floor, floor_div, in_limit, is_root, lemma_descale_bound, lemma_div_shrinks, lemma_mul_bound,
    lemma_sum_of_take, sum_of, LIMIT, PRODUCT_LIMIT, SCALE,
};
use crate::stats;
use crate::tol::Bilateral;

verus! {

/// The nominal value scaled by the sensitivity.
pub open spec fn nominal_adj_fn() -> spec_fn(Basic) -> int {
    |d: Basic| d.spec_absolute_nominal_adj()
}

/// The physical upper offset.
pub open spec fn upper_tol_fn() -> spec_fn(Basic) -> int {
    |d: Basic| d.spec_absolute_upper_tol()
}

/// The physical lower offset.
pub open spec fn lower_tol_fn() -> spec_fn(Basic) -> int {
    |d: Basic| d.spec_absolute_lower_tol()
}

/// The middle of the signed band scaled by the sensitivity.
pub open spec fn median_adj_fn() -> spec_fn(Basic) -> int {
    |d: Basic| d.spec_absolute_median_adj()
}

/// Half the band's width scaled by the sensitivity, `t / 2 * a`.
pub open spec fn half_band_adj(d: Basic) -> int {
    floor_div(d.tol.width() * d.a, 2 * SCALE)
}

/// The worst-case contribution of a measurement, `|t / 2 * a|`.
pub open spec fn wc_term_fn() -> spec_fn(Basic) -> int {
    |d: Basic| if half_band_adj(d) >= 0 { half_band_adj(d) } else { -half_band_adj(d) }
}

/// The root-sum-square contribution of a measurement,
/// `sign(nom) * a * t / 2`; nothing for a zero nominal value.
pub open spec fn rss_term(d: Basic) -> int {
    if d.nom.x > 0 {
        half_band_adj(d)
    } else if d.nom.x < 0 {
        -half_band_adj(d)
    } else {
        0
    }
}

/// The root-sum-square contributions of the measurements, in order.
pub open spec fn rss_terms(dims: Seq<Basic>) -> Seq<i64> {
    dims.map_values(|d: Basic| rss_term(d) as i64)
}

/// The nominal value of a closed stack: the sum of the scaled nominal values.
pub open spec fn closed_nominal(dims: Seq<Basic>) -> int {
    sum_of(dims, nominal_adj_fn())
}

/// The tolerance offsets of a closed stack before ordering: the summed
/// physical offsets, negated and swapped when the stack runs negative.
pub open spec fn closed_offsets(dims: Seq<Basic>) -> (int, int) {
    if closed_nominal(dims) < 0 {
        (-sum_of(dims, lower_tol_fn()), -sum_of(dims, upper_tol_fn()))
    } else {
        (sum_of(dims, upper_tol_fn()), sum_of(dims, lower_tol_fn()))
    }
}

/// The sum of the scaled middles of the signed bands.
pub open spec fn median_sum(dims: Seq<Basic>) -> int {
    sum_of(dims, median_adj_fn())
}

/// The worst-case half tolerance: the sum of `|t / 2 * a|`.
pub open spec fn wc_half(dims: Seq<Basic>) -> int {
    sum_of(dims, wc_term_fn())
}

/// The root-sum-square half tolerance.
pub open spec fn rss_half(dims: Seq<Basic>) -> int {
    stats::rss_of(rss_terms(dims))
}

/// The modified root-sum-square half tolerance: the root-sum-square one
/// scaled by the correction factor.
pub open spec fn mrss_half(dims: Seq<Basic>) -> int {
    floor_div(
        stats::c_f_of(rss_half(dims), wc_half(dims), dims.len() as int) * rss_half(dims),
        SCALE as int,
    )
}

/// `t / 2 * a` of one measurement.
fn half_band(d: &Basic) -> (r: i64)
    requires
        d.wf(),
    ensures
        r == half_band_adj(*d),
        -PRODUCT_LIMIT <= r <= PRODUCT_LIMIT,
{
    let t = d.tol.t();
    proof {
        lemma_mul_bound(t as int, d.a as int, 2 * LIMIT, LIMIT as int);
        lemma_div_shrinks(t * d.a, 2 * SCALE, PRODUCT_LIMIT as int);
    }
    div_floor(t as i128 * d.a as i128, 2 * SCALE as i128) as i64
}

/// A per-measurement quantity that the analyses sum.
#[derive(Clone, Copy)]
enum Term {
    NominalAdj,
    UpperTol,
    LowerTol,
    MedianAdj,
    WcHalf,
}

/// The quantity that `k` selects.
spec fn term_fn(k: Term) -> spec_fn(Basic) -> int {
    match k {
        Term::NominalAdj => nominal_adj_fn(),
        Term::UpperTol => upper_tol_fn(),
        Term::LowerTol => lower_tol_fn(),
        Term::MedianAdj => median_adj_fn(),
        Term::WcHalf => wc_term_fn(),
    }
}

/// The quantity that `k` selects, of one measurement.
fn term(d: &Basic, k: Term) -> (r: i64)
    requires
        d.wf(),
    ensures
        r == (term_fn(k))(*d),
        -2 * PRODUCT_LIMIT <= r <= 2 * PRODUCT_LIMIT,
{
    match k {
        Term::NominalAdj => d.absolute_nominal_adj(),
        Term::UpperTol => d.absolute_upper_tol(),
        Term::LowerTol => d.absolute_lower_tol(),
        Term::MedianAdj => d.absolute_median_adj(),
        Term::WcHalf => {
            let h = half_band(d);
            if h >= 0 {
                h
            } else {
                -h
            }
        },
    }
}

/// The sum of the quantity that `k` selects over the measurements.
fn sum_terms(dims: &Vec<Basic>, k: Term) -> (r: i128)
    requires
        all_wf(dims@),
    ensures
        r == sum_of(dims@, term_fn(k)),
{
    let mut acc: i128 = 0;
    let mut i: usize = 0;
    while i < dims.len()
        invariant
            i <= dims@.len(),
            all_wf(dims@),
            acc == sum_of(dims@.take(i as int), term_fn(k)),
            -(i as int) * 2_000_000_000_000_000_000 <= acc <= (i as int) * 2_000_000_000_000_000_000,
        decreases dims.len() - i,
    {
        assert(dims@[i as int].wf());
        let t = term(&dims[i], k);
        proof {
            lemma_sum_of_take(dims@, term_fn(k), i as int);
        }
        acc = acc + t as i128;
        i = i + 1;
    }
    assert(dims@.take(i as int) =~= dims@);
    acc
}

/// The root-sum-square contributions of the measurements.
fn collect_rss_terms(dims: &Vec<Basic>) -> (r: Vec<i64>)
    requires
        all_wf(dims@),
    ensures
        r@ == rss_terms(dims@),
        forall|i: int| 0 <= i < r@.len() ==> -PRODUCT_LIMIT <= #[trigger] r@[i] <= PRODUCT_LIMIT,
{
    let mut terms: Vec<i64> = Vec::new();
    let mut i: usize = 0;
    while i < dims.len()
        invariant
            i <= dims@.len(),
            all_wf(dims@),
            terms@ =~= rss_terms(dims@.take(i as int)),
            forall|j: int| 0 <= j < terms@.len() ==> -PRODUCT_LIMIT <= #[trigger] terms@[j] <= PRODUCT_LIMIT,
        decreases dims.len() - i,
    {
        assert(dims@[i as int].wf());
        let d = &dims[i];
        let h = half_band(d);
        let t: i64 = if d.nom.x > 0 {
            h
        } else if d.nom.x < 0 {
            -h
        } else {
            0
        };
        terms.push(t);
        assert(dims@.take(i as int + 1) =~= dims@.take(i as int).push(dims@[i as int]));
        i = i + 1;
    }
    assert(dims@.take(i as int) =~= dims@);
    terms
}

/// The analysis's name for a stack.
fn analysis_name(stack_name: &String, method: &str) -> (r: String)
    ensures
        r@ == stack_name@ + method@,
{
    stack_name.clone().concat(method)
}

/// The closed analysis: the nominal value is the sum of the scaled nominal
/// values, the tolerance the sum of the physical offsets. A stack that
/// sums to a negative nominal value runs the other way, so its summed
/// offsets are negated and swap roles.
pub fn closed(stack: &Stack) -> (r: Basic)
    requires
        stack.wf(),
        in_limit(closed_nominal(stack.dims@)),
        in_limit(sum_of(stack.dims@, upper_tol_fn())),
        in_limit(sum_of(stack.dims@, lower_tol_fn())),
    ensures
        r.nom.x == closed_nominal(stack.dims@),
        r.tol.upper >= r.tol.lower,
        r.tol.upper == if closed_offsets(stack.dims@).0 < closed_offsets(stack.dims@).1 {
            closed_offsets(stack.dims@).1
        } else {
            closed_offsets(stack.dims@).0
        },
        r.tol.lower == if closed_offsets(stack.dims@).0 < closed_offsets(stack.dims@).1 {
            closed_offsets(stack.dims@).0
        } else {
            closed_offsets(stack.dims@).1
        },
        r.a == SCALE,
        r.name@ == stack.name@ + " - Closed Analysis"@,
        r.wf(),
{
    let nominal = sum_terms(&stack.dims, Term::NominalAdj) as i64;
    let upper = sum_terms(&stack.dims, Term::UpperTol) as i64;
    let lower = sum_terms(&stack.dims, Term::LowerTol) as i64;
    let tolerance = if nominal < 0 {
        Bilateral::unequal(-lower, -upper)
    } else {
        Bilateral::unequal(upper, lower)
    };
    Basic {
        nom: Vec1D::new(nominal),
        tol: tolerance,
        a: SCALE,
        name: analysis_name(&stack.name, " - Closed Analysis"),
        desc: String::new(),
    }
}

/// The worst-case analysis: the nominal value is the sum of the scaled
/// middles of the signed bands, the tolerance symmetric with the sum of the
/// scaled half bands on either side.
pub fn wc(stack: &Stack) -> (r: Basic)
    requires
        stack.wf(),
        in_limit(median_sum(stack.dims@)),
        in_limit(wc_half(stack.dims@)),
    ensures
        r.nom.x == median_sum(stack.dims@),
        r.tol.upper == wc_half(stack.dims@),
        r.tol.lower == -wc_half(stack.dims@),
        r.a == SCALE,
        r.name@ == stack.name@ + " - WC Analysis"@,
        r.wf(),
{
    let mean = sum_terms(&stack.dims, Term::MedianAdj) as i64;
    let t_wc = sum_terms(&stack.dims, Term::WcHalf) as i64;
    Basic {
        nom: Vec1D::new(mean),
        tol: Bilateral::symmetric(t_wc),
        a: SCALE,
        name: analysis_name(&stack.name, " - WC Analysis"),
        desc: String::new(),
    }
}

/// The root sum square of the contributions, with its bound.
fn rss_of_stack(dims: &Vec<Basic>) -> (r: i64)
    requires
        all_wf(dims@),
        stats::sum_squares(rss_terms(dims@)) <= LIMIT * LIMIT,
    ensures
        r == rss_half(dims@),
        is_root(r as int, stats::sum_squares(rss_terms(dims@))),
        0 <= r <= LIMIT,
{
    let terms = collect_rss_terms(dims);
    let t = stats::rss(&terms);
    proof {
        let s = stats::sum_squares(rss_terms(dims@));
        let ti = t as int;
        assert(ti <= LIMIT) by (nonlinear_arith)
            requires ti >= 0, ti * ti <= s, s <= LIMIT * LIMIT, LIMIT == 1_000_000_000_000;
    }
    t
}

/// The root-sum-square analysis: the nominal value as in the worst-case
/// analysis, the tolerance symmetric with the root sum square of the
/// contributions `sign(nom) * a * t / 2` on either side.
pub fn rss(stack: &Stack) -> (r: Basic)
    requires
        stack.wf(),
        in_limit(median_sum(stack.dims@)),
        stats::sum_squares(rss_terms(stack.dims@)) <= LIMIT * LIMIT,
    ensures
        r.nom.x == median_sum(stack.dims@),
        r.tol.upper == rss_half(stack.dims@),
        r.tol.lower == -rss_half(stack.dims@),
        is_root(rss_half(stack.dims@), stats::sum_squares(rss_terms(stack.dims@))),
        0 <= r.tol.upper <= LIMIT,
        r.a == SCALE,
        r.name@ == stack.name@ + " - RSS Analysis"@,
        r.wf(),
{
    let d_g = sum_terms(&stack.dims, Term::MedianAdj) as i64;
    let t_rss = rss_of_stack(&stack.dims);
    Basic {
        nom: Vec1D::new(d_g),
        tol: Bilateral::symmetric(t_rss),
        a: SCALE,
        name: analysis_name(&stack.name, " - RSS Analysis"),
        desc: String::from_str("(assuming inputs with Normal Dist. & uniform SD)"),
    }
}

/// The modified root-sum-square analysis: as the root-sum-square one, with
/// the half tolerance scaled by the correction factor for the number of
/// measurements.
pub fn mrss(stack: &Stack) -> (r: Basic)
    requires
        stack.wf(),
        stack.dims@.len() >= 2,
        in_limit(median_sum(stack.dims@)),
        in_limit(wc_half(stack.dims@)),
        stats::sum_squares(rss_terms(stack.dims@)) <= LIMIT * LIMIT,
        rss_half(stack.dims@) != 0,
        i64::MIN <= stats::c_f_of(
            rss_half(stack.dims@),
            wc_half(stack.dims@),
            stack.dims@.len() as int,
        ) <= i64::MAX,
        in_limit(mrss_half(stack.dims@)),
    ensures
        r.nom.x == median_sum(stack.dims@),
        r.tol.upper == mrss_half(stack.dims@),
        r.tol.lower == -mrss_half(stack.dims@),
        is_root(rss_half(stack.dims@), stats::sum_squares(rss_terms(stack.dims@))),
        r.a == SCALE,
        r.name@ == stack.name@ + " - MRSS Analysis"@,
        r.wf(),
{
    let d_g = sum_terms(&stack.dims, Term::MedianAdj) as i64;
    let t_wc = sum_terms(&stack.dims, Term::WcHalf) as i64;
    let t_rss = rss_of_stack(&stack.dims);
    let n = stack.dims.len() as u64;
    let c_f = stats::c_f(t_rss, t_wc, n);
    proof {
        lemma_mul_bound(c_f as int, t_rss as int, 0x8000_0000_0000_0000, LIMIT as int);
    }
    let t_mrss = div_floor(c_f as i128 * t_rss as i128, SCALE as i128) as i64;
    Basic {
        nom: Vec1D::new(d_g),
        tol: Bilateral::symmetric(t_mrss),
        a: SCALE,
        name: analysis_name(&stack.name, " - MRSS Analysis"),
        desc: String::from_str("(assuming inputs with Normal Dist. & uniform SD)"),
    }
}

/// The middle of a reviewed measurement's signed band scaled by its
/// sensitivity.
pub open spec fn reviewed_median_adj_fn() -> spec_fn(Reviewed) -> int {
    |r: Reviewed| r.dim.spec_absolute_median_adj()
}

/// The effective standard deviations of the reviewed measurements, in order.
pub open spec fn std_dev_effs(dims: Seq<Reviewed>) -> Seq<i64> {
    dims.map_values(|r: Reviewed| r.spec_std_dev_eff() as i64)
}

/// Can each reviewed measurement's effective standard deviation be taken,
/// and does it fit?
pub open spec fn all_std_dev_eff_defined(dims: Seq<Reviewed>) -> bool {
    forall|i: int|
        0 <= i < dims.len() ==> {
            &&& (#[trigger] dims[i]).wf()
            &&& dims[i].shift_defined()
            &&& i64::MIN <= dims[i].spec_std_dev_eff() <= i64::MAX
        }
}

/// The standard deviation of the assembly in the six-sigma analysis: the
/// root sum square of the effective standard deviations.
pub open spec fn six_sigma_std_dev(dims: Seq<Reviewed>) -> int {
    stats::rss_of(std_dev_effs(dims))
}

/// The six-sigma analysis at `at` standard deviations: the nominal value is
/// the sum of the scaled middles of the signed bands, the standard deviation
/// the root sum square of the effective ones, and the tolerance symmetric
/// with `at` standard deviations on either side. The result carries the
/// normal distribution with that mean and standard deviation.
pub fn six_sigma(stack: &ReviewedStack, at: i64) -> (r: Reviewed)
    requires
        all_std_dev_eff_defined(stack.dims@),
        in_limit(sum_of(stack.dims@, reviewed_median_adj_fn())),
        stats::sum_squares(std_dev_effs(stack.dims@)) <= LIMIT * LIMIT,
        in_limit(at as int),
    ensures
        r.dim.nom.x == sum_of(stack.dims@, reviewed_median_adj_fn()),
        r.dim.tol.upper == floor_div(six_sigma_std_dev(stack.dims@) * at, SCALE as int),
        r.dim.tol.lower == -floor_div(six_sigma_std_dev(stack.dims@) * at, SCALE as int),
        r.dim.a == SCALE,
        r.dim.name@ == stack.name@ + " - '6 Sigma' Analysis"@,
        r.target_process_sigma == at,
        is_root(six_sigma_std_dev(stack.dims@), stats::sum_squares(std_dev_effs(stack.dims@))),
        has_normal(
            r.distribution,
            sum_of(stack.dims@, reviewed_median_adj_fn()),
            six_sigma_std_dev(stack.dims@),
        ),
{
    let mut mean: i128 = 0;
    let mut effs: Vec<i64> = Vec::new();
    let mut i: usize = 0;
    while i < stack.dims.len()
        invariant
            i <= stack.dims@.len(),
            all_std_dev_eff_defined(stack.dims@),
            mean == sum_of(stack.dims@.take(i as int), reviewed_median_adj_fn()),
            -(i as int) * 2_000_000_000_000_000_000 <= mean <= (i as int) * 2_000_000_000_000_000_000,
            effs@ =~= std_dev_effs(stack.dims@.take(i as int)),
        decreases stack.dims.len() - i,
    {
        assert(stack.dims@[i as int].wf());
        let rdim = &stack.dims[i];
        let t = rdim.dim.absolute_median_adj();
        effs.push(rdim.std_dev_eff());
        proof {
            lemma_sum_of_take(stack.dims@, reviewed_median_adj_fn(), i as int);
        }
        assert(stack.dims@.take(i as int + 1) =~= stack.dims@.take(i as int).push(
            stack.dims@[i as int],
        ));
        mean = mean + t as i128;
        i = i + 1;
    }
    assert(stack.dims@.take(i as int) =~= stack.dims@);
    let std_dev = stats::rss(&effs);
    proof {
        let s = stats::sum_squares(std_dev_effs(stack.dims@));
        let si = std_dev as int;
        assert(si <= LIMIT) by (nonlinear_arith)
            requires si >= 0, si * si <= s, s <= LIMIT * LIMIT, LIMIT == 1_000_000_000_000;
        lemma_mul_bound(si, at as int, LIMIT as int, LIMIT as int);
        lemma_descale_bound(si * at, PRODUCT_LIMIT as int);
    }
    let half = div_floor(std_dev as i128 * at as i128, SCALE as i128) as i64;
    let mean = mean as i64;
    Reviewed {
        dim: Basic {
            nom: Vec1D::new(mean),
            tol: Bilateral::symmetric(half),
            a: SCALE,
            name: analysis_name(&stack.name, " - '6 Sigma' Analysis"),
            desc: String::from_str("(assuming inputs with Normal Dist.)"),
        },
        target_process_sigma: at,
        distribution: Some(Distribution::Normal(Normal::new(mean, std_dev))),
    }
}

} // verus!
