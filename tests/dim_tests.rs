use dimstack::dim::{Basic, Direction, Requirement, Reviewed, ReviewedStack, Stack, Vec1D};
use dimstack::dist::{Distribution, Normal, Uniform};
use dimstack::fixed::SCALE;
use dimstack::tol::Bilateral;

/// A value in units, as millionths.
fn units(x: f64) -> i64 {
    (x * SCALE as f64).round() as i64
}

fn basic(nom: f64, tol: Bilateral, name: &str) -> Basic {
    Basic::new(Vec1D::new(units(nom)), tol, SCALE, name.to_owned(), "".to_owned())
}

#[test]
fn test_positive_unequal_bilateral() {
    let t = Bilateral::unequal(units(0.005), units(-0.004));
    assert_eq!(t.upper, units(0.005));
    assert_eq!(t.lower, units(-0.004));
    let d = Basic {
        nom: Vec1D::new(units(1.0)),
        tol: t,
        a: 0,
        name: "a".to_string(),
        desc: "".to_string(),
    };
    assert_eq!(d.absolute_upper(), units(1.005));
    assert_eq!(d.absolute_lower(), units(0.996));
}

#[test]
fn test_negative_unequal_bilateral() {
    let t = Bilateral::unequal(units(0.005), units(-0.004));
    assert_eq!(t.upper, units(0.005));
    assert_eq!(t.lower, units(-0.004));
    let d = Basic {
        nom: Vec1D::new(units(-1.0)),
        tol: t,
        a: 0,
        name: "a".to_string(),
        desc: "".to_string(),
    };
    assert_eq!(d.nom.x.abs(), units(1.0));
    assert_eq!(d.nom.x, units(-1.0));

    assert_eq!(d.absolute_upper_tol(), units(0.004));
    assert_eq!(d.absolute_lower_tol(), units(-0.005));

    assert_eq!(d.absolute_upper(), units(-0.996));
    assert_eq!(d.absolute_lower(), units(-1.005));
}

#[test]
fn zero_nominal_flips_offsets() {
    let d = basic(0.0, Bilateral::unequal(units(0.2), units(-0.1)), "z");
    assert_eq!(d.absolute_upper_tol(), units(0.1));
    assert_eq!(d.absolute_lower_tol(), units(-0.2));
}

#[test]
fn unsigned_band_and_adjusted_values() {
    let mut d = basic(-2.0, Bilateral::unequal(units(0.3), units(-0.1)), "d");
    d.a = units(2.0);
    assert_eq!(d.lower(), units(1.9));
    assert_eq!(d.upper(), units(2.3));
    assert_eq!(d.median(), units(2.1));
    assert_eq!(d.absolute_nominal_adj(), units(-4.0));
    // signed band -2.3 ..= -1.9
    assert_eq!(d.absolute_median(), units(-2.1));
    assert_eq!(d.absolute_median_adj(), units(-4.2));
}

#[test]
fn recenter_keeps_width_around_median() {
    let d = basic(10.0, Bilateral::unequal(units(0.3), units(-0.1)), "r");
    let r = d.recenter_nom();
    assert_eq!(r.nom.x, d.median());
    assert_eq!(r.nom.x, units(10.1));
    assert_eq!(r.tol.t(), d.tol.t());
    assert_eq!(r.tol.upper, units(0.2));
    assert_eq!(r.tol.lower, units(-0.2));
    assert_eq!(r.name, "r");

    // an odd number of millionths keeps its width; the upper offset takes
    // the odd one
    let odd = basic(1.0, Bilateral::unequal(3, 0), "o");
    let r = odd.recenter_nom();
    assert_eq!(r.tol.t(), 3);
    assert_eq!((r.tol.upper, r.tol.lower), (2, -1));
    let one = basic(1.0, Bilateral::unequal(1, 0), "p");
    assert_eq!(one.recenter_nom().tol.t(), 1);
}

#[test]
fn direction_signs() {
    assert_eq!(Direction::from(units(0.5)), Direction::Positive);
    assert_eq!(Direction::from(0), Direction::Negative);
    assert_eq!(Direction::from(units(-3.0)), Direction::Negative);
    assert_eq!(Direction::Positive.signum(), SCALE);
    assert_eq!(Direction::Negative.signum(), -SCALE);
}

#[test]
fn stacks_append_and_convert() {
    let mut stack = Stack::new("s".to_owned(), "desc".to_owned(), vec![]);
    stack.append(basic(1.0, Bilateral::symmetric(units(0.1)), "a"));
    stack.append(basic(-2.0, Bilateral::symmetric(units(0.2)), "b"));
    assert_eq!(stack.dims.len(), 2);
    assert_eq!(stack.dims[1].name, "b");

    let mut reviewed = ReviewedStack::new("rs".to_owned(), "d".to_owned(), vec![]);
    reviewed.append(Reviewed::of_basic(basic(5.0, Bilateral::symmetric(units(0.3)), "x"), units(3.0)));
    reviewed.append(Reviewed::of_basic(basic(-1.0, Bilateral::symmetric(units(0.6)), "y"), units(3.0)));
    let plain = Stack::from_reviewed(&reviewed);
    assert_eq!(plain.name, "rs");
    assert_eq!(plain.description, "d");
    assert_eq!(plain.dims.len(), 2);
    assert_eq!(plain.dims[0].nom.x, units(5.0));
    assert_eq!(plain.dims[1].name, "y");
}

#[test]
fn assumed_normal_distribution() {
    let b = basic(10.0, Bilateral::unequal(units(0.4), units(-0.2)), "n");
    let r = Reviewed::new(b.clone(), units(3.0), None);
    match r.distribution {
        Some(Distribution::Normal(n)) => {
            assert_eq!(n.mean, units(10.1));
            assert_eq!(n.std_dev, units(0.1));
        }
        _ => panic!("Expected Normal distribution"),
    }
    assert_eq!(r.mean_eff(), units(10.1));
    assert_eq!(r.std_dev_eff(), units(0.1));
    assert_eq!(r.process_sigma_eff(), units(3.0));

    let given = Reviewed::new(b, units(3.0), Some(Distribution::Uniform(Uniform::new(0, 1))));
    assert!(matches!(given.distribution, Some(Distribution::Uniform(_))));
    assert_eq!(given.c_p(), 0);
    assert_eq!(given.c_pk(), 0);
    assert_eq!(given.k(), 0);
    assert_eq!(given.std_dev_eff(), 0);
    assert_eq!(given.process_sigma_eff(), 0);
    assert_eq!(given.yield_probability(0, SCALE), 0);
    assert_eq!(given.yield_loss_probability(0, SCALE), SCALE);
}

#[test]
fn reviewed_k_follows_band_ratio() {
    let b = basic(208.0, Bilateral::symmetric(units(0.036)), "a");
    let r = Reviewed::of_basic(b, units(6.0)).assume_normal_dist_skewed(units(0.25));
    // t / (2 * outer_shift) == 0.072 / 0.054
    assert_eq!(r.k(), 1_333_333);
    let centred = Reviewed::of_basic(basic(1.0, Bilateral::symmetric(units(0.1)), "c"), units(3.0));
    assert_eq!(centred.k(), units(1.0));
}

#[test]
fn requirement_on_uniform_distribution() {
    let req = Requirement::new(
        "spec".to_owned(),
        "".to_owned(),
        Distribution::Uniform(Uniform::new(units(0.0), units(1.0))),
        units(0.25),
        units(0.75),
    );
    assert_eq!(req.median(), units(0.5));
    assert_eq!(req.yield_probability(0, 0), units(0.5));
    assert_eq!(req.yield_loss_probability(0, 0), units(0.5));
    assert_eq!(req.r(0, 0), units(500_000.0));
}

#[test]
fn requirement_on_normal_distribution() {
    let req = Requirement::new(
        "spec".to_owned(),
        "".to_owned(),
        Distribution::Normal(Normal::new(0, units(1.0))),
        units(-1.0),
        units(1.0),
    );
    // cumulative probabilities at the limits as given
    assert_eq!(req.yield_probability(158_655, 841_345), 682_690);
    assert_eq!(req.r(158_655, 841_345), 317_310 * 1_000_000);
}

#[test]
fn zero_spread_normal_has_no_effective_spread() {
    let b = basic(1.0, Bilateral::symmetric(units(0.1)), "z");
    let r = Reviewed::new(b, units(3.0), Some(Distribution::Normal(Normal::new(units(1.0), 0))));
    assert_eq!(r.std_dev_eff(), 0);
    assert_eq!(r.process_sigma_eff(), 0);
    // t / (2 * outer_shift) == 0.2 / 0.2
    assert_eq!(r.k(), units(1.0));
}

#[test]
fn c_pk_with_mean_on_band_edge() {
    let b = basic(1.0, Bilateral::symmetric(units(0.1)), "e");
    let r = Reviewed::new(b, units(3.0), Some(Distribution::Normal(Normal::new(units(1.1), units(0.1)))));
    assert_eq!(r.c_pk(), 0);
    // (1.1 - 0.9) / (6 * 0.1)
    assert_eq!(r.c_p(), 333_333);
}
