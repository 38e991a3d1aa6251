use dimstack::dim::{Basic, Reviewed, Vec1D};
use dimstack::dist::{Distribution, Normal, Uniform};
use dimstack::fixed::SCALE;
use dimstack::tol::Bilateral;
use statrs::function::erf::erf;

/// A value in units, as millionths.
fn units(x: f64) -> i64 {
    (x * SCALE as f64).round() as i64
}

/// The normal cumulative probability at `x`, in millionths.
fn normal_cdf(n: &Normal, x: i64) -> i64 {
    let z = (x - n.mean) as f64 / (n.std_dev as f64 * 2f64.sqrt());
    (0.5 * (1.0 + erf(z)) * SCALE as f64).round() as i64
}

#[test]
fn test_dist_uniform() {
    let dist = Uniform::new(units(1.0), units(2.0));
    assert_eq!(dist.pdf(units(0.0)), 0);
    assert_eq!(dist.pdf(units(1.5)), units(1.0));
    assert_eq!(dist.pdf(units(2.5)), 0);
    assert_eq!(dist.cdf(units(0.0)), 0);
    assert_eq!(dist.cdf(units(1.5)), units(0.5));
    assert_eq!(dist.cdf(units(2.5)), units(1.0));
}

#[test]
fn uniform_density_of_a_wider_band() {
    let dist = Uniform::new(units(-2.0), units(2.0));
    assert_eq!(dist.pdf(units(0.0)), units(0.25));
    assert_eq!(dist.pdf(units(2.0)), units(0.25));
    assert_eq!(dist.cdf(units(-2.0)), 0);
    assert_eq!(dist.cdf(units(2.0)), SCALE);
    assert_eq!(dist.cdf(units(-1.0)), units(0.25));
}

#[test]
fn normal_variance_and_fit() {
    let n = Normal::new(units(1.0), units(0.5));
    assert_eq!(n.variance(), units(0.25));

    let fitted = Normal::fit(&vec![units(2.0), units(4.0), units(4.0), units(4.0), units(5.0), units(5.0), units(7.0), units(9.0)]);
    assert_eq!(fitted.mean, units(5.0));
    // population standard deviation: divisor 8, not 7
    assert_eq!(fitted.std_dev, units(2.0));

    let single = Normal::fit(&vec![units(3.25)]);
    assert_eq!(single.mean, units(3.25));
    assert_eq!(single.std_dev, 0);
}

#[test]
fn test_positive_dist() {
    let measurements = vec![units(1.1), units(0.9)];
    let measurements_dist = Normal::fit(&measurements);
    let tol = Bilateral::symmetric(units(0.3));
    let reviewed_dim = Reviewed {
        dim: Basic {
            nom: Vec1D::new(units(1.0)),
            tol,
            a: 0,
            name: "1".to_owned(),
            desc: "".to_owned(),
        },
        target_process_sigma: 0,
        distribution: Some(Distribution::Normal(measurements_dist)),
    };

    assert_eq!(reviewed_dim.dim.nom.x, units(1.0));
    assert_eq!(reviewed_dim.dim.absolute_lower(), units(0.7));
    assert_eq!(reviewed_dim.dim.absolute_upper(), units(1.3));

    let d = match reviewed_dim.distribution {
        Some(Distribution::Normal(ref d)) => *d,
        _ => panic!("Expected Normal distribution"),
    };
    assert_eq!(d.mean, units(1.0));

    let lo = normal_cdf(&d, reviewed_dim.dim.absolute_lower());
    let hi = normal_cdf(&d, reviewed_dim.dim.absolute_upper());
    let y = reviewed_dim.yield_probability(lo, hi);
    assert!((y - units(0.9973)).abs() < units(0.0001));
}

#[test]
fn test_negative_dist() {
    let measurements = vec![units(-1.1), units(-0.9)];
    let measurements_dist = Normal::fit(&measurements);
    let reviewed_dim = Reviewed {
        dim: Basic {
            nom: Vec1D::new(units(-1.0)),
            tol: Bilateral::symmetric(units(0.3)),
            a: units(1.0),
            name: "1".to_owned(),
            desc: "".to_owned(),
        },
        target_process_sigma: 0,
        distribution: Some(Distribution::Normal(measurements_dist)),
    };

    assert_eq!(reviewed_dim.dim.nom.x, units(-1.0));
    assert_eq!(reviewed_dim.dim.absolute_lower(), units(-1.3));
    assert_eq!(reviewed_dim.dim.absolute_upper(), units(-0.7));

    let d = match reviewed_dim.distribution {
        Some(Distribution::Normal(ref d)) => *d,
        _ => panic!("Expected Normal distribution"),
    };
    assert_eq!(d.mean, units(-1.0));

    let lo = normal_cdf(&d, reviewed_dim.dim.absolute_lower());
    let hi = normal_cdf(&d, reviewed_dim.dim.absolute_upper());
    let y = reviewed_dim.yield_probability(lo, hi);
    assert!((y - units(0.9973)).abs() < units(0.0001));
    assert_eq!(reviewed_dim.yield_loss_probability(lo, hi), SCALE - y);
}
