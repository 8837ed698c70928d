use rand::rngs::StdRng;
use rand::SeedableRng;
use std::cmp::Ordering;
use zima::scalar::{max_of, min_of};
use zima::statistics::studentized_bootstrap::{pivot, pivotal_interval};
use zima::{fixed_ratio_policy, log_policy, Subsample};
use zima::{
    Bootstrap, EmpiricalCDF, FourthCumulant, Interval, IntervalStyle, Jackknife, Kurtosis, Mean, Shape,
    Quantile, QuantileInterval, Real, SEMean, Sample, Skewness, Standardize, Statistic,
    Studentized, StudentizedBootstrap, ThirdCumulant, Variance, CDF, SE,
};

#[derive(Clone, Copy, Debug, PartialEq)]
struct R64(f64);

impl Real for R64 {
    fn constants_are_as_named() {}
    fn is_nan_spec(self) -> bool { self.is_nan() }
    fn rank(self) -> i128 {
        let bits = self.0.to_bits();
        let magnitude = (bits & !(1 << 63)) as i128;
        if bits >> 63 == 1 { -magnitude } else { magnitude }
    }
    fn zero_spec() -> Self { Self::zero() }
    fn one_spec() -> Self { Self::one() }
    fn nan_spec() -> Self { Self::nan() }
    fn infinity_spec() -> Self { Self::infinity() }
    fn epsilon_spec() -> Self { Self::epsilon() }
    fn from_usize_spec(n: usize) -> Self { Self::from_usize(n) }
    fn plus_spec(self, rhs: Self) -> Self { self.plus(rhs) }
    fn minus_spec(self, rhs: Self) -> Self { self.minus(rhs) }
    fn times_spec(self, rhs: Self) -> Self { self.times(rhs) }
    fn over_spec(self, rhs: Self) -> Self { self.over(rhs) }
    fn abs_spec(self) -> Self { self.abs() }
    fn sqrt_spec(self) -> Self { self.sqrt() }
    fn powi_spec(self, n: i32) -> Self { self.powi(n) }
    fn cbrt_spec(self) -> Self { self.cbrt() }
    fn ln_spec(self) -> Self { self.ln() }
    fn exp_spec(self) -> Self { self.exp() }
    fn log10_spec(self) -> Self { self.log10() }
    fn floor_spec(self) -> Self { self.floor() }
    fn erfc_spec(self) -> Self { self.erfc() }
    fn ceil_spec(self) -> usize { self.ceil() }
    fn trunc_spec(self) -> usize { self.trunc() }
    fn is_infinite_spec(self) -> bool { self.is_infinite() }
    fn is_sign_positive_spec(self) -> bool { self.is_sign_positive() }

    fn zero() -> Self { R64(0.0) }
    fn one() -> Self { R64(1.0) }
    fn nan() -> Self { R64(f64::NAN) }
    fn infinity() -> Self { R64(f64::INFINITY) }
    fn epsilon() -> Self { R64(f64::EPSILON) }
    fn from_usize(n: usize) -> Self { R64(n as f64) }
    fn plus(self, rhs: Self) -> Self { R64(self.0 + rhs.0) }
    fn minus(self, rhs: Self) -> Self { R64(self.0 - rhs.0) }
    fn times(self, rhs: Self) -> Self { R64(self.0 * rhs.0) }
    fn over(self, rhs: Self) -> Self { R64(self.0 / rhs.0) }
    fn abs(self) -> Self { R64(self.0.abs()) }
    fn sqrt(self) -> Self { R64(self.0.sqrt()) }
    fn powi(self, n: i32) -> Self { R64(self.0.powi(n)) }
    fn cbrt(self) -> Self { R64(self.0.cbrt()) }
    fn ln(self) -> Self { R64(self.0.ln()) }
    fn exp(self) -> Self { R64(self.0.exp()) }
    fn log10(self) -> Self { R64(self.0.log10()) }
    fn floor(self) -> Self { R64(self.0.floor()) }
    fn erfc(self) -> Self { R64(statrs::function::erf::erfc(self.0 as f64) as f64) }
    fn ceil(self) -> usize { self.0.ceil() as usize }
    fn trunc(self) -> usize { self.0 as usize }
    fn is_nan(self) -> bool { self.0.is_nan() }
    fn is_infinite(self) -> bool { self.0.is_infinite() }
    fn is_sign_positive(self) -> bool { self.0.is_sign_positive() }
    fn lt(self, rhs: Self) -> bool { self.0 < rhs.0 }
    fn le(self, rhs: Self) -> bool { self.0 <= rhs.0 }
    fn same(self, rhs: Self) -> bool { self.0 == rhs.0 }
}

fn wrap(values: &[f64]) -> Vec<R64> {
    values.iter().map(|&x| R64(x)).collect()
}

fn sample_of(values: &[f64]) -> Sample<R64> {
    Sample::new(wrap(values))
}

fn unwrap(values: &[R64]) -> Vec<f64> {
    values.iter().map(|x| x.0).collect()
}

fn close(a: f64, b: f64, tolerance: f64) -> bool {
    (a - b).abs() <= tolerance
}

fn ecdf_of(values: &[f64]) -> EmpiricalCDF<R64> {
    EmpiricalCDF::from_float_slice(&wrap(values))
}

const TEN: [f64; 10] = [2.1, 3.4, 1.9, 5.6, 4.4, 3.8, 2.7, 4.9, 3.1, 4.0];

#[test]
fn variance_of_one_to_five() {
    let data = wrap(&[1.0, 2.0, 3.0, 4.0, 5.0]);
    let sample: R64 = Variance::new(1).compute(&data);
    assert_eq!(sample.0, 2.5);
    let population: R64 = Variance::new(0).compute(&data);
    assert_eq!(population.0, 2.0);
    let default: R64 = Variance::default().compute(&data);
    assert_eq!(default.0, 2.5);
}

#[test]
fn variance_is_undefined_below_two_observations() {
    let none: R64 = Variance::default().compute(&wrap(&[]));
    assert!(none.0.is_nan());
    let one: R64 = Variance::default().compute(&wrap(&[4.0]));
    assert!(one.0.is_nan());
    let two: R64 = Variance::default().compute(&wrap(&[4.0, 6.0]));
    assert_eq!(two.0, 2.0);
}

#[test]
fn cumulants_follow_the_closed_forms() {
    let five = wrap(&[1.0, 2.0, 3.0, 4.0, 5.0]);
    let k3: R64 = ThirdCumulant::unbiased().compute(&five);
    assert!(close(k3.0, 0.0, 1e-12));
    let k4: R64 = FourthCumulant::unbiased().compute(&five);
    assert!(close(k4.0, -7.5, 1e-12));
    let biased4: R64 = FourthCumulant::new(false).compute(&five);
    assert!(close(biased4.0, -5.2, 1e-12));

    let skewed = wrap(&[1.0, 2.0, 3.0, 10.0]);
    let m3: R64 = ThirdCumulant::new(false).compute(&skewed);
    assert!(close(m3.0, 45.0, 1e-12));
    let unbiased3: R64 = ThirdCumulant::default().compute(&skewed);
    assert!(close(unbiased3.0, 120.0, 1e-10));
}

#[test]
fn cumulants_are_undefined_on_too_few_observations() {
    let two = wrap(&[1.0, 2.0]);
    let three = wrap(&[1.0, 2.0, 4.0]);
    let one = wrap(&[1.0]);
    let a: R64 = ThirdCumulant::unbiased().compute(&two);
    assert!(a.0.is_nan());
    let b: R64 = ThirdCumulant::new(false).compute(&two);
    assert!(!b.0.is_nan());
    let c: R64 = ThirdCumulant::new(false).compute(&one);
    assert!(c.0.is_nan());
    let d: R64 = FourthCumulant::unbiased().compute(&three);
    assert!(d.0.is_nan());
    let e: R64 = FourthCumulant::new(false).compute(&three);
    assert!(!e.0.is_nan());
    let f: R64 = FourthCumulant::default().compute(&wrap(&[1.0, 2.0, 4.0, 8.0]));
    assert!(!f.0.is_nan());
}

#[test]
fn skewness_values() {
    let skewed = wrap(&[1.0, 2.0, 3.0, 10.0]);
    let unbiased: R64 = Skewness::unbiased().compute(&skewed);
    assert!(close(unbiased.0, 1.7636326148038886, 1e-12));
    let biased: R64 = Skewness::new(false).compute(&skewed);
    assert!(close(biased.0, 1.0182337649086284, 1e-12));
    let symmetric: R64 = Skewness::default().compute(&wrap(&[1.0, 2.0, 3.0, 4.0, 5.0]));
    assert!(close(symmetric.0, 0.0, 1e-12));
}

#[test]
fn skewness_is_undefined_on_degenerate_input() {
    let two: R64 = Skewness::unbiased().compute(&wrap(&[1.0, 2.0]));
    assert!(two.0.is_nan());
    let one: R64 = Skewness::new(false).compute(&wrap(&[1.0]));
    assert!(one.0.is_nan());
    let none: R64 = Skewness::new(false).compute(&wrap(&[]));
    assert!(none.0.is_nan());
    let constant: R64 = Skewness::unbiased().compute(&wrap(&[3.0, 3.0, 3.0, 3.0]));
    assert!(constant.0.is_nan());
    let constant_biased: R64 = Skewness::new(false).compute(&wrap(&[3.0, 3.0, 3.0, 3.0]));
    assert!(constant_biased.0.is_nan());
}

#[test]
fn kurtosis_values() {
    let five = wrap(&[1.0, 2.0, 3.0, 4.0, 5.0]);
    let unbiased: R64 = Kurtosis::unbiased().compute(&five);
    assert!(close(unbiased.0, -1.2, 1e-12));
    let biased: R64 = Kurtosis::new(false).compute(&five);
    assert!(close(biased.0, -1.3, 1e-12));
    let default: R64 = Kurtosis::default().compute(&five);
    assert_eq!(default.0.to_bits(), unbiased.0.to_bits());
}

#[test]
fn kurtosis_is_undefined_on_degenerate_input() {
    let three: R64 = Kurtosis::unbiased().compute(&wrap(&[1.0, 2.0, 4.0]));
    assert!(three.0.is_nan());
    let one: R64 = Kurtosis::new(false).compute(&wrap(&[1.0]));
    assert!(one.0.is_nan());
    let constant: R64 = Kurtosis::unbiased().compute(&wrap(&[3.0, 3.0, 3.0, 3.0, 3.0]));
    assert!(constant.0.is_nan());
}

#[test]
fn kurtosis_is_the_standardized_fourth_cumulant() {
    let data = wrap(&TEN);
    let k4: R64 = FourthCumulant::unbiased().compute(&data);
    let k2: R64 = Variance::new(1).compute(&data);
    let kurtosis: R64 = Kurtosis::unbiased().compute(&data);
    assert!(close(kurtosis.0, k4.0 / (k2.0 * k2.0), 1e-12));
    let k3: R64 = ThirdCumulant::unbiased().compute(&data);
    let skewness: R64 = Skewness::unbiased().compute(&data);
    assert!(close(skewness.0, k3.0 / k2.0.powf(1.5), 1e-12));
}

#[test]
fn tuples_of_statistics_run_each_member() {
    let data = wrap(&[1.0, 2.0, 3.0, 4.0, 5.0]);
    let (mean, variance): (R64, R64) = (Mean, Variance::default()).compute(&data);
    assert_eq!(mean.0, 3.0);
    assert_eq!(variance.0, 2.5);
    let (only,): (R64,) = (Mean,).compute(&data);
    assert_eq!(only.0, 3.0);
    let (a, b, c, d, e, f, g, h): (R64, R64, R64, R64, R64, R64, R64, R64) = (
        Mean,
        Variance::new(0),
        Variance::new(1),
        Skewness::unbiased(),
        Kurtosis::unbiased(),
        ThirdCumulant::unbiased(),
        FourthCumulant::unbiased(),
        SEMean::default(),
    )
        .compute(&data);
    assert_eq!(a.0, 3.0);
    assert_eq!(b.0, 2.0);
    assert_eq!(c.0, 2.5);
    assert!(close(d.0, 0.0, 1e-12));
    assert!(close(e.0, -1.2, 1e-12));
    assert!(close(f.0, 0.0, 1e-12));
    assert!(close(g.0, -7.5, 1e-12));
    assert!(close(h.0, 0.5f64.sqrt(), 1e-15));
    let unit: () = ().compute(&data);
    assert_eq!(unit, ());
}

#[test]
fn standardizing_shifts_and_scales() {
    let data = wrap(&[1.0, 2.0, 3.0]);
    let centred: Vec<R64> = Standardize::<Vec<R64>, R64>::standardize(&Mean, &data);
    assert_eq!(unwrap(&centred), vec![-1.0, 0.0, 1.0]);
    let four = wrap(&[2.0, 4.0, 6.0, 8.0]);
    let variance: R64 = Variance::new(1).compute(&four);
    let scaled: Vec<R64> = Standardize::<Vec<R64>, R64>::standardize(&Variance::new(1), &four);
    let expected: Vec<f64> = [2.0, 4.0, 6.0, 8.0].iter().map(|x| x / variance.0.sqrt()).collect();
    assert_eq!(unwrap(&scaled), expected);
}

#[test]
fn ecdf_drops_nan_and_sorts() {
    let ecdf = ecdf_of(&[3.0, f64::NAN, 1.0, f64::INFINITY, 2.0, f64::NAN, f64::NEG_INFINITY, 2.0]);
    assert_eq!(ecdf.n(), 6);
    assert_eq!(ecdf.len(), 6);
    assert!(!ecdf.is_empty());
    assert_eq!(
        unwrap(ecdf.points()),
        vec![f64::NEG_INFINITY, 1.0, 2.0, 2.0, 3.0, f64::INFINITY]
    );
    let empty = ecdf_of(&[f64::NAN]);
    assert!(empty.is_empty());
    assert_eq!(empty.n(), 0);
    let through_statistic: EmpiricalCDF<R64> = CDF.compute(&wrap(&[2.0, 1.0]));
    assert_eq!(unwrap(through_statistic.points()), vec![1.0, 2.0]);
    let copy = ecdf.clone();
    assert_eq!(unwrap(copy.points()), unwrap(ecdf.points()));
}

#[test]
fn ecdf_counts_and_evaluates() {
    let ecdf = ecdf_of(&[3.0, 1.0, 2.0]);
    assert_eq!(ecdf.count_leq(&R64(0.5)), 0);
    assert_eq!(ecdf.count_leq(&R64(1.0)), 1);
    assert_eq!(ecdf.count_leq(&R64(2.5)), 2);
    assert_eq!(ecdf.count_leq(&R64(3.0)), 3);
    assert_eq!(ecdf.count_leq(&R64(100.0)), 3);
    assert_eq!(ecdf.count_leq(&R64(f64::NAN)), 0);
    assert_eq!(ecdf.eval_float(&R64(2.0)).0, 2.0 / 3.0);
    assert_eq!(ecdf.eval_float(&R64(0.5)).0, 0.0);
    assert_eq!(ecdf.eval_float(&R64(3.0)).0, 1.0);
    assert_eq!(ecdf.eval_float(&R64(f64::INFINITY)).0, 1.0);
    assert_eq!(ecdf.eval_float(&R64(f64::NEG_INFINITY)).0, 0.0);
    assert!(ecdf.eval_float(&R64(f64::NAN)).0.is_nan());
    assert!(ecdf_of(&[]).eval_float(&R64(1.0)).0.is_nan());
    let ties = ecdf_of(&[1.0, 2.0, 2.0, 2.0, 3.0]);
    assert_eq!(ties.count_leq(&R64(2.0)), 4);
    let zeros = ecdf_of(&[-0.0, 0.0, 1.0]);
    assert_eq!(zeros.count_leq(&R64(-0.0)), 2);
}

#[test]
fn ecdf_stochastic_dominance() {
    let low = ecdf_of(&[1.0, 2.0, 3.0]);
    let high = ecdf_of(&[2.0, 3.0, 4.0]);
    assert_eq!(high.partial_cmp(&low), Some(Ordering::Less));
    assert_eq!(low.partial_cmp(&high), Some(Ordering::Greater));
    assert!(high < low);
    assert_eq!(low.partial_cmp(&ecdf_of(&[3.0, 2.0, 1.0])), Some(Ordering::Equal));
    assert!(low == ecdf_of(&[3.0, 2.0, 1.0]));
    assert!(low != high);

    let a = ecdf_of(&[1.0, 3.0, 5.0]);
    let b = ecdf_of(&[2.0, 2.0, 6.0]);
    assert_eq!(a.partial_cmp(&b), None);
    assert_eq!(b.partial_cmp(&a), None);

    let empty = ecdf_of(&[]);
    assert_eq!(empty.partial_cmp(&low), None);
    assert_eq!(low.partial_cmp(&empty), None);
    assert!(empty != empty.clone());
}

#[test]
fn ecdf_compares_fractions_exactly() {
    let thirds = ecdf_of(&[1.0, 2.0, 3.0]);
    let sixths = ecdf_of(&[1.0, 1.0, 2.0, 2.0, 3.0, 3.0]);
    assert_eq!(thirds.partial_cmp(&sixths), Some(Ordering::Equal));
    assert_eq!(thirds.compare_steps(&sixths), (true, true));
    assert_eq!(thirds.compare_at(&sixths, &R64(1.5)), (true, true));
    let other = ecdf_of(&[1.0, 1.0, 2.0, 3.0, 3.0, 3.0, 3.0]);
    assert_eq!(thirds.compare_at(&other, &R64(1.0)), (false, true));
    assert_eq!(thirds.compare_at(&other, &R64(2.0)), (false, true));
}

#[test]
fn quantile_of_sorted_one_to_five() {
    let ecdf = ecdf_of(&[1.0, 2.0, 3.0, 4.0, 5.0]);
    let median: R64 = Quantile::<R64>::median().compute(&ecdf);
    assert_eq!(median.0, 3.0);
    let lowest: R64 = Quantile::new(R64(0.0)).compute(&ecdf);
    assert_eq!(lowest.0, 1.0);
    let highest: R64 = Quantile::new(R64(1.0)).compute(&ecdf);
    assert_eq!(highest.0, 5.0);
    let fifth: R64 = Quantile::new(R64(0.2)).compute(&ecdf);
    assert_eq!(fifth.0, 1.0);
    let just_above: R64 = Quantile::new(R64(0.21)).compute(&ecdf);
    assert_eq!(just_above.0, 2.0);
    let beyond: R64 = Quantile::new(R64(7.0)).compute(&ecdf);
    assert_eq!(beyond.0, 5.0);
}

#[test]
fn quantile_interval_reads_both_ends() {
    let ecdf = ecdf_of(&[5.0, 1.0, 4.0, 2.0, 3.0, 6.0, 7.0, 8.0, 9.0, 10.0]);
    let (low, high): (R64, R64) = QuantileInterval::new(R64(0.25), R64(0.75)).compute(&ecdf);
    assert_eq!((low.0, high.0), (3.0, 8.0));
    let (p_low, p_high): (R64, R64) = QuantileInterval::percentile(R64(0.8)).compute(&ecdf);
    assert_eq!((p_low.0, p_high.0), (1.0, 9.0));
}

#[test]
fn interval_basics() {
    let interval = Interval::new(R64(1.0), R64(3.0));
    assert!(interval.contains(&R64(1.0)));
    assert!(interval.contains(&R64(2.0)));
    assert!(interval.contains(&R64(3.0)));
    assert!(!interval.contains(&R64(3.5)));
    assert!(!interval.contains(&R64(f64::NAN)));
    assert_eq!(interval.width().0, 2.0);
    assert_eq!(interval.midpoint().0, 2.0);
    assert_eq!(interval.half_width().0, 1.0);
    assert_eq!(interval.relative_width().0, 1.0);
    assert!(interval.estimate.is_none());
    assert!(interval.confidence.is_none());
    assert!(interval.is_valid());
    assert!(Interval::new(R64(-1.0), R64(1.0)).relative_width().0.is_infinite());
}

#[test]
fn interval_builders_and_validity() {
    let interval = Interval::new(R64(1.0), R64(3.0)).estimate(R64(2.5)).confidence(R64(0.95));
    assert_eq!(interval.estimate.map(|e| e.0), Some(2.5));
    assert_eq!(interval.confidence.map(|c| c.0), Some(0.95));
    assert!(interval.is_valid());
    assert!(!Interval::new(R64(3.0), R64(1.0)).is_valid());
    assert!(!Interval::new(R64(1.0), R64(3.0)).estimate(R64(4.0)).is_valid());
    assert!(!Interval::new(R64(1.0), R64(3.0)).estimate(R64(0.0)).is_valid());
    assert!(!Interval::new(R64(1.0), R64(3.0)).confidence(R64(1.0)).is_valid());
    assert!(!Interval::new(R64(1.0), R64(3.0)).confidence(R64(0.0)).is_valid());
    assert!(Interval::new(R64(2.0), R64(2.0)).estimate(R64(2.0)).is_valid());
}

#[test]
fn interval_symmetry_and_sentinels() {
    let symmetric = Interval::symmetric(R64(5.0), R64(0.5));
    assert_eq!((symmetric.lower.0, symmetric.upper.0), (4.5, 5.5));
    assert_eq!(symmetric.estimate.map(|e| e.0), Some(5.0));
    assert!(symmetric.is_symmetric(R64(0.05)));
    let lopsided = Interval::new(R64(0.0), R64(10.0)).estimate(R64(1.0));
    assert!(!lopsided.is_symmetric(R64(0.05)));
    assert!(Interval::new(R64(0.0), R64(10.0)).is_symmetric(R64(0.05)));
    let nan = Interval::<R64>::nan();
    assert!(nan.lower.0.is_nan() && nan.upper.0.is_nan());
    assert!(!nan.contains(&R64(0.0)));
    let all = Interval::<R64>::infinite();
    assert_eq!((all.lower.0, all.upper.0), (f64::NEG_INFINITY, f64::INFINITY));
    assert!(all.contains(&R64(1e300)));
}

#[test]
fn interval_style_guideline() {
    assert_eq!(IntervalStyle::Guideline.effective(true, false), IntervalStyle::Symmetric);
    assert_eq!(IntervalStyle::Guideline.effective(true, true), IntervalStyle::SetWith);
    assert_eq!(IntervalStyle::Guideline.effective(false, true), IntervalStyle::SetWith);
    assert_eq!(IntervalStyle::Guideline.effective(false, false), IntervalStyle::SetNotation);
    assert_eq!(IntervalStyle::Bounds.effective(true, true), IntervalStyle::Bounds);
    assert_eq!(IntervalStyle::default(), IntervalStyle::Guideline);
}

#[test]
fn standard_error_of_the_mean() {
    let se: R64 = SEMean::default().compute(&wrap(&[1.0, 2.0, 3.0, 4.0, 5.0]));
    assert_eq!(se.0, 0.5f64.sqrt());
    let population: R64 = SEMean::with_variance(Variance::new(0)).compute(&wrap(&[1.0, 2.0, 3.0, 4.0, 5.0]));
    assert_eq!(population.0, 0.4f64.sqrt());
    let none: R64 = SEMean::default().compute(&wrap(&[]));
    assert!(none.0.is_nan());
    let one: R64 = SEMean::default().compute(&wrap(&[2.0]));
    assert!(one.0.is_nan());
    let constant: R64 = SEMean::default().compute(&wrap(&[2.0, 2.0, 2.0]));
    assert_eq!(constant.0, 0.0);
}

#[test]
fn jackknife_standard_error_is_the_raw_deviation() {
    let data = sample_of(&[1.0, 2.0, 3.0, 4.0, 5.0]);
    let se: R64 = SE::jackknife(Mean).compute(&data);
    assert!(close(se.0, 0.39528470752104744, 1e-15));
    let capped: R64 = SE::new(Mean, Jackknife::new(), 3).compute(&data);
    let first_three = [3.5f64, 3.25, 3.0];
    let mean = first_three.iter().sum::<f64>() / 3.0;
    let expected = (first_three.iter().map(|x| (x - mean).powi(2)).sum::<f64>() / 2.0).sqrt();
    assert!(close(capped.0, expected, 1e-15));
}

#[test]
fn standard_error_is_undefined_without_resamples() {
    let se: R64 = SE::jackknife(Mean).compute(&sample_of(&[]));
    assert!(se.0.is_nan());
    let single: R64 = SE::jackknife(Mean).compute(&sample_of(&[1.0]));
    assert!(single.0.is_nan());
    let none_asked: R64 = SE::new(Mean, Bootstrap::new(StdRng::seed_from_u64(1)), 0).compute(&sample_of(&TEN));
    assert!(none_asked.0.is_nan());
}

#[test]
fn bootstrap_standard_error_repeats_under_a_seed() {
    let data = sample_of(&TEN);
    let first: R64 = SE::new(Mean, Bootstrap::new(StdRng::seed_from_u64(9)), 200).compute(&data);
    let second: R64 = SE::new(Mean, Bootstrap::new(StdRng::seed_from_u64(9)), 200).compute(&data);
    assert_eq!(first.0.to_bits(), second.0.to_bits());
    let analytic: R64 = SEMean::default().compute(&data);
    assert!(first.0 > 0.0);
    assert!(first.0 > analytic.0 * 0.5 && first.0 < analytic.0 * 1.5);
}

#[test]
fn studentized_ratio() {
    let data = wrap(&[1.0, 2.0, 3.0, 4.0, 5.0]);
    let t: R64 = Studentized::new(Mean, SEMean::default(), R64(2.0)).compute(&data);
    assert!(close(t.0, 1.0 / 0.5f64.sqrt(), 1e-15));
    let zero_se: R64 = Studentized::new(Mean, SEMean::default(), R64(2.0)).compute(&wrap(&[3.0, 3.0, 3.0]));
    assert!(zero_se.0.is_nan());
    let no_data: R64 = Studentized::new(Mean, SEMean::default(), R64(2.0)).compute(&wrap(&[]));
    assert!(no_data.0.is_nan());
}

#[test]
fn pivots_are_kept_or_dropped() {
    assert_eq!(pivot(R64(5.0), R64(2.0), R64(1.0)).map(|p| p.0), Some(2.0));
    assert!(pivot(R64(5.0), R64(0.0), R64(1.0)).is_none());
    assert!(pivot(R64(f64::NAN), R64(2.0), R64(1.0)).is_none());
    assert!(pivot(R64(5.0), R64(f64::NAN), R64(1.0)).is_none());
}

#[test]
fn pivotal_interval_turns_the_quantiles_round() {
    let pivots = wrap(&[-1.0, 0.0, 1.0, 2.0, -2.0]);
    let interval = pivotal_interval(R64(10.0), R64(2.0), &pivots, R64(0.6));
    assert_eq!(interval.lower.0, 8.0);
    assert_eq!(interval.upper.0, 14.0);
    assert_eq!(interval.estimate.map(|e| e.0), Some(10.0));
    assert_eq!(interval.confidence.map(|c| c.0), Some(0.6));
    assert!(interval.contains(&R64(10.0)));
    let too_few = pivotal_interval(R64(10.0), R64(2.0), &wrap(&[1.0]), R64(0.6));
    assert!(too_few.lower.0.is_nan() && too_few.upper.0.is_nan());
    assert!(too_few.estimate.is_none());
    let unusable = pivotal_interval(R64(10.0), R64(2.0), &wrap(&[f64::NAN, f64::NAN]), R64(0.6));
    assert!(unusable.lower.0.is_nan() && unusable.upper.0.is_nan());
}

#[test]
fn studentized_bootstrap_interval_contains_the_estimate() {
    let data = sample_of(&TEN);
    for seed in [1u64, 2, 3, 4, 5] {
        let scheme = StudentizedBootstrap::new(
            Mean,
            SE::jackknife(Mean),
            Bootstrap::new(StdRng::seed_from_u64(seed)),
            400,
            R64(0.95),
        );
        let interval: Interval<R64> = scheme.compute(&data);
        assert!(!interval.lower.0.is_nan() && !interval.upper.0.is_nan());
        let estimate = interval.estimate.expect("the estimate is attached");
        let mean: R64 = Mean.compute(&data);
        assert_eq!(estimate.0.to_bits(), mean.0.to_bits());
        assert!(interval.contains(&estimate));
        assert!(interval.is_valid());
        assert_eq!(interval.confidence.map(|c| c.0), Some(0.95));
    }
}

#[test]
fn studentized_bootstrap_repeats_under_a_seed() {
    let data = sample_of(&TEN);
    let build = || {
        StudentizedBootstrap::new(
            Mean,
            SE::new(Mean, Bootstrap::new(StdRng::seed_from_u64(3)), 25),
            Bootstrap::new(StdRng::seed_from_u64(4)),
            100,
            R64(0.9),
        )
    };
    let first: Interval<R64> = build().compute(&data);
    let second: Interval<R64> = build().compute(&data);
    assert_eq!(first.lower.0.to_bits(), second.lower.0.to_bits());
    assert_eq!(first.upper.0.to_bits(), second.upper.0.to_bits());
    assert!(first.lower.0 < first.upper.0);
}

#[test]
fn studentized_bootstrap_is_undefined_on_degenerate_input() {
    let constant = sample_of(&[3.0, 3.0, 3.0, 3.0]);
    let scheme = StudentizedBootstrap::new(
        Mean,
        SE::jackknife(Mean),
        Bootstrap::new(StdRng::seed_from_u64(1)),
        50,
        R64(0.95),
    );
    let interval: Interval<R64> = scheme.compute(&constant);
    assert!(interval.lower.0.is_nan() && interval.upper.0.is_nan());
    let one_pivot = StudentizedBootstrap::new(
        Mean,
        SE::jackknife(Mean),
        Bootstrap::new(StdRng::seed_from_u64(1)),
        1,
        R64(0.95),
    );
    let short: Interval<R64> = one_pivot.compute(&sample_of(&TEN));
    assert!(short.lower.0.is_nan() && short.upper.0.is_nan());
}

#[test]
fn layout_of_a_symmetric_interval() {
    let interval = Interval::symmetric(R64(4.87), R64(0.48));
    let layout = interval.format(IntervalStyle::Guideline).layout();
    assert_eq!(layout.shape, Shape::PlusMinus);
    assert_eq!(layout.center.0, 4.87);
    assert!(close(layout.error.0, 0.48, 1e-12));
    assert_eq!(layout.decimals, Some(2));
    assert!(!layout.with_confidence);
    let bounds = interval.format(IntervalStyle::Bounds).layout();
    assert_eq!(bounds.shape, Shape::Bounds);
    assert_eq!(bounds.decimals, Some(2));
    let member = interval.format(IntervalStyle::SetNotation).layout();
    assert_eq!(member.shape, Shape::Member);
}

#[test]
fn layout_of_an_interval_with_confidence() {
    let interval = Interval::new(R64(4.46), R64(5.43)).estimate(R64(4.87)).confidence(R64(0.95));
    let layout = interval.format(IntervalStyle::Guideline).layout();
    assert_eq!(layout.shape, Shape::Member);
    assert!(layout.with_confidence);
    assert_eq!(layout.decimals, Some(2));
    let symmetric_style = interval.format(IntervalStyle::Symmetric).layout();
    assert_eq!(symmetric_style.shape, Shape::Bounds);
    assert!(!symmetric_style.with_confidence);
    let wide = Interval::new(R64(100.0), R64(2500.0)).format(IntervalStyle::Guideline).layout();
    assert_eq!(wide.decimals, Some(0));
    assert_eq!(wide.shape, Shape::PlusMinus);
    let narrow = Interval::symmetric(R64(1.0), R64(0.00012)).format(IntervalStyle::Guideline).layout();
    assert_eq!(narrow.decimals, Some(5));
}

#[test]
fn layout_of_a_degenerate_interval() {
    let point = Interval::new(R64(2.0), R64(2.0)).confidence(R64(0.9));
    let layout = point.format(IntervalStyle::Guideline).layout();
    assert_eq!(layout.shape, Shape::Member);
    assert_eq!(layout.decimals, None);
    assert!(layout.with_confidence);
    let unbounded = Interval::<R64>::infinite().format(IntervalStyle::Bounds).layout();
    assert_eq!(unbounded.shape, Shape::Bounds);
    assert_eq!(unbounded.decimals, None);
    let undefined = Interval::<R64>::nan().format(IntervalStyle::SetWith).layout();
    assert_eq!(undefined.shape, Shape::Member);
    assert_eq!(undefined.decimals, None);
    assert!(!undefined.with_confidence);
}

#[test]
fn jackknife_in_one_pass() {
    let source = sample_of(&[1.0, 2.0, 3.0, 4.0]);
    let all = Jackknife::new().leave_one_out(&source);
    assert_eq!(all.len(), 4);
    assert_eq!(unwrap(&all[0].data), vec![2.0, 3.0, 4.0]);
    assert_eq!(unwrap(&all[3].data), vec![1.0, 2.0, 3.0]);
    assert!(Jackknife::new().leave_one_out(&sample_of(&[])).is_empty());
}

#[test]
fn logarithmic_and_ratio_policies() {
    assert_eq!(log_policy::<R64>(100), 4);
    assert_eq!(log_policy::<R64>(1000), 6);
    assert_eq!(log_policy::<R64>(3), 1);
    assert_eq!(log_policy::<R64>(1), 1);
    assert_eq!(log_policy::<R64>(0), 1);
    let quarter = fixed_ratio_policy(R64(0.25));
    assert_eq!(quarter(100), 25);
    assert_eq!(quarter(3), 1);
    assert_eq!(quarter(0), 1);
    let source = Sample::new((0..100u64).collect::<Vec<u64>>());
    let scheme = Subsample::with_policy(StdRng::seed_from_u64(3), fixed_ratio_policy(R64(0.3)));
    assert_eq!(scheme.re(&source).next().unwrap().len(), 30);
    let by_log = Subsample::with_policy(StdRng::seed_from_u64(3), log_policy::<R64>);
    assert_eq!(by_log.re(&source).next().unwrap().len(), 4);
}

#[test]
fn larger_and_smaller_of_two_scalars() {
    assert_eq!(max_of(R64(1.0), R64(2.0)).0, 2.0);
    assert_eq!(max_of(R64(2.0), R64(1.0)).0, 2.0);
    assert_eq!(max_of(R64(f64::NAN), R64(1.0)).0, 1.0);
    assert_eq!(max_of(R64(1.0), R64(f64::NAN)).0, 1.0);
    assert_eq!(min_of(R64(1.0), R64(2.0)).0, 1.0);
    assert_eq!(min_of(R64(2.0), R64(1.0)).0, 1.0);
    assert_eq!(min_of(R64(f64::NAN), R64(1.0)).0, 1.0);
    assert!(max_of(R64(f64::NAN), R64(f64::NAN)).0.is_nan());
}

#[test]
fn undefined_interval_is_not_valid() {
    assert!(!Interval::<R64>::nan().is_valid());
    assert!(!Interval::new(R64(f64::NAN), R64(1.0)).is_valid());
    assert!(!Interval::new(R64(0.0), R64(f64::NAN)).is_valid());
    assert!(!Interval::new(R64(0.0), R64(1.0)).estimate(R64(f64::NAN)).is_valid());
    assert!(!Interval::new(R64(0.0), R64(1.0)).confidence(R64(f64::NAN)).is_valid());
    assert!(Interval::<R64>::infinite().is_valid());
    assert!(Interval::new(R64(-0.0), R64(0.0)).estimate(R64(0.0)).is_valid());
}

#[test]
fn jackknife_standard_error_of_three_points() {
    let data = sample_of(&[1.0, 2.0, 3.0]);
    let se: R64 = SE::jackknife(Mean).compute(&data);
    assert_eq!(se.0, 0.5);
    let two: R64 = SE::new(Mean, Jackknife::new(), 2).compute(&data);
    let expected = (((2.5f64 - 2.25).powi(2) + (2.0f64 - 2.25).powi(2)) / 1.0).sqrt();
    assert_eq!(two.0, expected);
    let one: R64 = SE::new(Mean, Jackknife::new(), 1).compute(&data);
    assert!(one.0.is_nan());
}

#[test]
fn studentized_bootstrap_uses_every_resample_in_order() {
    let data = sample_of(&TEN);
    let scheme = StudentizedBootstrap::new(
        Mean,
        SE::jackknife(Mean),
        Jackknife::new(),
        usize::MAX,
        R64(0.8),
    );
    let interval: Interval<R64> = scheme.compute(&data);

    let theta_hat: R64 = Mean.compute(&data);
    let se_hat: R64 = SE::jackknife(Mean).compute(&data);
    let mut pivots: Vec<R64> = Vec::new();
    for resample in Jackknife::new().leave_one_out(&data) {
        let theta_star: R64 = Mean.compute(&resample);
        let se_star: R64 = SE::jackknife(Mean).compute(&resample);
        if let Some(value) = pivot(theta_star, se_star, theta_hat) {
            pivots.push(value);
        }
    }
    assert_eq!(pivots.len(), 10);
    let expected = pivotal_interval(theta_hat, se_hat, &pivots, R64(0.8));
    assert_eq!(interval.lower.0.to_bits(), expected.lower.0.to_bits());
    assert_eq!(interval.upper.0.to_bits(), expected.upper.0.to_bits());
    assert!(interval.lower.0 < interval.upper.0);
    assert!(interval.is_valid());

    let capped = StudentizedBootstrap::new(Mean, SE::jackknife(Mean), Jackknife::new(), 4, R64(0.8));
    let short: Interval<R64> = capped.compute(&data);
    let first_four = pivotal_interval(theta_hat, se_hat, &pivots[..4], R64(0.8));
    assert_eq!(short.lower.0.to_bits(), first_four.lower.0.to_bits());
    assert_eq!(short.upper.0.to_bits(), first_four.upper.0.to_bits());
}
