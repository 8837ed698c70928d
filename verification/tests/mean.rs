use zima::{Mean, Real, Sample, Statistic};

#[derive(Clone, Copy, Debug, PartialEq)]
struct R32(f32);

impl Real for R32 {
    fn constants_are_as_named() {}
    fn is_nan_spec(self) -> bool { self.is_nan() }
    fn rank(self) -> i128 {
        let bits = self.0.to_bits();
        let magnitude = (bits & !(1 << 31)) as i128;
        if bits >> 31 == 1 { -magnitude } else { magnitude }
    }
    fn zero_spec() -> Self { Self::zero() }
    fn one_spec() -> Self { Self::one() }
    fn nan_spec() -> Self { Self::nan() }
    fn infinity_spec() -> Self { Self::infinity() }
    fn epsilon_spec() -> Self { Self::epsilon() }
    fn from_usize_spec(n: usize) -> Self { Self::from_usize(n) }
    fn plus_spec(self, rhs: Self) -> Self { self.plus(rhs) }
    fn minus_spec(self, rhs: Self) -> Self { self.minus(rhs) }
    fn times_spec(self, rhs: Self) -> Self { self.times(rhs) }
    fn over_spec(self, rhs: Self) -> Self { self.over(rhs) }
    fn abs_spec(self) -> Self { self.abs() }
    fn sqrt_spec(self) -> Self { self.sqrt() }
    fn powi_spec(self, n: i32) -> Self { self.powi(n) }
    fn cbrt_spec(self) -> Self { self.cbrt() }
    fn ln_spec(self) -> Self { self.ln() }
    fn exp_spec(self) -> Self { self.exp() }
    fn log10_spec(self) -> Self { self.log10() }
    fn floor_spec(self) -> Self { self.floor() }
    fn erfc_spec(self) -> Self { self.erfc() }
    fn ceil_spec(self) -> usize { self.ceil() }
    fn trunc_spec(self) -> usize { self.trunc() }
    fn is_infinite_spec(self) -> bool { self.is_infinite() }
    fn is_sign_positive_spec(self) -> bool { self.is_sign_positive() }

    fn zero() -> Self { R32(0.0) }
    fn one() -> Self { R32(1.0) }
    fn nan() -> Self { R32(f32::NAN) }
    fn infinity() -> Self { R32(f32::INFINITY) }
    fn epsilon() -> Self { R32(f32::EPSILON) }
    fn from_usize(n: usize) -> Self { R32(n as f32) }
    fn plus(self, rhs: Self) -> Self { R32(self.0 + rhs.0) }
    fn minus(self, rhs: Self) -> Self { R32(self.0 - rhs.0) }
    fn times(self, rhs: Self) -> Self { R32(self.0 * rhs.0) }
    fn over(self, rhs: Self) -> Self { R32(self.0 / rhs.0) }
    fn abs(self) -> Self { R32(self.0.abs()) }
    fn sqrt(self) -> Self { R32(self.0.sqrt()) }
    fn powi(self, n: i32) -> Self { R32(self.0.powi(n)) }
    fn cbrt(self) -> Self { R32(self.0.cbrt()) }
    fn ln(self) -> Self { R32(self.0.ln()) }
    fn exp(self) -> Self { R32(self.0.exp()) }
    fn log10(self) -> Self { R32(self.0.log10()) }
    fn floor(self) -> Self { R32(self.0.floor()) }
    fn erfc(self) -> Self { R32(statrs::function::erf::erfc(self.0 as f64) as f32) }
    fn ceil(self) -> usize { self.0.ceil() as usize }
    fn trunc(self) -> usize { self.0 as usize }
    fn is_nan(self) -> bool { self.0.is_nan() }
    fn is_infinite(self) -> bool { self.0.is_infinite() }
    fn is_sign_positive(self) -> bool { self.0.is_sign_positive() }
    fn lt(self, rhs: Self) -> bool { self.0 < rhs.0 }
    fn le(self, rhs: Self) -> bool { self.0 <= rhs.0 }
    fn same(self, rhs: Self) -> bool { self.0 == rhs.0 }
}

#[derive(Clone, Copy, Debug, PartialEq)]
struct R64(f64);

impl Real for R64 {
    fn constants_are_as_named() {}
    fn is_nan_spec(self) -> bool { self.is_nan() }
    fn rank(self) -> i128 {
        let bits = self.0.to_bits();
        let magnitude = (bits & !(1 << 63)) as i128;
        if bits >> 63 == 1 { -magnitude } else { magnitude }
    }
    fn zero_spec() -> Self { Self::zero() }
    fn one_spec() -> Self { Self::one() }
    fn nan_spec() -> Self { Self::nan() }
    fn infinity_spec() -> Self { Self::infinity() }
    fn epsilon_spec() -> Self { Self::epsilon() }
    fn from_usize_spec(n: usize) -> Self { Self::from_usize(n) }
    fn plus_spec(self, rhs: Self) -> Self { self.plus(rhs) }
    fn minus_spec(self, rhs: Self) -> Self { self.minus(rhs) }
    fn times_spec(self, rhs: Self) -> Self { self.times(rhs) }
    fn over_spec(self, rhs: Self) -> Self { self.over(rhs) }
    fn abs_spec(self) -> Self { self.abs() }
    fn sqrt_spec(self) -> Self { self.sqrt() }
    fn powi_spec(self, n: i32) -> Self { self.powi(n) }
    fn cbrt_spec(self) -> Self { self.cbrt() }
    fn ln_spec(self) -> Self { self.ln() }
    fn exp_spec(self) -> Self { self.exp() }
    fn log10_spec(self) -> Self { self.log10() }
    fn floor_spec(self) -> Self { self.floor() }
    fn erfc_spec(self) -> Self { self.erfc() }
    fn ceil_spec(self) -> usize { self.ceil() }
    fn trunc_spec(self) -> usize { self.trunc() }
    fn is_infinite_spec(self) -> bool { self.is_infinite() }
    fn is_sign_positive_spec(self) -> bool { self.is_sign_positive() }

    fn zero() -> Self { R64(0.0) }
    fn one() -> Self { R64(1.0) }
    fn nan() -> Self { R64(f64::NAN) }
    fn infinity() -> Self { R64(f64::INFINITY) }
    fn epsilon() -> Self { R64(f64::EPSILON) }
    fn from_usize(n: usize) -> Self { R64(n as f64) }
    fn plus(self, rhs: Self) -> Self { R64(self.0 + rhs.0) }
    fn minus(self, rhs: Self) -> Self { R64(self.0 - rhs.0) }
    fn times(self, rhs: Self) -> Self { R64(self.0 * rhs.0) }
    fn over(self, rhs: Self) -> Self { R64(self.0 / rhs.0) }
    fn abs(self) -> Self { R64(self.0.abs()) }
    fn sqrt(self) -> Self { R64(self.0.sqrt()) }
    fn powi(self, n: i32) -> Self { R64(self.0.powi(n)) }
    fn cbrt(self) -> Self { R64(self.0.cbrt()) }
    fn ln(self) -> Self { R64(self.0.ln()) }
    fn exp(self) -> Self { R64(self.0.exp()) }
    fn log10(self) -> Self { R64(self.0.log10()) }
    fn floor(self) -> Self { R64(self.0.floor()) }
    fn erfc(self) -> Self { R64(statrs::function::erf::erfc(self.0 as f64) as f64) }
    fn ceil(self) -> usize { self.0.ceil() as usize }
    fn trunc(self) -> usize { self.0 as usize }
    fn is_nan(self) -> bool { self.0.is_nan() }
    fn is_infinite(self) -> bool { self.0.is_infinite() }
    fn is_sign_positive(self) -> bool { self.0.is_sign_positive() }
    fn lt(self, rhs: Self) -> bool { self.0 < rhs.0 }
    fn le(self, rhs: Self) -> bool { self.0 <= rhs.0 }
    fn same(self, rhs: Self) -> bool { self.0 == rhs.0 }
}

fn wrap32(values: &[f32]) -> Vec<R32> {
    values.iter().map(|&x| R32(x)).collect()
}

fn wrap64(values: &[f64]) -> Vec<R64> {
    values.iter().map(|&x| R64(x)).collect()
}

fn mean32(values: &[f32]) -> f32 {
    let out: R32 = Mean.compute(&wrap32(values));
    out.0
}

fn mean64(values: &[f64]) -> f64 {
    let out: R64 = Mean.compute(&wrap64(values));
    out.0
}

#[test]
fn empty_slice_returns_nan() {
    let mean_f32: R32 = Mean.compute(&Vec::<R32>::new());
    assert!(mean_f32.0.is_nan(), "Empty slice must return NaN (got: {})", mean_f32.0);

    let mean_f64: R64 = Mean.compute(&Vec::<R64>::new());
    assert!(mean_f64.0.is_nan(), "Empty slice must return NaN (got: {})", mean_f64.0);
}

#[test]
fn single_element_returns_value() {
    assert!((mean32(&[42.5_f32]) - 42.5).abs() <= 1e-6);
    assert!((mean64(&[std::f64::consts::PI]) - std::f64::consts::PI).abs() <= 1e-12);
}

#[test]
fn exact_integer_means() {
    assert!((mean32(&[1.0_f32, 2.0, 3.0, 4.0, 5.0]) - 3.0).abs() <= 1e-6);
    assert!((mean64(&[1.0_f64, 2.0, 3.0, 4.0, 5.0]) - 3.0).abs() <= 1e-12);
}

#[test]
fn handles_negative_values_and_zero() {
    assert!((mean32(&[-5.0_f32, -2.0, 0.0, 3.0, 4.0]) - 0.0).abs() <= 1e-6);
    assert!((mean64(&[-10.5_f64, -3.2, 0.0, 7.1, 6.6]) - 0.0).abs() <= 1e-12);
}

#[test]
fn kahan_reduces_accumulation_error() {
    let n = 10_000;
    let data: Vec<f32> = vec![0.1_f32; n];
    let expected = 0.1_f32;

    let kahan_mean = mean32(&data);
    let naive_mean: f32 = data.iter().sum::<f32>() / (n as f32);

    let kahan_error = (kahan_mean - expected).abs();
    let naive_error = (naive_mean - expected).abs();
    assert!(
        kahan_error < naive_error * 0.5,
        "Kahan error ({:.2e}) should be <50% of naive error ({:.2e})",
        kahan_error,
        naive_error
    );

    assert!((kahan_mean - expected).abs() <= 5e-5);
}

#[test]
fn maintains_precision_at_scale() {
    let n = 1_000_000;
    let small = 1e-10_f64;
    let data: Vec<f64> = vec![small; n];

    let got = mean64(&data);
    let diff = (got - small).abs();
    assert!(diff <= 1e-13 || diff <= 1e-13 * got.abs().max(small.abs()));
}

#[test]
fn symmetric_distribution_yields_zero_mean() {
    let data: Vec<f64> = (-1000..=1000).map(|x| x as f64 * 0.123456789).collect();
    assert!((mean64(&data) - 0.0).abs() <= 1e-10);
}

#[test]
fn mean_of_one_to_five_is_exactly_three() {
    assert_eq!(mean64(&[1.0, 2.0, 3.0, 4.0, 5.0]), 3.0);
    assert_eq!(mean32(&[1.0, 2.0, 3.0, 4.0, 5.0]), 3.0);
}

#[test]
fn mean_of_a_sample_matches_mean_of_its_vector() {
    let values = wrap64(&[2.0, 4.0, 9.0]);
    let from_vec: R64 = Mean.compute(&values);
    let sample = Sample::new(values);
    let from_sample: R64 = sample.estimate(Mean);
    assert_eq!(from_vec.0.to_bits(), from_sample.0.to_bits());
    assert_eq!(from_sample.0, 5.0);
}

#[test]
fn mean_rank_orders_like_the_numbers() {
    let values = [-f64::INFINITY, -2.5, -0.0, 0.0, 1e-300, 3.0, f64::INFINITY];
    for a in values {
        for b in values {
            assert_eq!(R64(a).rank() < R64(b).rank(), a < b);
            assert_eq!(R64(a).rank() == R64(b).rank(), a == b);
        }
    }
}
