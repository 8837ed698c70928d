use crate::scalar::{is_zero, Real};
use crate::statistics::basic::moments::{
    central_moment, central_sum, count_offset_vanishes, offsets_vanish, third_correction,
};
use crate::statistics::mean::mean_of_slice;
use crate::statistics::{Observations, Statistic};
use vstd::prelude::*;

verus! {

/// The skewness, the third cumulant standardized by the second:
/// `k3 / k2^(3/2)`.
#[derive(Debug, Clone, Copy)]
pub struct Skewness {
    pub unbiased: bool,
}

/// The bias-corrected variance from the second central moment `m2` of `n`
/// observations: `n / (n - 1) * m2`.
pub open spec fn unbiased_second<T: Real>(m2: T, n: usize) -> T {
    let n_f = T::from_usize_spec(n);
    n_f.over_spec(n_f.minus_spec(T::one_spec())).times_spec(m2)
}

/// `numerator / scale^(3/2)`, undefined where the denominator is zero.
pub open spec fn standardized_third<T: Real>(numerator: T, scale: T) -> T {
    let denom = scale.sqrt_spec().powi_spec(3);
    if is_zero(denom) {
        T::nan_spec()
    } else {
        numerator.over_spec(denom)
    }
}

/// The skewness of `data`. Undefined ("not a number") for fewer than two
/// observations, in the bias-corrected form for fewer than three, and where
/// the standardizing denominator is zero.
pub open spec fn skewness_of<T: Real>(data: Seq<T>, unbiased: bool) -> T {
    let n = data.len() as usize;
    let m2 = central_moment(data, 2);
    let m3 = central_moment(data, 3);
    if (n < 3 && unbiased) || n < 2 {
        T::nan_spec()
    } else if !unbiased {
        standardized_third(m3, m2)
    } else if count_offset_vanishes::<T>(n, 2) {
        T::nan_spec()
    } else {
        standardized_third(third_correction::<T>(n).times_spec(m3), unbiased_second(m2, n))
    }
}

/// The bias-corrected variance from the second central moment.
pub fn correct_second<T: Real>(m2: T, n: usize) -> (out: T)
    ensures
        out == unbiased_second(m2, n),
{
    let n_f: T = T::from_usize(n);
    n_f.over(n_f.minus(T::one())).times(m2)
}

/// `numerator / scale^(3/2)`, or "not a number" where the denominator is
/// zero.
pub fn standardize_third<T: Real>(numerator: T, scale: T) -> (out: T)
    ensures
        out == standardized_third(numerator, scale),
{
    let denom: T = scale.sqrt().powi(3);
    if denom.same(T::zero()) {
        T::nan()
    } else {
        numerator.over(denom)
    }
}

/// The skewness of a slice.
pub fn skewness_of_slice<T: Real>(data: &[T], unbiased: bool) -> (out: T)
    ensures
        out == skewness_of(data@, unbiased),
        data@.len() < 2 || (unbiased && data@.len() < 3) ==> out.is_nan_spec(),
{
    let n: usize = data.len();
    if (n < 3 && unbiased) || n < 2 {
        return T::nan();
    }
    let n_f: T = T::from_usize(n);
    let mean: T = mean_of_slice(data);
    let m2: T = central_sum(data, mean, 2).over(n_f);
    let m3: T = central_sum(data, mean, 3).over(n_f);
    if unbiased {
        if offsets_vanish::<T>(n, 2) {
            return T::nan();
        }
        let n1: T = n_f.minus(T::one());
        let n2: T = n_f.minus(T::from_usize(2));
        let k2: T = correct_second(m2, n);
        let k3: T = n_f.times(n_f).over(n1.times(n2)).times(m3);
        standardize_third(k3, k2)
    } else {
        standardize_third(m3, m2)
    }
}

impl Skewness {
    /// The estimator in the bias-corrected form, or not.
    pub fn new(unbiased: bool) -> (s: Self)
        ensures
            s.unbiased == unbiased,
    {
        Skewness { unbiased }
    }

    /// The estimator in the bias-corrected form.
    pub fn unbiased() -> (s: Self)
        ensures
            s.unbiased,
    {
        Skewness { unbiased: true }
    }
}

impl Default for Skewness {
    /// The bias-corrected form.
    fn default() -> (s: Self)
        ensures
            s.unbiased,
    {
        Skewness { unbiased: true }
    }
}

impl<D: Observations<T>, T: Real> Statistic<D, T> for Skewness {
    open spec fn accepts(&self, data: &D) -> bool {
        true
    }

    open spec fn admits(&self, data: &D, out: T) -> bool {
        out == skewness_of(data.values(), self.unbiased)
    }

    fn compute(&self, data: &D) -> (out: T) {
        skewness_of_slice(data.as_slice(), self.unbiased)
    }
}

} // verus!
