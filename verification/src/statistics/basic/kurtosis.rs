use crate::scalar::{is_zero, Real};
use crate::statistics::basic::moments::{
    central_moment, central_sum, correct_fourth, count_offset_vanishes, offsets_vanish,
    unbiased_fourth,
};
use crate::statistics::basic::skewness::{correct_second, unbiased_second};
use crate::statistics::mean::mean_of_slice;
use crate::statistics::{Observations, Statistic};
use vstd::prelude::*;

verus! {

/// The excess kurtosis, the fourth cumulant standardized by the second:
/// `k4 / k2^2`, zero for a normal distribution.
#[derive(Debug, Clone, Copy)]
pub struct Kurtosis {
    pub unbiased: bool,
}

/// `numerator / scale^2`, undefined where the denominator is zero.
pub open spec fn standardized_fourth<T: Real>(numerator: T, scale: T) -> T {
    let denom = scale.times_spec(scale);
    if is_zero(denom) {
        T::nan_spec()
    } else {
        numerator.over_spec(denom)
    }
}

/// The excess kurtosis of `data`. Undefined ("not a number") for fewer than
/// two observations and, in the bias-corrected form, for fewer than four or
/// a zero denominator. The uncorrected form is `m4 / m2^2 - 3`.
pub open spec fn kurtosis_of<T: Real>(data: Seq<T>, unbiased: bool) -> T {
    let n = data.len() as usize;
    let m2 = central_moment(data, 2);
    let m4 = central_moment(data, 4);
    if (n < 4 && unbiased) || n < 2 {
        T::nan_spec()
    } else if !unbiased {
        m4.over_spec(m2.times_spec(m2)).minus_spec(T::from_usize_spec(3))
    } else if count_offset_vanishes::<T>(n, 3) {
        T::nan_spec()
    } else {
        standardized_fourth(unbiased_fourth(m2, m4, n), unbiased_second(m2, n))
    }
}

/// `numerator / scale^2`, or "not a number" where the denominator is zero.
pub fn standardize_fourth<T: Real>(numerator: T, scale: T) -> (out: T)
    ensures
        out == standardized_fourth(numerator, scale),
{
    let denom: T = scale.times(scale);
    if denom.same(T::zero()) {
        T::nan()
    } else {
        numerator.over(denom)
    }
}

/// The excess kurtosis of a slice.
pub fn kurtosis_of_slice<T: Real>(data: &[T], unbiased: bool) -> (out: T)
    ensures
        out == kurtosis_of(data@, unbiased),
        data@.len() < 2 || (unbiased && data@.len() < 4) ==> out.is_nan_spec(),
{
    let n: usize = data.len();
    if (n < 4 && unbiased) || n < 2 {
        return T::nan();
    }
    let n_f: T = T::from_usize(n);
    let mean: T = mean_of_slice(data);
    let m2: T = central_sum(data, mean, 2).over(n_f);
    let m4: T = central_sum(data, mean, 4).over(n_f);
    if unbiased {
        if offsets_vanish::<T>(n, 3) {
            return T::nan();
        }
        let k2: T = correct_second(m2, n);
        let k4: T = correct_fourth(m2, m4, n);
        standardize_fourth(k4, k2)
    } else {
        m4.over(m2.times(m2)).minus(T::from_usize(3))
    }
}

impl Kurtosis {
    /// The estimator in the bias-corrected form, or not.
    pub fn new(unbiased: bool) -> (k: Self)
        ensures
            k.unbiased == unbiased,
    {
        Kurtosis { unbiased }
    }

    /// The estimator in the bias-corrected form.
    pub fn unbiased() -> (k: Self)
        ensures
            k.unbiased,
    {
        Kurtosis { unbiased: true }
    }
}

impl Default for Kurtosis {
    /// The bias-corrected form.
    fn default() -> (k: Self)
        ensures
            k.unbiased,
    {
        Kurtosis { unbiased: true }
    }
}

impl<D: Observations<T>, T: Real> Statistic<D, T> for Kurtosis {
    open spec fn accepts(&self, data: &D) -> bool {
        true
    }

    open spec fn admits(&self, data: &D, out: T) -> bool {
        out == kurtosis_of(data.values(), self.unbiased)
    }

    fn compute(&self, data: &D) -> (out: T) {
        kurtosis_of_slice(data.as_slice(), self.unbiased)
    }
}

} // verus!
