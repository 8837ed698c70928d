use crate::scalar::Real;
use crate::statistics::basic::moments::{
    central_moment, central_sum, correct_fourth, correct_third, count_offset_vanishes,
    offsets_vanish, unbiased_fourth, unbiased_third,
};
use crate::statistics::mean::mean_of_slice;
use crate::statistics::{Observations, Statistic};
use vstd::prelude::*;

verus! {

/// The third cumulant, the numerator of the skewness.
#[derive(Debug, Clone, Copy)]
pub struct ThirdCumulant {
    pub unbiased: bool,
}

/// The fourth cumulant, the numerator of the excess kurtosis.
#[derive(Debug, Clone, Copy)]
pub struct FourthCumulant {
    pub unbiased: bool,
}

/// The third cumulant of `data`. Undefined ("not a number") for fewer than
/// two observations, and in the bias-corrected form for fewer than three;
/// otherwise the third central moment, bias-corrected on request.
pub open spec fn third_cumulant_of<T: Real>(data: Seq<T>, unbiased: bool) -> T {
    let n = data.len() as usize;
    if (n < 3 && unbiased) || n < 2 {
        T::nan_spec()
    } else if !unbiased {
        central_moment(data, 3)
    } else if count_offset_vanishes::<T>(n, 2) {
        T::nan_spec()
    } else {
        unbiased_third(central_moment(data, 3), n)
    }
}

/// The fourth cumulant of `data`. Undefined ("not a number") for fewer than
/// two observations, and in the bias-corrected form for fewer than four;
/// otherwise `m4 - 3 m2^2`, or its bias-corrected form on request.
pub open spec fn fourth_cumulant_of<T: Real>(data: Seq<T>, unbiased: bool) -> T {
    let n = data.len() as usize;
    let m2 = central_moment(data, 2);
    let m4 = central_moment(data, 4);
    if (n < 4 && unbiased) || n < 2 {
        T::nan_spec()
    } else if !unbiased {
        m4.minus_spec(T::from_usize_spec(3).times_spec(m2).times_spec(m2))
    } else if count_offset_vanishes::<T>(n, 3) {
        T::nan_spec()
    } else {
        unbiased_fourth(m2, m4, n)
    }
}

/// The third cumulant of a slice.
pub fn third_cumulant_of_slice<T: Real>(data: &[T], unbiased: bool) -> (out: T)
    ensures
        out == third_cumulant_of(data@, unbiased),
        data@.len() < 2 || (unbiased && data@.len() < 3) ==> out.is_nan_spec(),
{
    let n: usize = data.len();
    if (n < 3 && unbiased) || n < 2 {
        return T::nan();
    }
    let n_f: T = T::from_usize(n);
    let mean: T = mean_of_slice(data);
    let m3: T = central_sum(data, mean, 3).over(n_f);
    if unbiased {
        if offsets_vanish::<T>(n, 2) {
            return T::nan();
        }
        correct_third(m3, n)
    } else {
        m3
    }
}

/// The fourth cumulant of a slice.
pub fn fourth_cumulant_of_slice<T: Real>(data: &[T], unbiased: bool) -> (out: T)
    ensures
        out == fourth_cumulant_of(data@, unbiased),
        data@.len() < 2 || (unbiased && data@.len() < 4) ==> out.is_nan_spec(),
{
    let n: usize = data.len();
    if (n < 4 && unbiased) || n < 2 {
        return T::nan();
    }
    let n_f: T = T::from_usize(n);
    let mean: T = mean_of_slice(data);
    let m2: T = central_sum(data, mean, 2).over(n_f);
    let m4: T = central_sum(data, mean, 4).over(n_f);
    if unbiased {
        if offsets_vanish::<T>(n, 3) {
            return T::nan();
        }
        correct_fourth(m2, m4, n)
    } else {
        m4.minus(T::from_usize(3).times(m2).times(m2))
    }
}

impl ThirdCumulant {
    /// The estimator in the bias-corrected form, or not.
    pub fn new(unbiased: bool) -> (c: Self)
        ensures
            c.unbiased == unbiased,
    {
        ThirdCumulant { unbiased }
    }

    /// The estimator in the bias-corrected form.
    pub fn unbiased() -> (c: Self)
        ensures
            c.unbiased,
    {
        ThirdCumulant { unbiased: true }
    }
}

impl Default for ThirdCumulant {
    /// The bias-corrected form.
    fn default() -> (c: Self)
        ensures
            c.unbiased,
    {
        ThirdCumulant { unbiased: true }
    }
}

impl FourthCumulant {
    /// The estimator in the bias-corrected form, or not.
    pub fn new(unbiased: bool) -> (c: Self)
        ensures
            c.unbiased == unbiased,
    {
        FourthCumulant { unbiased }
    }

    /// The estimator in the bias-corrected form.
    pub fn unbiased() -> (c: Self)
        ensures
            c.unbiased,
    {
        FourthCumulant { unbiased: true }
    }
}

impl Default for FourthCumulant {
    /// The bias-corrected form.
    fn default() -> (c: Self)
        ensures
            c.unbiased,
    {
        FourthCumulant { unbiased: true }
    }
}

impl<D: Observations<T>, T: Real> Statistic<D, T> for ThirdCumulant {
    open spec fn accepts(&self, data: &D) -> bool {
        true
    }

    open spec fn admits(&self, data: &D, out: T) -> bool {
        out == third_cumulant_of(data.values(), self.unbiased)
    }

    fn compute(&self, data: &D) -> (out: T) {
        third_cumulant_of_slice(data.as_slice(), self.unbiased)
    }
}

impl<D: Observations<T>, T: Real> Statistic<D, T> for FourthCumulant {
    open spec fn accepts(&self, data: &D) -> bool {
        true
    }

    open spec fn admits(&self, data: &D, out: T) -> bool {
        out == fourth_cumulant_of(data.values(), self.unbiased)
    }

    fn compute(&self, data: &D) -> (out: T) {
        fourth_cumulant_of_slice(data.as_slice(), self.unbiased)
    }
}

} // verus!
