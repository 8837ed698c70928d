use crate::scalar::{equals, Real};
use crate::statistics::basic::cumulant::{
    fourth_cumulant_of, third_cumulant_of, FourthCumulant, ThirdCumulant,
};
use crate::statistics::basic::kurtosis::{kurtosis_of, Kurtosis};
use crate::statistics::basic::skewness::{skewness_of, Skewness};
use crate::statistics::basic::variance::{variance_of, Variance};
use crate::statistics::mean::{mean_of, Mean};
use crate::statistics::se::{standard_error_of_mean, SEMean};
use crate::statistics::studentized::studentized_ratio;
use crate::statistics::{Observations, Statistic};
use vstd::prelude::*;

verus! {

/// The estimators that draw no random numbers are functions of the data:
/// whatever two runs of one of them give on the same data is the same value.
pub proof fn lemma_estimators_are_functions<D: Observations<T>, T: Real>(
    data: &D,
    ddof: usize,
    unbiased: bool,
    first: T,
    second: T,
)
    ensures
        Mean.admits(data, first) && Mean.admits(data, second) ==> first == second,
        (Variance { ddof }).admits(data, first) && (Variance { ddof }).admits(data, second)
            ==> first == second,
        (ThirdCumulant { unbiased }).admits(data, first) && (ThirdCumulant { unbiased }).admits(
            data,
            second,
        ) ==> first == second,
        (FourthCumulant { unbiased }).admits(data, first) && (FourthCumulant { unbiased }).admits(
            data,
            second,
        ) ==> first == second,
        (Skewness { unbiased }).admits(data, first) && (Skewness { unbiased }).admits(data, second)
            ==> first == second,
        (Kurtosis { unbiased }).admits(data, first) && (Kurtosis { unbiased }).admits(data, second)
            ==> first == second,
        (SEMean { variance: Variance { ddof } }).admits(data, first) && (SEMean {
            variance: Variance { ddof },
        }).admits(data, second) ==> first == second,
{
}

/// Where a statistic is not defined its value is "not a number": the mean
/// of nothing; the variance and the standard error of the mean of fewer than
/// two observations; the third cumulant and the skewness of fewer than two
/// observations, and of fewer than three in the bias-corrected form; the
/// fourth cumulant and the kurtosis of fewer than two, and of fewer than four
/// in the bias-corrected form; the studentized ratio with a standard error
/// of zero or with an operand that is "not a number".
pub proof fn lemma_undefined_is_not_a_number<T: Real>(
    data: Seq<T>,
    ddof: usize,
    unbiased: bool,
    estimate: T,
    se: T,
    null_value: T,
)
    ensures
        data.len() == 0 ==> mean_of(data).is_nan_spec(),
        data.len() < 2 ==> variance_of(data, ddof).is_nan_spec(),
        data.len() < 2 ==> standard_error_of_mean(data, ddof).is_nan_spec(),
        data.len() < 2 || (unbiased && data.len() < 3) ==> third_cumulant_of(
            data,
            unbiased,
        ).is_nan_spec() && skewness_of(data, unbiased).is_nan_spec(),
        data.len() < 2 || (unbiased && data.len() < 4) ==> fourth_cumulant_of(
            data,
            unbiased,
        ).is_nan_spec() && kurtosis_of(data, unbiased).is_nan_spec(),
        equals(se, T::zero_spec()) || estimate.is_nan_spec() || se.is_nan_spec()
            ==> studentized_ratio(estimate, se, null_value).is_nan_spec(),
{
    T::constants_are_as_named();
}

} // verus!
