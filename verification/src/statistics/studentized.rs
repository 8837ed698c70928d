use crate::scalar::{equals, Real};
use crate::statistics::Statistic;
use vstd::prelude::*;

verus! {

/// The studentized statistic `t = (estimate - null_value) / SE(estimate)`.
#[derive(Debug, Clone, Copy)]
pub struct Studentized<Estimator, SEE, T> {
    pub statistic: Estimator,
    pub se: SEE,
    pub null_value: T,
}

/// The ratio `(estimate - null_value) / se`, undefined where the standard
/// error is zero or either operand is "not a number".
pub open spec fn studentized_ratio<T: Real>(estimate: T, se: T, null_value: T) -> T {
    if equals(se, T::zero_spec()) || estimate.is_nan_spec() || se.is_nan_spec() {
        T::nan_spec()
    } else {
        estimate.minus_spec(null_value).over_spec(se)
    }
}

/// The ratio `(estimate - null_value) / se`, or "not a number" where the
/// standard error is zero or either operand is "not a number".
pub fn studentize<T: Real>(estimate: T, se: T, null_value: T) -> (out: T)
    ensures
        out == studentized_ratio(estimate, se, null_value),
        equals(se, T::zero_spec()) || estimate.is_nan_spec() || se.is_nan_spec()
            ==> out.is_nan_spec(),
{
    if se.same(T::zero()) || estimate.is_nan() || se.is_nan() {
        T::nan()
    } else {
        estimate.minus(null_value).over(se)
    }
}

impl<Estimator, SEE, T> Studentized<Estimator, SEE, T> {
    /// The studentized form of `statistic` against `null_value`, with `se`
    /// as the estimator of its standard error.
    pub fn new(statistic: Estimator, se: SEE, null_value: T) -> (s: Self)
        ensures
            s.statistic == statistic,
            s.se == se,
            s.null_value == null_value,
    {
        Studentized { statistic, se, null_value }
    }
}

impl<D, T: Real, Estimator: Statistic<D, T>, SEE: Statistic<D, T>> Statistic<D, T> for Studentized<
    Estimator,
    SEE,
    T,
> {
    open spec fn accepts(&self, data: &D) -> bool {
        self.statistic.accepts(data) && self.se.accepts(data)
    }

    /// The ratio of some estimate and some standard error that the two
    /// parts may give on the data.
    open spec fn admits(&self, data: &D, out: T) -> bool {
        exists|estimate: T, se: T|
            {
                &&& self.statistic.admits(data, estimate)
                &&& self.se.admits(data, se)
                &&& out == #[trigger] studentized_ratio(estimate, se, self.null_value)
            }
    }

    fn compute(&self, data: &D) -> (out: T) {
        let estimate: T = self.statistic.compute(data);
        let se_val: T = self.se.compute(data);
        studentize(estimate, se_val, self.null_value)
    }
}

} // verus!
