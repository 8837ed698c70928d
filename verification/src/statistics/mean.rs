use crate::scalar::Real;
use crate::statistics::summation::{
    compensated_sum, lemma_sum_unfolds, recip, recip_spec, Accumulator,
};
use crate::statistics::{Observations, Statistic};
use vstd::prelude::*;

verus! {

/// The arithmetic mean, accumulated by compensated summation so that the
/// rounding error does not grow with the number of observations.
#[derive(Clone, Copy, Default)]
pub struct Mean;

/// The mean of `data`: "not a number" for no data, and otherwise the
/// compensated sum times the reciprocal of the count.
pub open spec fn mean_of<T: Real>(data: Seq<T>) -> T {
    if data.len() == 0 {
        T::nan_spec()
    } else {
        compensated_sum(data).0.times_spec(recip_spec(T::from_usize_spec(data.len() as usize)))
    }
}

/// The mean of a slice.
pub fn mean_of_slice<T: Real>(data: &[T]) -> (out: T)
    ensures
        out == mean_of(data@),
        data@.len() == 0 ==> out.is_nan_spec(),
{
    let n: usize = data.len();
    if n == 0 {
        return T::nan();
    }
    let mut acc: Accumulator<T> = Accumulator::new();
    let mut i: usize = 0;
    assert(data@.take(0) == Seq::<T>::empty());
    while i < n
        invariant
            n == data@.len(),
            i <= n,
            (acc.sum, acc.compensation) == compensated_sum(data@.take(i as int)),
        decreases n - i,
    {
        proof {
            lemma_sum_unfolds(data@, i as int);
        }
        acc.push(data[i]);
        i += 1;
    }
    assert(data@.take(n as int) == data@);
    acc.sum.times(recip(T::from_usize(n)))
}

impl<D: Observations<T>, T: Real> Statistic<D, T> for Mean {
    open spec fn accepts(&self, data: &D) -> bool {
        true
    }

    open spec fn admits(&self, data: &D, out: T) -> bool {
        out == mean_of(data.values())
    }

    fn compute(&self, data: &D) -> (out: T) {
        mean_of_slice(data.as_slice())
    }
}

} // verus!
