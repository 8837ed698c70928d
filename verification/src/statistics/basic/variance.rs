use crate::scalar::Real;
use crate::statistics::mean::{mean_of, mean_of_slice};
use crate::statistics::summation::{compensated_sum, lemma_sum_unfolds, square_spec, Accumulator};
use crate::statistics::{Observations, Statistic};
use vstd::prelude::*;

verus! {

/// The variance with `ddof` delta degrees of freedom: 0 for the population
/// variance, 1 for the sample variance.
#[derive(Debug, Clone, Copy)]
pub struct Variance {
    pub ddof: usize,
}

/// The squared deviations of `data` from `center`, in order.
pub open spec fn squared_deviations<T: Real>(data: Seq<T>, center: T) -> Seq<T> {
    Seq::new(data.len(), |i: int| square_spec(data[i].minus_spec(center)))
}

/// The variance of `data`: "not a number" for fewer than two observations,
/// and otherwise the compensated sum of the squared deviations from the mean
/// over the count less `ddof`.
pub open spec fn variance_of<T: Real>(data: Seq<T>, ddof: usize) -> T {
    if data.len() < 2 {
        T::nan_spec()
    } else {
        compensated_sum(squared_deviations(data, mean_of(data))).0.over_spec(
            T::from_usize_spec((data.len() - ddof) as usize),
        )
    }
}

/// The variance of a slice.
pub fn variance_of_slice<T: Real>(data: &[T], ddof: usize) -> (out: T)
    requires
        data@.len() < 2 || ddof <= data@.len(),
    ensures
        out == variance_of(data@, ddof),
        data@.len() < 2 ==> out.is_nan_spec(),
{
    let n: usize = data.len();
    if n < 2 {
        return T::nan();
    }
    let mean: T = mean_of_slice(data);
    let ghost terms = squared_deviations(data@, mean);
    let mut acc: Accumulator<T> = Accumulator::new();
    let mut i: usize = 0;
    assert(terms.take(0) == Seq::<T>::empty());
    while i < n
        invariant
            n == data@.len(),
            i <= n,
            terms == squared_deviations(data@, mean),
            (acc.sum, acc.compensation) == compensated_sum(terms.take(i as int)),
        decreases n - i,
    {
        proof {
            lemma_sum_unfolds(terms, i as int);
        }
        let dev: T = data[i].minus(mean);
        acc.push(dev.times(dev));
        i += 1;
    }
    assert(terms.take(n as int) == terms);
    acc.sum.over(T::from_usize(n - ddof))
}

impl Variance {
    /// The variance with the given delta degrees of freedom.
    pub fn new(ddof: usize) -> (v: Self)
        ensures
            v.ddof == ddof,
    {
        Variance { ddof }
    }
}

impl Default for Variance {
    /// The sample variance.
    fn default() -> (v: Self)
        ensures
            v.ddof == 1,
    {
        Variance { ddof: 1 }
    }
}

impl<D: Observations<T>, T: Real> Statistic<D, T> for Variance {
    open spec fn accepts(&self, data: &D) -> bool {
        data.values().len() < 2 || self.ddof <= data.values().len()
    }

    open spec fn admits(&self, data: &D, out: T) -> bool {
        out == variance_of(data.values(), self.ddof)
    }

    fn compute(&self, data: &D) -> (out: T) {
        variance_of_slice(data.as_slice(), self.ddof)
    }
}

} // verus!
