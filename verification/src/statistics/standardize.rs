use crate::hypothesis::mean::{shift, shifted};
use crate::scalar::Real;
use crate::statistics::basic::variance::{variance_of, variance_of_slice, Variance};
use crate::statistics::mean::{mean_of, mean_of_slice, Mean};
use crate::statistics::{Observations, Standardize};
use vstd::prelude::*;

verus! {

/// `data` with every entry divided by `by`.
pub open spec fn scaled<F: Real>(data: Seq<F>, by: F) -> Seq<F> {
    Seq::new(data.len(), |i: int| data[i].over_spec(by))
}

/// A copy of `data` with every entry divided by `by`.
pub fn scale<F: Real>(data: &[F], by: F) -> (out: Vec<F>)
    ensures
        out@ == scaled(data@, by),
{
    let n: usize = data.len();
    let mut out: Vec<F> = Vec::with_capacity(n);
    let mut i: usize = 0;
    while i < n
        invariant
            n == data@.len(),
            i <= n,
            out@ == scaled(data@, by).take(i as int),
        decreases n - i,
    {
        out.push(data[i].over(by));
        assert(out@ == scaled(data@, by).take(i + 1));
        i += 1;
    }
    assert(scaled(data@, by).take(n as int) == scaled(data@, by));
    out
}

impl<D: Observations<F>, F: Real> Standardize<D, F> for Mean {
    open spec fn accepts(&self, data: &D) -> bool {
        true
    }

    /// Every observation less the mean.
    open spec fn admits(&self, data: &D, out: D) -> bool {
        out.values() == shifted(data.values(), mean_of(data.values()))
    }

    fn standardize(&self, data: &D) -> (out: D) {
        let slice = data.as_slice();
        let mean: F = mean_of_slice(slice);
        D::from_vec(shift(slice, mean))
    }
}

impl<D: Observations<F>, F: Real> Standardize<D, F> for Variance {
    open spec fn accepts(&self, data: &D) -> bool {
        data.values().len() < 2 || self.ddof <= data.values().len()
    }

    /// Every observation over the square root of the variance.
    open spec fn admits(&self, data: &D, out: D) -> bool {
        out.values() == scaled(data.values(), variance_of(data.values(), self.ddof).sqrt_spec())
    }

    fn standardize(&self, data: &D) -> (out: D) {
        let slice = data.as_slice();
        let var: F = variance_of_slice(slice, self.ddof);
        D::from_vec(scale(slice, var.sqrt()))
    }
}

} // verus!
