use crate::scalar::Real;
use vstd::prelude::*;

verus! {

/// One step of compensated summation: the running sum and the running
/// compensation after `x` has been taken in.
pub open spec fn compensated_step<T: Real>(acc: (T, T), x: T) -> (T, T) {
    let y = x.minus_spec(acc.1);
    let t = acc.0.plus_spec(y);
    (t, t.minus_spec(acc.0).minus_spec(y))
}

/// Compensated (Kahan) summation of `terms`, left to right: the sum and the
/// compensation that is left over.
pub open spec fn compensated_sum<T: Real>(terms: Seq<T>) -> (T, T)
    decreases terms.len(),
{
    if terms.len() == 0 {
        (T::zero_spec(), T::zero_spec())
    } else {
        compensated_step(compensated_sum(terms.drop_last()), terms.last())
    }
}

/// The reciprocal `1 / x`.
pub open spec fn recip_spec<T: Real>(x: T) -> T {
    T::one_spec().over_spec(x)
}

/// The square `x * x`.
pub open spec fn square_spec<T: Real>(x: T) -> T {
    x.times_spec(x)
}

/// Summing one more term is one more step.
pub proof fn lemma_sum_unfolds<T: Real>(terms: Seq<T>, i: int)
    requires
        0 <= i < terms.len(),
    ensures
        compensated_sum(terms.take(i + 1)) == compensated_step(
            compensated_sum(terms.take(i)),
            terms[i],
        ),
{
    assert(terms.take(i + 1).drop_last() == terms.take(i));
}

/// A running compensated sum.
pub struct Accumulator<T> {
    pub sum: T,
    pub compensation: T,
}

impl<T: Real> Accumulator<T> {
    /// The sum of no terms.
    pub fn new() -> (acc: Self)
        ensures
            (acc.sum, acc.compensation) == compensated_sum(Seq::<T>::empty()),
    {
        Accumulator { sum: T::zero(), compensation: T::zero() }
    }

    /// Takes in one more term.
    pub fn push(&mut self, x: T)
        ensures
            (final(self).sum, final(self).compensation) == compensated_step(
                (old(self).sum, old(self).compensation),
                x,
            ),
    {
        let y: T = x.minus(self.compensation);
        let t: T = self.sum.plus(y);
        self.compensation = t.minus(self.sum).minus(y);
        self.sum = t;
    }
}

/// The reciprocal `1 / x`.
pub fn recip<T: Real>(x: T) -> (r: T)
    ensures
        r == recip_spec(x),
{
    T::one().over(x)
}

} // verus!
