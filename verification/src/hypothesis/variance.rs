use crate::hypothesis::mean::{shift, shifted};
use crate::hypothesis::permutation::{
    extreme_count, extreme_count_spec, half, p_value, p_value_spec, permutations_for,
    permutations_for_spec, TestResult,
};
use crate::scalar::below;
use crate::random::entropy_generator;
use crate::resample::flipper::{flips_of, Flip, Flipper, SignBitFlip};
use crate::sample::Sample;
use crate::scalar::Real;
use crate::statistics::basic::variance::{variance_of, variance_of_slice};
use crate::statistics::mean::{mean_of, mean_of_slice};
use crate::statistics::{Observations, Statistic};
use rand::rngs::StdRng;
use vstd::prelude::*;

verus! {

/// The permutation test of the hypothesis that the population variance is
/// `null_variance`: the data are centred on their mean, their signs are
/// flipped at random `n_permutations` times, and the p-value is the share of
/// flipped samples whose variance is at least as far from `null_variance`
/// as the observed one.
#[derive(Debug, Clone, Copy)]
pub struct VarianceTest<F> {
    pub null_variance: F,
    pub n_permutations: usize,
}

/// How far the sample variance of `data` is from `null_variance`.
pub open spec fn variance_deviation<F: Real>(data: Seq<F>, null_variance: F) -> F {
    variance_of(data, 1).minus_spec(null_variance).abs_spec()
}

/// `value` is the deviation of the variance of some sign-flipped copy of
/// `centered` from `null_variance`.
pub open spec fn is_flipped_deviation<F: Real>(centered: Seq<F>, null_variance: F, value: F) -> bool where
    SignBitFlip: Flip<F>,
 {
    exists|r: Seq<F>| #[trigger]
        flips_of(r, centered, SignBitFlip) && value == variance_deviation(r, null_variance)
}

/// Each of `reference` is the deviation of the variance of some
/// sign-flipped copy of `centered` from `null_variance`.
pub open spec fn flipped_deviations<F: Real>(
    centered: Seq<F>,
    null_variance: F,
    reference: Seq<F>,
) -> bool where SignBitFlip: Flip<F> {
    forall|i: int|
        0 <= i < reference.len() ==> is_flipped_deviation(
            centered,
            null_variance,
            #[trigger] reference[i],
        )
}

/// What the test may report on `data`. For fewer than two observations: the
/// p-value one and an undefined statistic. Otherwise the statistic is the
/// sample variance of the data centred on their mean, and the p-value is
/// `(extreme + 1) / (n_permutations + 1)`, where `extreme` counts, among
/// `n_permutations` flipped samples, those whose variance deviates from
/// `null_variance` at least as much as the statistic does.
pub open spec fn variance_test_outcome<F: Real>(
    null_variance: F,
    n_permutations: usize,
    data: Seq<F>,
    out: TestResult<F>,
) -> bool where SignBitFlip: Flip<F> {
    if data.len() < 2 {
        out.p_value == F::one_spec() && out.observed_statistic == F::nan_spec()
    } else {
        let centered = shifted(data, mean_of(data));
        &&& out.observed_statistic == variance_of(centered, 1)
        &&& exists|reference: Seq<F>|
            {
                &&& #[trigger] flipped_deviations(centered, null_variance, reference)
                &&& reference.len() == n_permutations
                &&& out.p_value == p_value_spec::<F>(
                    extreme_count_spec(variance_deviation(centered, null_variance), reference)
                        as usize,
                    n_permutations,
                )
            }
    }
}

impl<F: Real> VarianceTest<F> {
    /// The test against `null_variance` with `n_permutations` sign flips.
    pub fn new(null_variance: F, n_permutations: usize) -> (t: Self)
        requires
            n_permutations > 0,
        ensures
            t.null_variance == null_variance,
            t.n_permutations == n_permutations,
    {
        VarianceTest { null_variance, n_permutations }
    }

    /// The test against `null_variance` with as many sign flips as estimate
    /// the p-value to within `accuracy`, where `z` is the standard normal
    /// quantile of the confidence asked for.
    pub fn from_absolute_accuracy(null_variance: F, accuracy: F, z: F) -> (t: Self)
        requires
            below(F::zero_spec(), accuracy),
            below(accuracy, half::<F>()),
        ensures
            t.null_variance == null_variance,
            t.n_permutations == permutations_for_spec(z, accuracy),
    {
        VarianceTest { null_variance, n_permutations: permutations_for(z, accuracy) }
    }

    /// Runs the test with the sign flips driven by `rng`.
    pub fn compute_with<D: Observations<F>>(&self, data: &D, rng: StdRng) -> (out: TestResult<
        F,
    >) where SignBitFlip: Flip<F>
        requires
            self.n_permutations < usize::MAX,
            forall|x: F| SignBitFlip.accepts(x),
        ensures
            variance_test_outcome(self.null_variance, self.n_permutations, data.values(), out),
    {
        let slice = data.as_slice();
        if slice.len() < 2 {
            return TestResult { p_value: F::one(), observed_statistic: F::nan() };
        }
        let sample_mean: F = mean_of_slice(slice);
        let centered: Sample<F> = Sample::new(shift(slice, sample_mean));
        let observed_var: F = variance_of_slice(centered.as_slice(), 1);
        let observed_deviation: F = observed_var.minus(self.null_variance).abs();
        let flipper = Flipper::sign(rng);
        let mut stream = flipper.re(&centered);
        let mut reference: Vec<F> = Vec::new();
        let mut count: usize = 0;
        while count < self.n_permutations
            invariant
                count <= self.n_permutations,
                reference@.len() == count,
                centered@.len() >= 2,
                stream.source() == centered@,
                stream.rule() == SignBitFlip,
                flipped_deviations(centered@, self.null_variance, reference@),
            decreases self.n_permutations - count,
        {
            let pulled = stream.next();
            let resample: Sample<F> = pulled.unwrap();
            let var: F = variance_of_slice(resample.as_slice(), 1);
            let deviation: F = var.minus(self.null_variance).abs();
            let ghost before = reference@;
            reference.push(deviation);
            assert forall|i: int| 0 <= i < reference@.len() implies is_flipped_deviation(
                centered@,
                self.null_variance,
                #[trigger] reference@[i],
            ) by {
                if i < before.len() {
                    assert(reference@[i] == before[i]);
                } else {
                    assert(flips_of(resample@, centered@, SignBitFlip) && reference@[i]
                        == variance_deviation(resample@, self.null_variance));
                }
            }
            count += 1;
        }
        let extreme: usize = extreme_count(observed_deviation, reference.as_slice());
        let p: F = p_value(extreme, self.n_permutations);
        TestResult { p_value: p, observed_statistic: observed_var }
    }
}

impl<D: Observations<F>, F: Real> Statistic<D, TestResult<F>> for VarianceTest<F> where
    SignBitFlip: Flip<F>,
 {
    /// The count of permutations must leave room for the continuity
    /// correction, and sign flipping must apply to every value.
    open spec fn accepts(&self, data: &D) -> bool {
        self.n_permutations < usize::MAX && forall|x: F| SignBitFlip.accepts(x)
    }

    open spec fn admits(&self, data: &D, out: TestResult<F>) -> bool {
        variance_test_outcome(self.null_variance, self.n_permutations, data.values(), out)
    }

    /// Runs the test with sign flips from a generator seeded by the
    /// operating system, and fails as that seeding does where the system
    /// has no entropy to give; `compute_with` takes a generator instead.
    fn compute(&self, data: &D) -> (out: TestResult<F>) {
        self.compute_with(data, entropy_generator())
    }
}

} // verus!
