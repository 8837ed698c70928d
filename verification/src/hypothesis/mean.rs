use crate::hypothesis::permutation::{
    extreme_count, extreme_count_spec, half, p_value, p_value_spec, permutations_for,
    permutations_for_spec, TestResult,
};
use crate::scalar::below;
use crate::random::entropy_generator;
use crate::resample::flipper::{flips_of, Flip, Flipper, SignBitFlip};
use crate::sample::Sample;
use crate::scalar::Real;
use crate::statistics::mean::{mean_of, mean_of_slice};
use crate::statistics::{Observations, Statistic};
use rand::rngs::StdRng;
use vstd::prelude::*;

verus! {

/// The permutation test of the hypothesis that the population mean is
/// `null_mean`: the data are centred on `null_mean`, their signs are flipped
/// at random `n_permutations` times, and the p-value is the share of flipped
/// samples whose mean is at least as far from zero as the observed one.
#[derive(Debug, Clone, Copy)]
pub struct MeanTest<F> {
    pub null_mean: F,
    pub n_permutations: usize,
}

/// `data` with `by` taken from every entry.
pub open spec fn shifted<F: Real>(data: Seq<F>, by: F) -> Seq<F> {
    Seq::new(data.len(), |i: int| data[i].minus_spec(by))
}

/// `value` is the magnitude of the mean of some sign-flipped copy of
/// `centered`.
pub open spec fn is_flipped_mean<F: Real>(centered: Seq<F>, value: F) -> bool where
    SignBitFlip: Flip<F>,
 {
    exists|r: Seq<F>| #[trigger]
        flips_of(r, centered, SignBitFlip) && value == mean_of(r).abs_spec()
}

/// Each of `reference` is the magnitude of the mean of some sign-flipped
/// copy of `centered`.
pub open spec fn flipped_means<F: Real>(centered: Seq<F>, reference: Seq<F>) -> bool where
    SignBitFlip: Flip<F>,
 {
    forall|i: int| 0 <= i < reference.len() ==> is_flipped_mean(centered, #[trigger] reference[i])
}

/// What the test may report on `data`. For no data: the p-value one and the
/// statistic zero. Otherwise the statistic is the mean of the centred data
/// and the p-value is `(extreme + 1) / (n_permutations + 1)`, where
/// `extreme` counts, among `n_permutations` flipped means, those at least as
/// far from zero as the statistic.
pub open spec fn mean_test_outcome<F: Real>(
    null_mean: F,
    n_permutations: usize,
    data: Seq<F>,
    out: TestResult<F>,
) -> bool where SignBitFlip: Flip<F> {
    if data.len() == 0 {
        out.p_value == F::one_spec() && out.observed_statistic == F::zero_spec()
    } else {
        let centered = shifted(data, null_mean);
        let observed = mean_of(centered);
        &&& out.observed_statistic == observed
        &&& exists|reference: Seq<F>|
            {
                &&& #[trigger] flipped_means(centered, reference)
                &&& reference.len() == n_permutations
                &&& out.p_value == p_value_spec::<F>(
                    extreme_count_spec(observed.abs_spec(), reference) as usize,
                    n_permutations,
                )
            }
    }
}

/// A copy of `data` with `by` taken from every entry.
pub fn shift<F: Real>(data: &[F], by: F) -> (out: Vec<F>)
    ensures
        out@ == shifted(data@, by),
{
    let n: usize = data.len();
    let mut out: Vec<F> = Vec::with_capacity(n);
    let mut i: usize = 0;
    while i < n
        invariant
            n == data@.len(),
            i <= n,
            out@ == shifted(data@, by).take(i as int),
        decreases n - i,
    {
        out.push(data[i].minus(by));
        assert(out@ == shifted(data@, by).take(i + 1));
        i += 1;
    }
    assert(shifted(data@, by).take(n as int) == shifted(data@, by));
    out
}

impl<F: Real> MeanTest<F> {
    /// The test against `null_mean` with `n_permutations` sign flips.
    pub fn new(null_mean: F, n_permutations: usize) -> (t: Self)
        requires
            n_permutations > 0,
        ensures
            t.null_mean == null_mean,
            t.n_permutations == n_permutations,
    {
        MeanTest { null_mean, n_permutations }
    }

    /// The test against `null_mean` with as many sign flips as estimate the
    /// p-value to within `accuracy`, where `z` is the standard normal
    /// quantile of the confidence asked for.
    pub fn from_absolute_accuracy(null_mean: F, accuracy: F, z: F) -> (t: Self)
        requires
            below(F::zero_spec(), accuracy),
            below(accuracy, half::<F>()),
        ensures
            t.null_mean == null_mean,
            t.n_permutations == permutations_for_spec(z, accuracy),
    {
        MeanTest { null_mean, n_permutations: permutations_for(z, accuracy) }
    }

    /// Runs the test with the sign flips driven by `rng`.
    pub fn compute_with<D: Observations<F>>(&self, data: &D, rng: StdRng) -> (out: TestResult<
        F,
    >) where SignBitFlip: Flip<F>
        requires
            self.n_permutations < usize::MAX,
            forall|x: F| SignBitFlip.accepts(x),
        ensures
            mean_test_outcome(self.null_mean, self.n_permutations, data.values(), out),
    {
        let slice = data.as_slice();
        if slice.len() == 0 {
            return TestResult { p_value: F::one(), observed_statistic: F::zero() };
        }
        let centered: Sample<F> = Sample::new(shift(slice, self.null_mean));
        let observed_stat: F = mean_of_slice(centered.as_slice());
        let observed_abs: F = observed_stat.abs();
        let flipper = Flipper::sign(rng);
        let mut stream = flipper.re(&centered);
        let mut reference: Vec<F> = Vec::new();
        let mut count: usize = 0;
        while count < self.n_permutations
            invariant
                count <= self.n_permutations,
                reference@.len() == count,
                stream.source() == centered@,
                stream.rule() == SignBitFlip,
                flipped_means(centered@, reference@),
            decreases self.n_permutations - count,
        {
            let pulled = stream.next();
            let resample: Sample<F> = pulled.unwrap();
            let stat: F = mean_of_slice(resample.as_slice()).abs();
            let ghost before = reference@;
            reference.push(stat);
            assert forall|i: int| 0 <= i < reference@.len() implies is_flipped_mean(
                centered@,
                #[trigger] reference@[i],
            ) by {
                if i < before.len() {
                    assert(reference@[i] == before[i]);
                } else {
                    assert(flips_of(resample@, centered@, SignBitFlip) && reference@[i] == mean_of(
                        resample@,
                    ).abs_spec());
                }
            }
            count += 1;
        }
        let extreme: usize = extreme_count(observed_abs, reference.as_slice());
        let p: F = p_value(extreme, self.n_permutations);
        TestResult { p_value: p, observed_statistic: observed_stat }
    }
}

impl<D: Observations<F>, F: Real> Statistic<D, TestResult<F>> for MeanTest<F> where
    SignBitFlip: Flip<F>,
 {
    /// The count of permutations must leave room for the continuity
    /// correction, and sign flipping must apply to every value.
    open spec fn accepts(&self, data: &D) -> bool {
        self.n_permutations < usize::MAX && forall|x: F| SignBitFlip.accepts(x)
    }

    open spec fn admits(&self, data: &D, out: TestResult<F>) -> bool {
        mean_test_outcome(self.null_mean, self.n_permutations, data.values(), out)
    }

    /// Runs the test with sign flips from a generator seeded by the
    /// operating system, and fails as that seeding does where the system
    /// has no entropy to give; `compute_with` takes a generator instead.
    fn compute(&self, data: &D) -> (out: TestResult<F>) {
        self.compute_with(data, entropy_generator())
    }
}

} // verus!
