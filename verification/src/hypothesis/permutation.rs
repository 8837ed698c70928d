use crate::scalar::{below, not_above, Real};
use vstd::prelude::*;

verus! {

/// The outcome of a permutation test.
#[derive(Debug, Clone, Copy)]
pub struct TestResult<F> {
    /// The statistic on the data as observed.
    pub observed_statistic: F,
    /// The estimated p-value, with the continuity correction.
    pub p_value: F,
}

/// The fewest permutations a test built from a target accuracy runs.
pub const MIN_PERMUTATIONS: usize = 100;

/// The most permutations a test built from a target accuracy runs.
pub const MAX_PERMUTATIONS: usize = 10_000_000;

/// How many of `reference` are at least as extreme as `observed`.
pub open spec fn extreme_count_spec<F: Real>(observed: F, reference: Seq<F>) -> nat
    decreases reference.len(),
{
    if reference.len() == 0 {
        0
    } else if not_above(observed, reference.last()) {
        extreme_count_spec(observed, reference.drop_last()) + 1
    } else {
        extreme_count_spec(observed, reference.drop_last())
    }
}

/// The p-value `(extreme + 1) / (total + 1)`, the counts taken as scalars.
pub open spec fn p_value_spec<F: Real>(extreme: usize, total: usize) -> F {
    F::from_usize_spec((extreme + 1) as usize).over_spec(F::from_usize_spec((total + 1) as usize))
}

/// A wanted number of permutations, kept between `MIN_PERMUTATIONS` and
/// `MAX_PERMUTATIONS`.
pub fn clamp_permutations(wanted: usize) -> (n: usize)
    ensures
        MIN_PERMUTATIONS <= n <= MAX_PERMUTATIONS,
        MIN_PERMUTATIONS <= wanted <= MAX_PERMUTATIONS ==> n == wanted,
        wanted < MIN_PERMUTATIONS ==> n == MIN_PERMUTATIONS,
        wanted > MAX_PERMUTATIONS ==> n == MAX_PERMUTATIONS,
{
    if wanted < MIN_PERMUTATIONS {
        MIN_PERMUTATIONS
    } else if wanted > MAX_PERMUTATIONS {
        MAX_PERMUTATIONS
    } else {
        wanted
    }
}

/// Counts the reference values that are at least as extreme as `observed`.
/// A value that is "not a number" is never extreme, and nothing is where
/// `observed` is "not a number".
pub fn extreme_count<F: Real>(observed: F, reference: &[F]) -> (count: usize)
    ensures
        count == extreme_count_spec(observed, reference@),
        count <= reference@.len(),
{
    let n: usize = reference.len();
    let mut count: usize = 0;
    let mut i: usize = 0;
    assert(reference@.take(0) == Seq::<F>::empty());
    while i < n
        invariant
            n == reference@.len(),
            i <= n,
            count <= i,
            count == extreme_count_spec(observed, reference@.take(i as int)),
        decreases n - i,
    {
        assert(reference@.take(i + 1).drop_last() == reference@.take(i as int));
        if observed.le(reference[i]) {
            count += 1;
        }
        i += 1;
    }
    assert(reference@.take(n as int) == reference@);
    count
}

/// The p-value of `extreme` extreme values among `total` permutations,
/// `(extreme + 1) / (total + 1)`: never zero.
pub fn p_value<F: Real>(extreme: usize, total: usize) -> (p: F)
    requires
        extreme <= total < usize::MAX,
    ensures
        p == p_value_spec::<F>(extreme, total),
{
    F::from_usize(extreme + 1).over(F::from_usize(total + 1))
}

/// One half, as `1 / 2`.
pub open spec fn half<F: Real>() -> F {
    F::one_spec().over_spec(F::from_usize_spec(2))
}

/// The permutations wanted for an accuracy before they are kept in range:
/// `ceil(z^2 (1/4) / accuracy^2)`, a quarter being the largest variance of a
/// yes-or-no outcome.
pub open spec fn wanted_permutations<F: Real>(z: F, accuracy: F) -> usize {
    z.times_spec(z).times_spec(F::one_spec().over_spec(F::from_usize_spec(4))).over_spec(
        accuracy.times_spec(accuracy),
    ).ceil_spec()
}

/// The permutations that estimate a p-value to within `accuracy`, where `z`
/// is the standard normal quantile of the confidence asked for: the wanted
/// number, kept between `MIN_PERMUTATIONS` and `MAX_PERMUTATIONS`.
pub open spec fn permutations_for_spec<F: Real>(z: F, accuracy: F) -> usize {
    let wanted = wanted_permutations(z, accuracy);
    if wanted < MIN_PERMUTATIONS {
        MIN_PERMUTATIONS
    } else if wanted > MAX_PERMUTATIONS {
        MAX_PERMUTATIONS
    } else {
        wanted
    }
}

/// Whether `accuracy` lies strictly between zero and one half.
pub fn accuracy_in_range<F: Real>(accuracy: F) -> (b: bool)
    ensures
        b == (below(F::zero_spec(), accuracy) && below(accuracy, half::<F>())),
{
    F::zero().lt(accuracy) && accuracy.lt(F::one().over(F::from_usize(2)))
}

/// The permutations that estimate a p-value to within `accuracy`, where `z`
/// is the standard normal quantile of the confidence asked for.
pub fn permutations_for<F: Real>(z: F, accuracy: F) -> (n: usize)
    requires
        below(F::zero_spec(), accuracy),
        below(accuracy, half::<F>()),
    ensures
        n == permutations_for_spec(z, accuracy),
        MIN_PERMUTATIONS <= n <= MAX_PERMUTATIONS,
{
    let quarter: F = F::one().over(F::from_usize(4));
    let n_min: F = z.times(z).times(quarter).over(accuracy.times(accuracy));
    clamp_permutations(n_min.ceil())
}

} // verus!
