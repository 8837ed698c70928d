use crate::hypothesis::permutation::TestResult;
use crate::scalar::{below, max_of, max_spec, min_of, min_spec, not_above, Real};
use crate::statistics::cdf::{is_ordered, numbers_of, EmpiricalCDF};
use crate::statistics::{Observations, Statistic};
use vstd::prelude::*;

verus! {

/// The one-sample Kolmogorov-Smirnov test against the standard normal
/// distribution.
#[derive(Debug, Clone, Copy)]
pub struct KSTest;

/// The most terms of the asymptotic series that are summed.
pub const MAX_TERMS: usize = 100;

/// The standard normal distribution function,
/// `erfc((0 - x) / (1 sqrt(2))) / 2`.
pub open spec fn std_normal_cdf<F: Real>(x: F) -> F {
    F::one_spec().over_spec(F::from_usize_spec(2)).times_spec(
        F::zero_spec().minus_spec(x).over_spec(
            F::one_spec().times_spec(F::from_usize_spec(2).sqrt_spec()),
        ).erfc_spec(),
    )
}

/// The larger of `so_far` and `candidate`, `so_far` where they do not
/// compare.
pub open spec fn raised<F: Real>(so_far: F, candidate: F) -> F {
    if below(so_far, candidate) {
        candidate
    } else {
        so_far
    }
}

/// The two one-sided deviations between the step function of `points` and
/// the standard normal distribution, as largest values over the first
/// `upto` points: `max (i + 1)/n - Phi(x_i)` and `max Phi(x_i) - i/n`, both
/// starting from zero. `n` is the number of observations.
pub open spec fn deviations<F: Real>(points: Seq<F>, n: usize, upto: int) -> (F, F)
    decreases upto,
{
    if upto <= 0 {
        (F::zero_spec(), F::zero_spec())
    } else {
        let i = upto - 1;
        let before = deviations(points, n, i);
        let n_f = F::from_usize_spec(n);
        let f_x = std_normal_cdf(points[i]);
        let d_plus = F::from_usize_spec((i + 1) as usize).over_spec(n_f).minus_spec(f_x);
        let d_minus = f_x.minus_spec(F::from_usize_spec(i as usize).over_spec(n_f));
        (raised(before.0, d_plus), raised(before.1, d_minus))
    }
}

/// The Kolmogorov-Smirnov statistic: the larger of the two one-sided
/// deviations.
pub open spec fn ks_statistic<F: Real>(points: Seq<F>, n: usize) -> F {
    let d = deviations(points, n, points.len() as int);
    raised(d.1, d.0)
}

/// The exponent of the `k`-th term of the series, `-2 k^2 d^2 n`.
pub open spec fn series_exponent<F: Real>(k: usize, d: F, n: usize) -> F {
    let k_f = F::from_usize_spec(k);
    F::zero_spec().minus_spec(F::from_usize_spec(2)).times_spec(k_f.times_spec(k_f)).times_spec(
        d,
    ).times_spec(d).times_spec(F::from_usize_spec(n))
}

/// The `k`-th term of the series, `(-1)^(k - 1) exp(-2 k^2 d^2 n)`.
pub open spec fn series_term<F: Real>(k: usize, d: F, n: usize) -> F {
    let e = series_exponent(k, d, n).exp_spec();
    if k % 2 == 1 {
        e
    } else {
        F::zero_spec().minus_spec(e)
    }
}

/// The bound below which an exponent is not evaluated, `-700`.
pub open spec fn exponent_floor<F: Real>() -> F {
    F::zero_spec().minus_spec(F::from_usize_spec(700))
}

/// The magnitude below which a term ends the series, `1e-15`.
pub open spec fn absolute_cutoff<F: Real>() -> F {
    F::one_spec().over_spec(
        F::from_usize_spec(1_000_000).times_spec(F::from_usize_spec(1_000_000_000)),
    )
}

/// The share of the previous term below which a term ends the series,
/// `1e-12`.
pub open spec fn relative_cutoff<F: Real>() -> F {
    F::one_spec().over_spec(
        F::from_usize_spec(1_000_000).times_spec(F::from_usize_spec(1_000_000)),
    )
}

/// Whether the term `term` ends the series after the term of magnitude
/// `prev`.
pub open spec fn negligible<F: Real>(term: F, prev: F) -> bool {
    below(term.abs_spec(), absolute_cutoff::<F>()) || below(
        term.abs_spec(),
        prev.times_spec(relative_cutoff::<F>()),
    )
}

/// The sum of the series from term `k` on, given the sum `p` of the terms
/// before and the magnitude `prev` of the last of them (zero before the
/// first term, which is thus held against the absolute cutoff only). The
/// series stops before a term whose exponent is below the floor, after a
/// negligible term, and after `MAX_TERMS` terms.
pub open spec fn series_from<F: Real>(k: usize, p: F, prev: F, d: F, n: usize) -> F
    decreases MAX_TERMS + 1 - k,
{
    if k > MAX_TERMS || k == 0 {
        p
    } else if below(series_exponent(k, d, n), exponent_floor::<F>()) {
        p
    } else {
        let term = series_term(k, d, n);
        if negligible(term, prev) {
            p.plus_spec(term)
        } else {
            series_from((k + 1) as usize, p.plus_spec(term), term.abs_spec(), d, n)
        }
    }
}

/// `x` brought into `[0, 1]`: first raised to zero, then cut at one.
pub open spec fn clamped_probability<F: Real>(x: F) -> F {
    min_spec(max_spec(x, F::zero_spec()), F::one_spec())
}

/// The asymptotic p-value of the statistic `d` on `n` observations: one for
/// `d <= 0`, zero for `d >= 1`, and otherwise twice the alternating series,
/// brought into `[0, 1]`.
pub open spec fn ks_p_value<F: Real>(d: F, n: usize) -> F {
    if not_above(d, F::zero_spec()) {
        F::one_spec()
    } else if not_above(F::one_spec(), d) {
        F::zero_spec()
    } else {
        clamped_probability(
            F::from_usize_spec(2).times_spec(
                series_from(1, F::zero_spec(), F::zero_spec(), d, n),
            ),
        )
    }
}

/// The standard normal distribution function.
pub fn normal_cdf<F: Real>(x: F) -> (p: F)
    ensures
        p == std_normal_cdf(x),
{
    F::one().over(F::from_usize(2)).times(
        F::zero().minus(x).over(F::one().times(F::from_usize(2).sqrt())).erfc(),
    )
}

/// The Kolmogorov-Smirnov statistic of the ordered `points` of a sample of
/// `n` observations.
pub fn statistic_of<F: Real>(points: &[F], n: usize) -> (d: F)
    ensures
        d == ks_statistic(points@, n),
{
    let n_f: F = F::from_usize(n);
    let m: usize = points.len();
    let mut d_plus_max: F = F::zero();
    let mut d_minus_max: F = F::zero();
    let mut i: usize = 0;
    while i < m
        invariant
            m == points@.len(),
            i <= m,
            n_f == F::from_usize_spec(n),
            (d_plus_max, d_minus_max) == deviations(points@, n, i as int),
        decreases m - i,
    {
        let i_f: F = F::from_usize(i);
        let i1_f: F = F::from_usize(i + 1);
        let f_x: F = normal_cdf(points[i]);
        let d_plus: F = i1_f.over(n_f).minus(f_x);
        let d_minus: F = f_x.minus(i_f.over(n_f));
        if d_plus_max.lt(d_plus) {
            d_plus_max = d_plus;
        }
        if d_minus_max.lt(d_minus) {
            d_minus_max = d_minus;
        }
        i += 1;
    }
    if d_minus_max.lt(d_plus_max) {
        d_plus_max
    } else {
        d_minus_max
    }
}

/// The asymptotic p-value of the statistic `d` on `n` observations.
pub fn asymptotic_p_value<F: Real>(d: F, n: usize) -> (p: F)
    ensures
        p == ks_p_value(d, n),
{
    if d.le(F::zero()) {
        return F::one();
    }
    if F::one().le(d) {
        return F::zero();
    }
    let floor: F = F::zero().minus(F::from_usize(700));
    let absolute: F = F::one().over(
        F::from_usize(1_000_000).times(F::from_usize(1_000_000_000)),
    );
    let relative: F = F::one().over(
        F::from_usize(1_000_000).times(F::from_usize(1_000_000)),
    );
    let n_f: F = F::from_usize(n);
    let mut p: F = F::zero();
    let mut prev: F = F::zero();
    let mut k: usize = 1;
    let mut running: bool = true;
    let ghost total = series_from(1, F::zero_spec(), F::zero_spec(), d, n);
    while running && k <= MAX_TERMS
        invariant
            1 <= k <= MAX_TERMS + 1,
            floor == exponent_floor::<F>(),
            absolute == absolute_cutoff::<F>(),
            relative == relative_cutoff::<F>(),
            n_f == F::from_usize_spec(n),
            running ==> series_from(k, p, prev, d, n) == total,
            !running ==> p == total,
        decreases MAX_TERMS + 1 - k, if running { 1int } else { 0int },
    {
        let k_f: F = F::from_usize(k);
        let exponent: F = F::zero().minus(F::from_usize(2)).times(k_f.times(k_f)).times(d).times(
            d,
        ).times(n_f);
        if exponent.lt(floor) {
            running = false;
        } else {
            let e: F = exponent.exp();
            let term: F = if k % 2 == 1 {
                e
            } else {
                F::zero().minus(e)
            };
            let magnitude: F = term.abs();
            p = p.plus(term);
            if magnitude.lt(absolute) || magnitude.lt(prev.times(relative)) {
                running = false;
            } else {
                prev = magnitude;
                k += 1;
            }
        }
    }
    let doubled: F = F::from_usize(2).times(p);
    min_of(max_of(doubled, F::zero()), F::one())
}

/// What the test may report on `data`: for no data the statistic zero and
/// the p-value one, and otherwise the statistic of the ordered numbers among
/// the data with its asymptotic p-value.
pub open spec fn ks_outcome<F: Real>(data: Seq<F>, out: TestResult<F>) -> bool {
    if data.len() == 0 {
        out.observed_statistic == F::zero_spec() && out.p_value == F::one_spec()
    } else {
        exists|points: Seq<F>|
            {
                &&& #[trigger] is_ordered(points)
                &&& points.to_multiset() == numbers_of(data).to_multiset()
                &&& out.observed_statistic == ks_statistic(points, data.len() as usize)
                &&& out.p_value == ks_p_value(out.observed_statistic, data.len() as usize)
            }
    }
}

impl<D: Observations<F>, F: Real> Statistic<D, TestResult<F>> for KSTest {
    open spec fn accepts(&self, data: &D) -> bool {
        true
    }

    open spec fn admits(&self, data: &D, out: TestResult<F>) -> bool {
        ks_outcome(data.values(), out)
    }

    fn compute(&self, data: &D) -> (out: TestResult<F>) {
        let slice = data.as_slice();
        let n: usize = slice.len();
        if n == 0 {
            return TestResult { observed_statistic: F::zero(), p_value: F::one() };
        }
        let ecdf: EmpiricalCDF<F> = EmpiricalCDF::from_float_slice(slice);
        let d_max: F = statistic_of(ecdf.points(), n);
        let p: F = asymptotic_p_value(d_max, n);
        assert(is_ordered(ecdf@));
        TestResult { observed_statistic: d_max, p_value: p }
    }
}

} // verus!
