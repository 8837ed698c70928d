use crate::scalar::{below, equals, not_above, Real};
use crate::statistics::basic::kurtosis::{kurtosis_of, kurtosis_of_slice};
use crate::statistics::basic::skewness::{skewness_of, skewness_of_slice};
use crate::statistics::{Observations, Statistic};
use vstd::prelude::*;

verus! {

/// The omnibus normality test of D'Agostino and Pearson: skewness and excess
/// kurtosis are each brought to an approximately standard normal scale, and
/// the sum of their squares is referred to the chi-squared distribution with
/// two degrees of freedom.
#[derive(Debug, Clone, Copy)]
pub struct DagostinoPearson {
    /// The smallest sample size the test is meant for.
    pub min_n: usize,
}

/// The outcome of the normality test.
#[derive(Debug, Clone, Copy)]
pub struct DagostinoPearsonResult<F> {
    /// The statistic, the sum of the two squared scores.
    pub statistic: F,
    pub p_value: F,
    /// The bias-corrected sample skewness.
    pub skewness: F,
    /// The bias-corrected excess kurtosis.
    pub kurtosis: F,
}

/// The count `n` plus `k`, as scalars.
pub open spec fn count_plus<F: Real>(n: usize, k: usize) -> F {
    F::from_usize_spec(n).plus_spec(F::from_usize_spec(k))
}

/// The count `n` less `k`, as scalars.
pub open spec fn count_less<F: Real>(n: usize, k: usize) -> F {
    F::from_usize_spec(n).minus_spec(F::from_usize_spec(k))
}

/// The skewness `g1` of `n` observations scaled by its standard deviation
/// under normality: `g1 sqrt((n + 1)(n + 3) / (6 (n - 2)))`.
pub open spec fn scaled_skewness<F: Real>(g1: F, n: usize) -> F {
    g1.times_spec(
        count_plus::<F>(n, 1).times_spec(count_plus::<F>(n, 3)).over_spec(
            F::from_usize_spec(6).times_spec(count_less::<F>(n, 2)),
        ).sqrt_spec(),
    )
}

/// The kurtosis of the skewness under normality,
/// `3 (n^2 + 27 n - 70)(n + 1)(n + 3) / ((n - 2)(n + 5)(n + 7)(n + 9))`.
pub open spec fn skewness_beta2<F: Real>(n: usize) -> F {
    let n_f = F::from_usize_spec(n);
    let num = F::from_usize_spec(3).times_spec(
        n_f.times_spec(n_f).plus_spec(F::from_usize_spec(27).times_spec(n_f)).minus_spec(
            F::from_usize_spec(70),
        ),
    ).times_spec(count_plus::<F>(n, 1)).times_spec(count_plus::<F>(n, 3));
    let den = count_less::<F>(n, 2).times_spec(count_plus::<F>(n, 5)).times_spec(
        count_plus::<F>(n, 7),
    ).times_spec(count_plus::<F>(n, 9));
    num.over_spec(den)
}

/// `value` where it lies strictly above `floor`, else `fallback`.
pub open spec fn guarded_above<F: Real>(value: F, floor: F, fallback: F) -> F {
    if below(floor, value) {
        value
    } else {
        fallback
    }
}

/// The quantity `W^2 = sqrt(2 (beta2 - 1)) - 1` of the skewness
/// transformation, with `beta2` and `W^2` each kept above one against
/// rounding.
pub open spec fn skewness_w2<F: Real>(n: usize) -> F {
    let one = F::one_spec();
    let just_above = one.plus_spec(F::epsilon_spec());
    let b2 = guarded_above(skewness_beta2::<F>(n), one, just_above);
    guarded_above(
        F::from_usize_spec(2).times_spec(b2.minus_spec(one)).sqrt_spec().minus_spec(one),
        one,
        just_above,
    )
}

/// The normal score of the skewness `g1` of `n` observations (D'Agostino):
/// with `delta = 1 / sqrt(ln W)` and `alpha = sqrt(2 / (W^2 - 1))`, the score
/// is `delta ln(u + sqrt(u^2 + 1))` for `u = y / alpha` and the scaled
/// skewness `y`. The argument of the logarithm is kept above zero.
pub open spec fn normalized_skewness<F: Real>(g1: F, n: usize) -> F {
    let one = F::one_spec();
    let w2 = skewness_w2::<F>(n);
    let delta = one.over_spec(w2.sqrt_spec().ln_spec().sqrt_spec());
    let alpha = F::from_usize_spec(2).over_spec(w2.minus_spec(one)).sqrt_spec();
    let u = scaled_skewness(g1, n).over_spec(alpha);
    let argument = guarded_above(
        u.plus_spec(u.times_spec(u).plus_spec(one).sqrt_spec()),
        F::zero_spec(),
        F::epsilon_spec(),
    );
    delta.times_spec(argument.ln_spec())
}

/// The kurtosis `b2` of `n` observations, standardized by its mean
/// `3 (n - 1) / (n + 1)` and variance
/// `24 n (n - 2)(n - 3) / ((n + 1)^2 (n + 3)(n + 5))` under normality.
pub open spec fn standardized_kurtosis<F: Real>(b2: F, n: usize) -> F {
    let n_f = F::from_usize_spec(n);
    let n_plus_1 = n_f.plus_spec(F::one_spec());
    let e = F::from_usize_spec(3).times_spec(n_f.minus_spec(F::one_spec())).over_spec(n_plus_1);
    let var_num = F::from_usize_spec(24).times_spec(n_f).times_spec(count_less::<F>(n, 2)).times_spec(
        count_less::<F>(n, 3),
    );
    let var_den = n_plus_1.times_spec(n_plus_1).times_spec(count_plus::<F>(n, 3)).times_spec(
        count_plus::<F>(n, 5),
    );
    b2.minus_spec(e).over_spec(var_num.over_spec(var_den).sqrt_spec())
}

/// The skewness of the kurtosis under normality,
/// `6 (n^2 - 5 n + 2) / ((n + 7)(n + 9)) sqrt(6 (n + 3)(n + 5) / (n (n - 2)(n - 3)))`.
pub open spec fn kurtosis_sqrt_beta1<F: Real>(n: usize) -> F {
    let n_f = F::from_usize_spec(n);
    let six = F::from_usize_spec(6);
    let lead = six.times_spec(
        n_f.times_spec(n_f).minus_spec(F::from_usize_spec(5).times_spec(n_f)).plus_spec(
            F::from_usize_spec(2),
        ),
    ).over_spec(count_plus::<F>(n, 7).times_spec(count_plus::<F>(n, 9)));
    let inner = six.times_spec(count_plus::<F>(n, 3)).times_spec(count_plus::<F>(n, 5)).over_spec(
        n_f.times_spec(count_less::<F>(n, 2)).times_spec(count_less::<F>(n, 3)),
    );
    lead.times_spec(inner.sqrt_spec())
}

/// The parameter of the kurtosis transformation,
/// `A = 6 + (8 / s)(2 / s + sqrt(1 + 4 / s^2))` for `s` the skewness of the
/// kurtosis under normality.
pub open spec fn kurtosis_shape<F: Real>(n: usize) -> F {
    let s = kurtosis_sqrt_beta1::<F>(n);
    let one = F::one_spec();
    F::from_usize_spec(6).plus_spec(
        F::from_usize_spec(8).over_spec(s).times_spec(
            F::from_usize_spec(2).over_spec(s).plus_spec(
                one.plus_spec(F::from_usize_spec(4).over_spec(s.times_spec(s))).sqrt_spec(),
            ),
        ),
    )
}

/// The normal score of the excess kurtosis of `n` observations
/// (Anscombe-Glynn): with shape `A` and the standardized kurtosis `x` of
/// `b2 = excess + 3`, the score is
/// `(1 - 2/(9A) - cbrt((1 - 2/A) / (1 + x sqrt(2 / (A - 4))))) / sqrt(2/(9A))`.
/// Rounding is guarded against: the ratio under the square root is kept
/// above zero, and a zero denominator gives a zero cube root.
pub open spec fn normalized_kurtosis<F: Real>(excess: F, n: usize) -> F {
    let one = F::one_spec();
    let two = F::from_usize_spec(2);
    let x = standardized_kurtosis(excess.plus_spec(F::from_usize_spec(3)), n);
    let a = kurtosis_shape::<F>(n);
    let term_a = two.over_spec(F::from_usize_spec(9).times_spec(a));
    let numerator = one.minus_spec(two.over_spec(a));
    let inner = guarded_above(
        two.over_spec(a.minus_spec(F::from_usize_spec(4))),
        F::zero_spec(),
        F::epsilon_spec(),
    );
    let denominator = one.plus_spec(x.times_spec(inner.sqrt_spec()));
    let root = if equals(denominator, F::zero_spec()) {
        F::zero_spec()
    } else {
        numerator.over_spec(denominator).cbrt_spec()
    };
    one.minus_spec(term_a).minus_spec(root).over_spec(term_a.sqrt_spec())
}

/// The survival function of the chi-squared distribution with two degrees of
/// freedom: one up to zero, and `exp(-x / 2)` beyond.
pub open spec fn chi2_sf_spec<F: Real>(x: F) -> F {
    if not_above(x, F::zero_spec()) {
        F::one_spec()
    } else {
        F::zero_spec().minus_spec(x.over_spec(F::from_usize_spec(2))).exp_spec()
    }
}

/// The outcome of the test from the skewness and the excess kurtosis of `n`
/// observations: the statistic is the sum of the two squared normal scores.
pub open spec fn omnibus_outcome<F: Real>(skewness: F, kurtosis: F, n: usize) -> DagostinoPearsonResult<
    F,
> {
    let z_skew = normalized_skewness(skewness, n);
    let z_kurt = normalized_kurtosis(kurtosis, n);
    let statistic = z_skew.times_spec(z_skew).plus_spec(z_kurt.times_spec(z_kurt));
    DagostinoPearsonResult { statistic, p_value: chi2_sf_spec(statistic), skewness, kurtosis }
}

/// `value` where it lies strictly above `floor`, else `fallback`.
pub fn guard_above<F: Real>(value: F, floor: F, fallback: F) -> (out: F)
    ensures
        out == guarded_above(value, floor, fallback),
{
    if floor.lt(value) {
        value
    } else {
        fallback
    }
}

/// The normal score of the skewness `g1` of `n` observations.
pub fn normalize_skewness<F: Real>(g1: F, n: usize) -> (z: F)
    ensures
        z == normalized_skewness(g1, n),
{
    let n_f: F = F::from_usize(n);
    let one: F = F::one();
    let just_above: F = one.plus(F::epsilon());
    let n_plus_1: F = n_f.plus(F::from_usize(1));
    let n_plus_3: F = n_f.plus(F::from_usize(3));
    let n_minus_2: F = n_f.minus(F::from_usize(2));
    let y: F = g1.times(n_plus_1.times(n_plus_3).over(F::from_usize(6).times(n_minus_2)).sqrt());
    let b2_num: F = F::from_usize(3).times(
        n_f.times(n_f).plus(F::from_usize(27).times(n_f)).minus(F::from_usize(70)),
    ).times(n_plus_1).times(n_plus_3);
    let b2_den: F = n_minus_2.times(n_f.plus(F::from_usize(5))).times(
        n_f.plus(F::from_usize(7)),
    ).times(n_f.plus(F::from_usize(9)));
    let b2: F = guard_above(b2_num.over(b2_den), one, just_above);
    let w2: F = guard_above(
        F::from_usize(2).times(b2.minus(one)).sqrt().minus(one),
        one,
        just_above,
    );
    let delta: F = one.over(w2.sqrt().ln().sqrt());
    let alpha: F = F::from_usize(2).over(w2.minus(one)).sqrt();
    let u: F = y.over(alpha);
    let argument: F = guard_above(u.plus(u.times(u).plus(one).sqrt()), F::zero(), F::epsilon());
    delta.times(argument.ln())
}

/// The normal score of the excess kurtosis of `n` observations.
pub fn normalize_kurtosis<F: Real>(excess: F, n: usize) -> (z: F)
    ensures
        z == normalized_kurtosis(excess, n),
{
    let n_f: F = F::from_usize(n);
    let one: F = F::one();
    let two: F = F::from_usize(2);
    let six: F = F::from_usize(6);
    let n_plus_1: F = n_f.plus(one);
    let n_plus_3: F = n_f.plus(F::from_usize(3));
    let n_plus_5: F = n_f.plus(F::from_usize(5));
    let n_minus_2: F = n_f.minus(F::from_usize(2));
    let n_minus_3: F = n_f.minus(F::from_usize(3));
    let b2: F = excess.plus(F::from_usize(3));
    let e: F = F::from_usize(3).times(n_f.minus(one)).over(n_plus_1);
    let var_num: F = F::from_usize(24).times(n_f).times(n_minus_2).times(n_minus_3);
    let var_den: F = n_plus_1.times(n_plus_1).times(n_plus_3).times(n_plus_5);
    let x: F = b2.minus(e).over(var_num.over(var_den).sqrt());
    let lead: F = six.times(
        n_f.times(n_f).minus(F::from_usize(5).times(n_f)).plus(F::from_usize(2)),
    ).over(n_f.plus(F::from_usize(7)).times(n_f.plus(F::from_usize(9))));
    let inner_beta: F = six.times(n_plus_3).times(n_plus_5).over(
        n_f.times(n_minus_2).times(n_minus_3),
    );
    let s: F = lead.times(inner_beta.sqrt());
    let a: F = six.plus(
        F::from_usize(8).over(s).times(
            two.over(s).plus(one.plus(F::from_usize(4).over(s.times(s))).sqrt()),
        ),
    );
    let term_a: F = two.over(F::from_usize(9).times(a));
    let numerator: F = one.minus(two.over(a));
    let inner: F = guard_above(two.over(a.minus(F::from_usize(4))), F::zero(), F::epsilon());
    let denominator: F = one.plus(x.times(inner.sqrt()));
    let root: F = if denominator.same(F::zero()) {
        F::zero()
    } else {
        numerator.over(denominator).cbrt()
    };
    one.minus(term_a).minus(root).over(term_a.sqrt())
}

/// The survival function of the chi-squared distribution with two degrees of
/// freedom.
pub fn chi2_sf<F: Real>(x: F) -> (p: F)
    ensures
        p == chi2_sf_spec(x),
{
    if x.le(F::zero()) {
        F::one()
    } else {
        F::zero().minus(x.over(F::from_usize(2))).exp()
    }
}

impl DagostinoPearson {
    /// The test with the customary minimum sample size of eight.
    pub fn new() -> (t: Self)
        ensures
            t.min_n == 8,
    {
        DagostinoPearson { min_n: 8 }
    }

    /// Whether a sample of `n` observations is large enough for the test.
    pub fn meets_minimum(&self, n: usize) -> (b: bool)
        ensures
            b == (n >= self.min_n),
    {
        n >= self.min_n
    }

    /// The same test with another minimum sample size.
    pub fn with_min_n(self, min_n: usize) -> (t: Self)
        ensures
            t.min_n == min_n,
    {
        DagostinoPearson { min_n }
    }
}

impl Default for DagostinoPearson {
    fn default() -> (t: Self)
        ensures
            t.min_n == 8,
    {
        DagostinoPearson { min_n: 8 }
    }
}

impl<D: Observations<F>, F: Real> Statistic<D, DagostinoPearsonResult<F>> for DagostinoPearson {
    /// The test runs on any data; whether they are enough for it is left to
    /// the caller.
    open spec fn accepts(&self, data: &D) -> bool {
        true
    }

    open spec fn admits(&self, data: &D, out: DagostinoPearsonResult<F>) -> bool {
        out == omnibus_outcome(
            skewness_of(data.values(), true),
            kurtosis_of(data.values(), true),
            data.values().len() as usize,
        )
    }

    fn compute(&self, data: &D) -> (out: DagostinoPearsonResult<F>) {
        let slice = data.as_slice();
        let n: usize = slice.len();
        let skewness: F = skewness_of_slice(slice, true);
        let kurtosis: F = kurtosis_of_slice(slice, true);
        let z_skew: F = normalize_skewness(skewness, n);
        let z_kurt: F = normalize_kurtosis(kurtosis, n);
        let statistic: F = z_skew.times(z_skew).plus(z_kurt.times(z_kurt));
        let p_value: F = chi2_sf(statistic);
        DagostinoPearsonResult { statistic, p_value, skewness, kurtosis }
    }
}

} // verus!
