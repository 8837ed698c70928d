use crate::scalar::{not_above, Real};
use crate::statistics::cdf::{is_ordered, EmpiricalCDF};
use crate::statistics::Statistic;
use vstd::prelude::*;

verus! {

/// The discrete quantile of an empirical distribution function: the order
/// statistic at place `ceil(n p) - 1`, kept within the points. Nothing is
/// interpolated.
#[derive(Debug, Clone, Copy)]
pub struct Quantile<P> {
    pub p: P,
}

/// A pair of discrete quantiles.
#[derive(Debug, Clone, Copy)]
pub struct QuantileInterval<P> {
    pub lower: P,
    pub upper: P,
}

/// The place of the quantile at level `p` among `n` ordered points:
/// `min(n - 1, max(0, ceil(n p) - 1))`.
pub open spec fn quantile_index<P: Real>(n: usize, p: P) -> int {
    let rank = P::from_usize_spec(n).times_spec(p).ceil_spec();
    let place = if rank >= 1 {
        rank - 1
    } else {
        0
    };
    if place < n - 1 {
        place
    } else {
        n - 1
    }
}

/// The level one half, as `1 / 2`.
pub open spec fn one_half<P: Real>() -> P {
    P::one_spec().over_spec(P::from_usize_spec(2))
}

/// The lower level of the central interval of the given confidence,
/// `(1 - confidence) / 2`.
pub open spec fn lower_level<P: Real>(confidence: P) -> P {
    P::one_spec().minus_spec(confidence).over_spec(P::from_usize_spec(2))
}

/// The upper level of the central interval of the given confidence,
/// `1 - (1 - confidence) / 2`.
pub open spec fn upper_level<P: Real>(confidence: P) -> P {
    P::one_spec().minus_spec(lower_level(confidence))
}

/// The place of the quantile at level `p` among `n` ordered points.
pub fn quantile_position<P: Real>(n: usize, p: P) -> (idx: usize)
    requires
        n > 0,
    ensures
        idx == quantile_index(n, p),
        idx < n,
{
    let rank: usize = P::from_usize(n).times(p).ceil();
    let place: usize = if rank >= 1 {
        rank - 1
    } else {
        0
    };
    if place < n - 1 {
        place
    } else {
        n - 1
    }
}

impl<P: Real> Quantile<P> {
    /// The quantile at level `p`, a probability between zero and one.
    pub fn new(p: P) -> (q: Self)
        ensures
            q.p == p,
    {
        Quantile { p }
    }

    /// The median, the quantile at level one half.
    pub fn median() -> (q: Self)
        ensures
            q.p == one_half::<P>(),
    {
        Quantile { p: P::one().over(P::from_usize(2)) }
    }
}

impl<P: Real> QuantileInterval<P> {
    /// The quantiles at the levels `lower` and `upper`.
    pub fn new(lower: P, upper: P) -> (q: Self)
        ensures
            q.lower == lower,
            q.upper == upper,
    {
        QuantileInterval { lower, upper }
    }

    /// The central interval of the given confidence: the quantiles at
    /// `(1 - confidence) / 2` and `1 - (1 - confidence) / 2`.
    pub fn percentile(confidence: P) -> (q: Self)
        ensures
            q.lower == lower_level(confidence),
            q.upper == upper_level(confidence),
    {
        let alpha: P = P::one().minus(confidence);
        let half: P = alpha.over(P::from_usize(2));
        QuantileInterval { lower: half, upper: P::one().minus(half) }
    }
}

impl<T: Real, P: Real> Statistic<EmpiricalCDF<T>, T> for Quantile<P> {
    /// A quantile is defined for a distribution function with points.
    open spec fn accepts(&self, data: &EmpiricalCDF<T>) -> bool {
        data@.len() > 0
    }

    open spec fn admits(&self, data: &EmpiricalCDF<T>, out: T) -> bool {
        out == data@[quantile_index(data@.len() as usize, self.p)]
    }

    fn compute(&self, data: &EmpiricalCDF<T>) -> (out: T) {
        let n: usize = data.n();
        let idx: usize = quantile_position(n, self.p);
        let points = data.points();
        points[idx]
    }
}

impl<T: Real, P: Real> Statistic<EmpiricalCDF<T>, (T, T)> for QuantileInterval<P> {
    /// Quantiles are defined for a distribution function with points.
    open spec fn accepts(&self, data: &EmpiricalCDF<T>) -> bool {
        data@.len() > 0
    }

    open spec fn admits(&self, data: &EmpiricalCDF<T>, out: (T, T)) -> bool {
        &&& out.0 == data@[quantile_index(data@.len() as usize, self.lower)]
        &&& out.1 == data@[quantile_index(data@.len() as usize, self.upper)]
    }

    fn compute(&self, data: &EmpiricalCDF<T>) -> (out: (T, T)) {
        let n: usize = data.n();
        let idx_low: usize = quantile_position(n, self.lower);
        let idx_up: usize = quantile_position(n, self.upper);
        let points = data.points();
        (points[idx_low], points[idx_up])
    }
}

/// Quantiles keep the order of their places: among ordered points, the
/// quantile at a level whose place is not behind that of another level is
/// not below the quantile at that other level.
pub proof fn lemma_quantiles_keep_order<T: Real, P: Real>(points: Seq<T>, lower: P, upper: P)
    requires
        is_ordered(points),
        0 < points.len() <= usize::MAX,
        quantile_index(points.len() as usize, lower) <= quantile_index(
            points.len() as usize,
            upper,
        ),
    ensures
        not_above(
            points[quantile_index(points.len() as usize, lower)],
            points[quantile_index(points.len() as usize, upper)],
        ),
{
}

} // verus!
