use crate::hypothesis::dagostino::DagostinoPearsonResult;
use crate::scalar::{below, not_above, Real};
use vstd::prelude::*;

verus! {

/// What a p-value says about normality.
#[derive(Clone, Copy, Debug, PartialEq, Eq, Structural)]
pub enum Evidence {
    /// Below five in a hundred: normality is rejected.
    Reject,
    /// Below ten in a hundred: weak evidence against normality.
    Weak,
    /// Otherwise: normality cannot be rejected.
    CannotReject,
}

/// How skewed a sample is, and to which side.
#[derive(Clone, Copy, Debug, PartialEq, Eq, Structural)]
pub enum Skew {
    Symmetric,
    ModerateRight,
    ModerateLeft,
    StrongRight,
    StrongLeft,
    ExtremeRight,
    ExtremeLeft,
}

/// How heavy the tails of a sample are.
#[derive(Clone, Copy, Debug, PartialEq, Eq, Structural)]
pub enum Tails {
    Mesokurtic,
    Leptokurtic,
    VeryHeavy,
    ExtremeHeavy,
    Platykurtic,
}

/// The scalar `numerator / denominator`.
pub open spec fn ratio_spec<F: Real>(numerator: usize, denominator: usize) -> F {
    F::from_usize_spec(numerator).over_spec(F::from_usize_spec(denominator))
}

/// The reading of the p-value `p`: rejection below 0.05, weak evidence below
/// 0.10.
pub open spec fn evidence_spec<F: Real>(p: F) -> Evidence {
    if below(p, ratio_spec::<F>(5, 100)) {
        Evidence::Reject
    } else if below(p, ratio_spec::<F>(1, 10)) {
        Evidence::Weak
    } else {
        Evidence::CannotReject
    }
}

/// The reading of the skewness `s`: symmetric for a magnitude below 0.5,
/// moderate below 1, strong below 2 and extreme otherwise, to the right for
/// a positive value and to the left for any other.
pub open spec fn skew_spec<F: Real>(s: F) -> Skew {
    let magnitude = s.abs_spec();
    let right = below(F::zero_spec(), s);
    if below(magnitude, ratio_spec::<F>(1, 2)) {
        Skew::Symmetric
    } else if below(magnitude, F::one_spec()) {
        if right {
            Skew::ModerateRight
        } else {
            Skew::ModerateLeft
        }
    } else if below(magnitude, F::from_usize_spec(2)) {
        if right {
            Skew::StrongRight
        } else {
            Skew::StrongLeft
        }
    } else if right {
        Skew::ExtremeRight
    } else {
        Skew::ExtremeLeft
    }
}

/// The reading of the excess kurtosis `k`: normal tails for a magnitude
/// below 0.5, heavy tails above 0.5 (very heavy from 2, extreme from 5), and
/// light tails otherwise.
pub open spec fn tails_spec<F: Real>(k: F) -> Tails {
    let half = ratio_spec::<F>(1, 2);
    let two = F::from_usize_spec(2);
    let five = F::from_usize_spec(5);
    if below(k.abs_spec(), half) {
        Tails::Mesokurtic
    } else if below(half, k) && below(k, two) {
        Tails::Leptokurtic
    } else if not_above(two, k) && below(k, five) {
        Tails::VeryHeavy
    } else if not_above(five, k) {
        Tails::ExtremeHeavy
    } else {
        Tails::Platykurtic
    }
}

/// The scalar `numerator / denominator`.
pub fn ratio<F: Real>(numerator: usize, denominator: usize) -> (r: F)
    ensures
        r == ratio_spec::<F>(numerator, denominator),
{
    F::from_usize(numerator).over(F::from_usize(denominator))
}

impl<F: Real> DagostinoPearsonResult<F> {
    /// What the p-value says about normality.
    pub fn evidence(&self) -> (e: Evidence)
        ensures
            e == evidence_spec(self.p_value),
    {
        if self.p_value.lt(ratio(5, 100)) {
            Evidence::Reject
        } else if self.p_value.lt(ratio(1, 10)) {
            Evidence::Weak
        } else {
            Evidence::CannotReject
        }
    }

    /// How skewed the sample is, and to which side.
    pub fn skew(&self) -> (s: Skew)
        ensures
            s == skew_spec(self.skewness),
    {
        let magnitude: F = self.skewness.abs();
        let right: bool = F::zero().lt(self.skewness);
        if magnitude.lt(ratio(1, 2)) {
            Skew::Symmetric
        } else if magnitude.lt(F::one()) {
            if right {
                Skew::ModerateRight
            } else {
                Skew::ModerateLeft
            }
        } else if magnitude.lt(F::from_usize(2)) {
            if right {
                Skew::StrongRight
            } else {
                Skew::StrongLeft
            }
        } else if right {
            Skew::ExtremeRight
        } else {
            Skew::ExtremeLeft
        }
    }

    /// How heavy the tails of the sample are.
    pub fn tails(&self) -> (t: Tails)
        ensures
            t == tails_spec(self.kurtosis),
    {
        let half: F = ratio(1, 2);
        let two: F = F::from_usize(2);
        let five: F = F::from_usize(5);
        let k: F = self.kurtosis;
        if k.abs().lt(half) {
            Tails::Mesokurtic
        } else if half.lt(k) && k.lt(two) {
            Tails::Leptokurtic
        } else if two.le(k) && k.lt(five) {
            Tails::VeryHeavy
        } else if five.le(k) {
            Tails::ExtremeHeavy
        } else {
            Tails::Platykurtic
        }
    }

    /// Whether the p-value is too small to be written out, below one in ten
    /// thousand.
    pub fn p_value_is_tiny(&self) -> (b: bool)
        ensures
            b == below(self.p_value, ratio_spec::<F>(1, 10000)),
    {
        self.p_value.lt(ratio(1, 10000))
    }

    /// Whether the statistic is too large to be written out in full, above
    /// 999.
    pub fn statistic_is_huge(&self) -> (b: bool)
        ensures
            b == below(F::from_usize_spec(999), self.statistic),
    {
        F::from_usize(999).lt(self.statistic)
    }
}

} // verus!
