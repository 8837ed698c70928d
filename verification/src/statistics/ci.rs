use crate::scalar::{below, equals, max_of, max_spec, neg_infinity_spec, not_above, Real};
use vstd::prelude::*;

verus! {

/// A statistical interval: two bounds, and optionally the point estimate
/// they belong to and the confidence level they were built for.
#[derive(Clone, Copy, Debug)]
pub struct Interval<T> {
    pub lower: T,
    pub upper: T,
    pub estimate: Option<T>,
    pub confidence: Option<T>,
}

/// How an interval is written out.
#[derive(Clone, Copy, Debug, PartialEq, Eq, Structural, Default)]
pub enum IntervalStyle {
    /// Bounds only.
    Bounds,
    /// Estimate and error, where the interval is symmetric.
    Symmetric,
    /// Estimate and bounds.
    SetNotation,
    /// Estimate and bounds with the confidence level.
    SetWith,
    /// The choice is made from what the interval holds.
    #[default]
    Guideline,
}

/// `value` lies between the bounds, ends included.
pub open spec fn within<T: Real>(lower: T, upper: T, value: T) -> bool {
    not_above(lower, value) && not_above(value, upper)
}

/// The midpoint `(lower + upper) / (1 + 1)`.
pub open spec fn midpoint_spec<T: Real>(lower: T, upper: T) -> T {
    lower.plus_spec(upper).over_spec(T::one_spec().plus_spec(T::one_spec()))
}

/// The validity check: the lower bound is not above the upper, an estimate
/// lies between them, and a confidence level lies strictly between zero and
/// one. A bound, an estimate or a level that is "not a number" fails it.
pub open spec fn valid_spec<T: Real>(it: Interval<T>) -> bool {
    &&& not_above(it.lower, it.upper)
    &&& it.estimate matches Some(e) ==> within(it.lower, it.upper, e)
    &&& it.confidence matches Some(c) ==> below(T::zero_spec(), c) && below(c, T::one_spec())
}

/// The symmetry check about `center`: the two arms differ by no more than
/// `rel_tol` times the longer one.
pub open spec fn symmetric_about<T: Real>(it: Interval<T>, center: T, rel_tol: T) -> bool {
    let left = center.minus_spec(it.lower).abs_spec();
    let right = it.upper.minus_spec(center).abs_spec();
    not_above(left.minus_spec(right).abs_spec(), rel_tol.times_spec(max_spec(left, right)))
}

/// The point the interval is centred on: its estimate, or its midpoint where
/// it has none.
pub open spec fn center_of<T: Real>(it: Interval<T>) -> T {
    match it.estimate {
        Some(e) => e,
        None => midpoint_spec(it.lower, it.upper),
    }
}

/// The style an interval is written in: the one asked for, or under
/// `Guideline` the symmetric form for a symmetric interval without a
/// confidence level, the form with the level where there is one, and the set
/// form otherwise.
pub open spec fn effective_style_spec(
    style: IntervalStyle,
    symmetric: bool,
    has_confidence: bool,
) -> IntervalStyle {
    if style != IntervalStyle::Guideline {
        style
    } else if symmetric && !has_confidence {
        IntervalStyle::Symmetric
    } else if has_confidence {
        IntervalStyle::SetWith
    } else {
        IntervalStyle::SetNotation
    }
}

impl IntervalStyle {
    /// Resolves `Guideline` into the style it stands for.
    pub fn effective(self, symmetric: bool, has_confidence: bool) -> (out: IntervalStyle)
        ensures
            out == effective_style_spec(self, symmetric, has_confidence),
            out != IntervalStyle::Guideline,
    {
        match self {
            IntervalStyle::Guideline => {
                if symmetric && !has_confidence {
                    IntervalStyle::Symmetric
                } else if has_confidence {
                    IntervalStyle::SetWith
                } else {
                    IntervalStyle::SetNotation
                }
            },
            IntervalStyle::Bounds => IntervalStyle::Bounds,
            IntervalStyle::Symmetric => IntervalStyle::Symmetric,
            IntervalStyle::SetNotation => IntervalStyle::SetNotation,
            IntervalStyle::SetWith => IntervalStyle::SetWith,
        }
    }
}

impl<T: Real> Interval<T> {
    /// The interval from `lower` to `upper`.
    pub fn new(lower: T, upper: T) -> (it: Self)
        ensures
            it == (Interval { lower, upper, estimate: None, confidence: None }),
    {
        Interval { lower, upper, estimate: None, confidence: None }
    }

    /// The interval `[estimate - error, estimate + error]`.
    pub fn symmetric(estimate: T, error: T) -> (it: Self)
        ensures
            it == (Interval {
                lower: estimate.minus_spec(error),
                upper: estimate.plus_spec(error),
                estimate: Some(estimate),
                confidence: None,
            }),
    {
        Interval {
            lower: estimate.minus(error),
            upper: estimate.plus(error),
            estimate: Some(estimate),
            confidence: None,
        }
    }

    /// The same interval with a point estimate attached.
    pub fn estimate(self, estimate: T) -> (it: Self)
        ensures
            it == (Interval { estimate: Some(estimate), ..self }),
    {
        Interval {
            lower: self.lower,
            upper: self.upper,
            estimate: Some(estimate),
            confidence: self.confidence,
        }
    }

    /// The same interval with a confidence level attached.
    pub fn confidence(self, confidence: T) -> (it: Self)
        ensures
            it == (Interval { confidence: Some(confidence), ..self }),
    {
        Interval {
            lower: self.lower,
            upper: self.upper,
            estimate: self.estimate,
            confidence: Some(confidence),
        }
    }

    /// Whether `value` lies between the bounds, ends included. False where
    /// a bound or the value is "not a number".
    pub fn contains(&self, value: &T) -> (b: bool)
        ensures
            b == within(self.lower, self.upper, *value),
    {
        self.lower.le(*value) && value.le(self.upper)
    }

    /// `upper - lower`.
    pub fn width(&self) -> (w: T)
        ensures
            w == self.upper.minus_spec(self.lower),
    {
        self.upper.minus(self.lower)
    }

    /// `(lower + upper) / 2`.
    pub fn midpoint(&self) -> (m: T)
        ensures
            m == midpoint_spec(self.lower, self.upper),
    {
        self.lower.plus(self.upper).over(T::one().plus(T::one()))
    }

    /// Whether the bounds are in order, the estimate between them and the
    /// confidence level strictly between zero and one.
    pub fn is_valid(&self) -> (b: bool)
        ensures
            b == valid_spec(*self),
    {
        if !self.lower.le(self.upper) {
            return false;
        }
        if let Some(est) = self.estimate {
            if !(self.lower.le(est) && est.le(self.upper)) {
                return false;
            }
        }
        match self.confidence {
            Some(c) => T::zero().lt(c) && c.lt(T::one()),
            None => true,
        }
    }

    /// The width over the magnitude of the midpoint; infinite where the
    /// midpoint is zero.
    pub fn relative_width(&self) -> (w: T)
        ensures
            w == if equals(midpoint_spec(self.lower, self.upper), T::zero_spec()) {
                T::infinity_spec()
            } else {
                self.upper.minus_spec(self.lower).over_spec(
                    midpoint_spec(self.lower, self.upper).abs_spec(),
                )
            },
    {
        let width: T = self.width();
        let mid: T = self.midpoint();
        if mid.same(T::zero()) {
            T::infinity()
        } else {
            width.over(mid.abs())
        }
    }

    /// Half of the width.
    pub fn half_width(&self) -> (w: T)
        ensures
            w == self.upper.minus_spec(self.lower).over_spec(
                T::one_spec().plus_spec(T::one_spec()),
            ),
    {
        self.width().over(T::one().plus(T::one()))
    }

    /// Whether the two arms about the estimate (the midpoint where there is
    /// none) differ by no more than `rel_tol` times the longer arm.
    pub fn is_symmetric(&self, rel_tol: T) -> (b: bool)
        ensures
            b == symmetric_about(*self, center_of(*self), rel_tol),
    {
        let center: T = match self.estimate {
            Some(est) => est,
            None => self.midpoint(),
        };
        let left: T = center.minus(self.lower).abs();
        let right: T = self.upper.minus(center).abs();
        left.minus(right).abs().le(rel_tol.times(max_of(left, right)))
    }

    /// The sentinel for an undefined interval: both bounds "not a number".
    pub fn nan() -> (it: Self)
        ensures
            it == (Interval {
                lower: T::nan_spec(),
                upper: T::nan_spec(),
                estimate: None,
                confidence: None,
            }),
            it.lower.is_nan_spec(),
            it.upper.is_nan_spec(),
    {
        Interval::new(T::nan(), T::nan())
    }

    /// The interval from minus to plus infinity.
    pub fn infinite() -> (it: Self)
        ensures
            it == (Interval {
                lower: neg_infinity_spec::<T>(),
                upper: T::infinity_spec(),
                estimate: None,
                confidence: None,
            }),
    {
        Interval::new(T::zero().minus(T::infinity()), T::infinity())
    }
}

/// An interval together with the way it is to be written out.
#[derive(Clone, Copy, Debug)]
pub struct FormattedInterval<T> {
    pub interval: Interval<T>,
    pub style: IntervalStyle,
    /// How many significant digits of the error are shown, one or two.
    pub uncertainty_digits: usize,
}

/// The form an interval is written in.
#[derive(Clone, Copy, Debug, PartialEq, Eq, Structural)]
pub enum Shape {
    /// `[lower, upper]`
    Bounds,
    /// `center ± error`
    PlusMinus,
    /// `center ∈ [lower, upper]`
    Member,
}

/// Everything that decides the text of an interval: its form, the center and
/// the error that the form may show, the number of decimals (none where the
/// numbers are written as they are), and whether the confidence level
/// follows.
#[derive(Clone, Copy, Debug)]
pub struct Layout<T> {
    pub shape: Shape,
    pub center: T,
    pub error: T,
    pub decimals: Option<usize>,
    pub with_confidence: bool,
}

/// The relative tolerance under which an interval counts as symmetric when
/// it is written out, `5 / 100`.
pub open spec fn display_tolerance<T: Real>() -> T {
    T::from_usize_spec(5).over_spec(T::from_usize_spec(100))
}

/// The longer of the two arms of `it` about `center`.
pub open spec fn longer_arm<T: Real>(it: Interval<T>, center: T) -> T {
    max_spec(center.minus_spec(it.lower).abs_spec(), it.upper.minus_spec(center).abs_spec())
}

/// `digits` kept to one or two.
pub open spec fn shown_digits(digits: usize) -> usize {
    if digits < 1 {
        1
    } else if digits > 2 {
        2
    } else {
        digits
    }
}

/// The number of decimals that shows `digits` significant digits of
/// `error`: `(digits - 1) - floor(log10(error))`, and no fewer than zero.
pub open spec fn decimals_for<T: Real>(error: T, digits: usize) -> usize {
    T::zero_spec().minus_spec(
        error.log10_spec().floor_spec().minus_spec(T::from_usize_spec((digits - 1) as usize)),
    ).ceil_spec()
}

/// Whether `x` is a number and not infinite.
pub open spec fn is_finite<T: Real>(x: T) -> bool {
    !x.is_nan_spec() && !x.is_infinite_spec()
}

/// How `formatted` is written out. Where the longer arm is zero or not
/// finite the numbers are written as they are, within bounds alone under the
/// style `Bounds` and as center and bounds otherwise, and the confidence
/// level follows where there is one. Otherwise the numbers are rounded to the
/// decimals of the error, and the resolved style decides: bounds alone; the
/// symmetric form where the interval is symmetric, and bounds (under
/// `Symmetric`) or center and bounds (under `SetWith`) where it is not;
/// center and bounds under `SetNotation`. The confidence level follows only
/// under `SetWith`.
pub open spec fn layout_spec<T: Real>(formatted: FormattedInterval<T>) -> Layout<T> {
    let it = formatted.interval;
    let symmetric = symmetric_about(it, center_of(it), display_tolerance::<T>());
    let style = effective_style_spec(formatted.style, symmetric, it.confidence is Some);
    let center = center_of(it);
    let error = longer_arm(it, center);
    if !is_finite(error) || equals(error, T::zero_spec()) {
        Layout {
            shape: if style == IntervalStyle::Bounds {
                Shape::Bounds
            } else {
                Shape::Member
            },
            center,
            error,
            decimals: None,
            with_confidence: it.confidence is Some,
        }
    } else {
        Layout {
            shape: if style == IntervalStyle::Bounds {
                Shape::Bounds
            } else if style == IntervalStyle::SetNotation {
                Shape::Member
            } else if symmetric {
                Shape::PlusMinus
            } else if style == IntervalStyle::Symmetric {
                Shape::Bounds
            } else {
                Shape::Member
            },
            center,
            error,
            decimals: Some(decimals_for(error, shown_digits(formatted.uncertainty_digits))),
            with_confidence: style == IntervalStyle::SetWith && it.confidence is Some,
        }
    }
}

impl<T: Real> Interval<T> {
    /// The interval together with a style to write it in, showing two
    /// significant digits of the error.
    pub fn format(&self, style: IntervalStyle) -> (f: FormattedInterval<T>)
        ensures
            f == (FormattedInterval { interval: *self, style, uncertainty_digits: 2 }),
    {
        FormattedInterval { interval: *self, style, uncertainty_digits: 2 }
    }
}

impl<T: Real> FormattedInterval<T> {
    /// Decides how the interval is written out.
    pub fn layout(&self) -> (out: Layout<T>)
        ensures
            out == layout_spec(*self),
    {
        let it = self.interval;
        let rel_tol: T = T::from_usize(5).over(T::from_usize(100));
        let symmetric: bool = it.is_symmetric(rel_tol);
        let has_confidence: bool = it.confidence.is_some();
        let style: IntervalStyle = self.style.effective(symmetric, has_confidence);
        let center: T = match it.estimate {
            Some(est) => est,
            None => it.midpoint(),
        };
        let error: T = max_of(center.minus(it.lower).abs(), it.upper.minus(center).abs());
        if error.is_nan() || error.is_infinite() || error.same(T::zero()) {
            let shape: Shape = match style {
                IntervalStyle::Bounds => Shape::Bounds,
                _ => Shape::Member,
            };
            return Layout { shape, center, error, decimals: None, with_confidence: has_confidence };
        }
        let digits: usize = if self.uncertainty_digits < 1 {
            1
        } else if self.uncertainty_digits > 2 {
            2
        } else {
            self.uncertainty_digits
        };
        let decimals: usize = T::zero().minus(
            error.log10().floor().minus(T::from_usize(digits - 1)),
        ).ceil();
        let shape: Shape = match style {
            IntervalStyle::Bounds => Shape::Bounds,
            IntervalStyle::SetNotation => Shape::Member,
            IntervalStyle::Symmetric => if symmetric {
                Shape::PlusMinus
            } else {
                Shape::Bounds
            },
            _ => if symmetric {
                Shape::PlusMinus
            } else {
                Shape::Member
            },
        };
        let with_confidence: bool = match style {
            IntervalStyle::SetWith => has_confidence,
            _ => false,
        };
        Layout { shape, center, error, decimals: Some(decimals), with_confidence }
    }
}

/// A valid interval is made of numbers, has its bounds in order and its
/// estimate, if it has one, between them.
pub proof fn lemma_valid_interval_is_ordered<T: Real>(it: Interval<T>)
    requires
        valid_spec(it),
    ensures
        !it.lower.is_nan_spec(),
        !it.upper.is_nan_spec(),
        it.lower.rank() <= it.upper.rank(),
        it.estimate matches Some(e) ==> !e.is_nan_spec() && it.lower.rank() <= e.rank()
            <= it.upper.rank(),
        it.confidence matches Some(c) ==> below(T::zero_spec(), c) && below(c, T::one_spec()),
{
}

/// An interval with a bound that is "not a number" is not valid, whatever
/// else it holds; so the undefined interval is not.
pub proof fn lemma_undefined_interval_is_not_valid<T: Real>(it: Interval<T>)
    requires
        it.lower.is_nan_spec() || it.upper.is_nan_spec(),
    ensures
        !valid_spec(it),
{
}

} // verus!
