use vstd::prelude::*;

verus! {

/// The real scalars that samples are made of: an ordered field with
/// conversions from machine integers and the IEEE 754 notions of "not a
/// number" and infinity.
///
/// Arithmetic is described by naming its results: every operation has a
/// specification twin, and the executable operation returns exactly what the
/// twin names. Results are told apart as values, not as bit patterns: an
/// implementation whose "not a number" comes in several patterns stands for
/// all of them by one value. Order is described through `rank`, an order-preserving
/// numbering of the values that are numbers: comparisons involving "not a
/// number" are false, and two numbers compare as their ranks do (so the two
/// zeros of IEEE 754 share a rank).
pub trait Real: Copy {
    spec fn is_nan_spec(self) -> bool;

    spec fn rank(self) -> i128;

    spec fn zero_spec() -> Self;

    spec fn one_spec() -> Self;

    spec fn nan_spec() -> Self;

    spec fn infinity_spec() -> Self;

    spec fn epsilon_spec() -> Self;

    spec fn from_usize_spec(n: usize) -> Self;

    spec fn plus_spec(self, rhs: Self) -> Self;

    spec fn minus_spec(self, rhs: Self) -> Self;

    spec fn times_spec(self, rhs: Self) -> Self;

    spec fn over_spec(self, rhs: Self) -> Self;

    spec fn abs_spec(self) -> Self;

    spec fn sqrt_spec(self) -> Self;

    spec fn powi_spec(self, n: i32) -> Self;

    spec fn cbrt_spec(self) -> Self;

    spec fn ln_spec(self) -> Self;

    spec fn exp_spec(self) -> Self;

    spec fn log10_spec(self) -> Self;

    spec fn floor_spec(self) -> Self;

    spec fn erfc_spec(self) -> Self;

    spec fn ceil_spec(self) -> usize;

    spec fn trunc_spec(self) -> usize;

    spec fn is_infinite_spec(self) -> bool;

    spec fn is_sign_positive_spec(self) -> bool;

    /// The named constants are what they are called: the sentinel is "not
    /// a number", and zero, one, infinity, the machine epsilon and every
    /// count are numbers.
    proof fn constants_are_as_named()
        ensures
            Self::nan_spec().is_nan_spec(),
            !Self::zero_spec().is_nan_spec(),
            !Self::one_spec().is_nan_spec(),
            !Self::infinity_spec().is_nan_spec(),
            !Self::epsilon_spec().is_nan_spec(),
            forall|n: usize| !(#[trigger] Self::from_usize_spec(n)).is_nan_spec(),
    ;

    /// The additive identity, a number.
    fn zero() -> (r: Self)
        ensures
            r == Self::zero_spec(),
            !r.is_nan_spec(),
    ;

    /// The multiplicative identity, a number.
    fn one() -> (r: Self)
        ensures
            r == Self::one_spec(),
            !r.is_nan_spec(),
    ;

    /// The "undefined" sentinel.
    fn nan() -> (r: Self)
        ensures
            r == Self::nan_spec(),
            r.is_nan_spec(),
    ;

    /// Positive infinity, a number above every other.
    fn infinity() -> (r: Self)
        ensures
            r == Self::infinity_spec(),
            !r.is_nan_spec(),
    ;

    /// The gap between one and the next larger value.
    fn epsilon() -> (r: Self)
        ensures
            r == Self::epsilon_spec(),
            !r.is_nan_spec(),
    ;

    /// The scalar nearest to the count `n`.
    fn from_usize(n: usize) -> (r: Self)
        ensures
            r == Self::from_usize_spec(n),
            !r.is_nan_spec(),
    ;

    fn plus(self, rhs: Self) -> (r: Self)
        ensures
            r == self.plus_spec(rhs),
    ;

    fn minus(self, rhs: Self) -> (r: Self)
        ensures
            r == self.minus_spec(rhs),
    ;

    fn times(self, rhs: Self) -> (r: Self)
        ensures
            r == self.times_spec(rhs),
    ;

    fn over(self, rhs: Self) -> (r: Self)
        ensures
            r == self.over_spec(rhs),
    ;

    fn abs(self) -> (r: Self)
        ensures
            r == self.abs_spec(),
    ;

    fn sqrt(self) -> (r: Self)
        ensures
            r == self.sqrt_spec(),
    ;

    /// `self` raised to the integer power `n`.
    fn powi(self, n: i32) -> (r: Self)
        ensures
            r == self.powi_spec(n),
    ;

    fn cbrt(self) -> (r: Self)
        ensures
            r == self.cbrt_spec(),
    ;

    fn ln(self) -> (r: Self)
        ensures
            r == self.ln_spec(),
    ;

    fn exp(self) -> (r: Self)
        ensures
            r == self.exp_spec(),
    ;

    /// The logarithm to base ten.
    fn log10(self) -> (r: Self)
        ensures
            r == self.log10_spec(),
    ;

    /// The greatest whole number not above `self`, as a scalar.
    fn floor(self) -> (r: Self)
        ensures
            r == self.floor_spec(),
    ;

    /// The complementary error function.
    fn erfc(self) -> (r: Self)
        ensures
            r == self.erfc_spec(),
    ;

    /// The least integer not below `self`, cut to the range of `usize`
    /// (zero for negative values and for "not a number").
    fn ceil(self) -> (r: usize)
        ensures
            r == self.ceil_spec(),
    ;

    /// The integer part of `self`, cut to the range of `usize` (zero for
    /// negative values and for "not a number").
    fn trunc(self) -> (r: usize)
        ensures
            r == self.trunc_spec(),
    ;

    fn is_nan(self) -> (b: bool)
        ensures
            b == self.is_nan_spec(),
    ;

    fn is_infinite(self) -> (b: bool)
        ensures
            b == self.is_infinite_spec(),
            b ==> !self.is_nan_spec(),
    ;

    fn is_sign_positive(self) -> (b: bool)
        ensures
            b == self.is_sign_positive_spec(),
    ;

    /// `self < rhs`, false when either side is "not a number".
    fn lt(self, rhs: Self) -> (b: bool)
        ensures
            b == (!self.is_nan_spec() && !rhs.is_nan_spec() && self.rank() < rhs.rank()),
    ;

    /// `self <= rhs`, false when either side is "not a number".
    fn le(self, rhs: Self) -> (b: bool)
        ensures
            b == (!self.is_nan_spec() && !rhs.is_nan_spec() && self.rank() <= rhs.rank()),
    ;

    /// `self == rhs`, false when either side is "not a number".
    fn same(self, rhs: Self) -> (b: bool)
        ensures
            b == (!self.is_nan_spec() && !rhs.is_nan_spec() && self.rank() == rhs.rank()),
    ;
}

/// Both sides are numbers and `a` is strictly the smaller.
pub open spec fn below<T: Real>(a: T, b: T) -> bool {
    !a.is_nan_spec() && !b.is_nan_spec() && a.rank() < b.rank()
}

/// Both sides are numbers and `a` is not the larger.
pub open spec fn not_above<T: Real>(a: T, b: T) -> bool {
    !a.is_nan_spec() && !b.is_nan_spec() && a.rank() <= b.rank()
}

/// Both sides are numbers and neither is the larger.
pub open spec fn equals<T: Real>(a: T, b: T) -> bool {
    !a.is_nan_spec() && !b.is_nan_spec() && a.rank() == b.rank()
}

/// `x` compares equal to zero (either zero of IEEE 754 does).
pub open spec fn is_zero<T: Real>(x: T) -> bool {
    equals(x, T::zero_spec())
}

/// The larger of two scalars; where one of them is "not a number", the
/// other.
pub open spec fn max_spec<T: Real>(a: T, b: T) -> T {
    if a.is_nan_spec() {
        b
    } else if b.is_nan_spec() {
        a
    } else if a.rank() < b.rank() {
        b
    } else {
        a
    }
}

/// The larger of two scalars; where one of them is "not a number", the
/// other.
pub fn max_of<T: Real>(a: T, b: T) -> (m: T)
    ensures
        m == max_spec(a, b),
{
    if a.is_nan() {
        b
    } else if b.is_nan() {
        a
    } else if a.lt(b) {
        b
    } else {
        a
    }
}

/// The smaller of two scalars; where one of them is "not a number", the
/// other.
pub open spec fn min_spec<T: Real>(a: T, b: T) -> T {
    if a.is_nan_spec() {
        b
    } else if b.is_nan_spec() {
        a
    } else if b.rank() < a.rank() {
        b
    } else {
        a
    }
}

/// The smaller of two scalars; where one of them is "not a number", the
/// other.
pub fn min_of<T: Real>(a: T, b: T) -> (m: T)
    ensures
        m == min_spec(a, b),
{
    if a.is_nan() {
        b
    } else if b.is_nan() {
        a
    } else if b.lt(a) {
        b
    } else {
        a
    }
}

/// Negative infinity, as `0 - infinity`.
pub open spec fn neg_infinity_spec<T: Real>() -> T {
    T::zero_spec().minus_spec(T::infinity_spec())
}

} // verus!
