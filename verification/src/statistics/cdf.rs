use crate::scalar::{not_above, Real};
use crate::statistics::order::sort_numbers;
use crate::statistics::{Observations, Statistic};
use vstd::prelude::*;

verus! {

/// The empirical cumulative distribution function of a sample: its numbers
/// in non-decreasing order. Entries that are "not a number" are left out
/// when the function is built, so `n()` counts numbers only.
#[derive(Debug)]
pub struct EmpiricalCDF<T: Real> {
    sorted: Vec<T>,
}

/// The statistic that builds the empirical distribution function.
#[derive(Debug, Clone, Copy, Default)]
pub struct CDF;

/// The entries of `s` that are numbers, in their order.
pub open spec fn numbers_of<T: Real>(s: Seq<T>) -> Seq<T>
    decreases s.len(),
{
    if s.len() == 0 {
        s
    } else if s.last().is_nan_spec() {
        numbers_of(s.drop_last())
    } else {
        numbers_of(s.drop_last()).push(s.last())
    }
}

/// Every entry of `s` is a number.
pub open spec fn all_numbers<T: Real>(s: Seq<T>) -> bool {
    forall|i: int| 0 <= i < s.len() ==> !(#[trigger] s[i]).is_nan_spec()
}

/// `s` holds numbers only, in non-decreasing order.
pub open spec fn is_ordered<T: Real>(s: Seq<T>) -> bool {
    &&& all_numbers(s)
    &&& forall|i: int, j: int|
        0 <= i <= j < s.len() ==> (#[trigger] s[i]).rank() <= (#[trigger] s[j]).rank()
}

/// How many entries of `s` are numbers not above `x`.
pub open spec fn count_not_above<T: Real>(s: Seq<T>, x: T) -> nat
    decreases s.len(),
{
    if s.len() == 0 {
        0
    } else if not_above(s.last(), x) {
        count_not_above(s.drop_last(), x) + 1
    } else {
        count_not_above(s.drop_last(), x)
    }
}

/// At `x` the step function of `f` is not above that of `g`: the fractions
/// `count(f, x) / |f|` and `count(g, x) / |g|`, compared exactly by cross
/// multiplication.
pub open spec fn step_not_above<T: Real>(f: Seq<T>, g: Seq<T>, x: T) -> bool {
    count_not_above(f, x) * g.len() <= count_not_above(g, x) * f.len()
}

/// The step function of `f` is not above that of `g` at any jump point of
/// either.
pub open spec fn never_above<T: Real>(f: Seq<T>, g: Seq<T>) -> bool {
    &&& forall|i: int| 0 <= i < f.len() ==> step_not_above(f, g, #[trigger] f[i])
    &&& forall|j: int| 0 <= j < g.len() ==> step_not_above(f, g, #[trigger] g[j])
}

/// The value of the distribution function of `points` at `x`: undefined for
/// a query that is not a number and for no points, one and zero at plus and
/// minus infinity, and otherwise the fraction of points not above `x`.
pub open spec fn step_value<T: Real>(points: Seq<T>, x: T) -> T {
    if x.is_nan_spec() {
        T::nan_spec()
    } else if x.is_infinite_spec() {
        if x.is_sign_positive_spec() {
            T::one_spec()
        } else {
            T::zero_spec()
        }
    } else if points.len() == 0 {
        T::nan_spec()
    } else {
        T::from_usize_spec(count_not_above(points, x) as usize).over_spec(
            T::from_usize_spec(points.len() as usize),
        )
    }
}

/// The `t`-th jump point of `f` and `g` taken together, those of `f` first.
pub open spec fn jump_point<T: Real>(f: Seq<T>, g: Seq<T>, t: int) -> T {
    if t < f.len() {
        f[t]
    } else {
        g[t - f.len()]
    }
}

/// The step function of `f` is not above that of `g` at the first `upto`
/// jump points of `lead` and `rest` taken together.
pub open spec fn not_above_upto<T: Real>(
    f: Seq<T>,
    g: Seq<T>,
    lead: Seq<T>,
    rest: Seq<T>,
    upto: int,
) -> bool {
    forall|t: int| 0 <= t < upto ==> step_not_above(f, g, #[trigger] jump_point(lead, rest, t))
}

/// Looking at all jump points in one run is looking at those of each side.
pub proof fn lemma_never_above_by_jump_points<T: Real>(f: Seq<T>, g: Seq<T>)
    ensures
        never_above(f, g) == not_above_upto(f, g, f, g, (f.len() + g.len()) as int),
        never_above(g, f) == not_above_upto(g, f, f, g, (f.len() + g.len()) as int),
{
    let total = (f.len() + g.len()) as int;
    if never_above(f, g) {
        assert forall|t: int| 0 <= t < total implies step_not_above(
            f,
            g,
            #[trigger] jump_point(f, g, t),
        ) by {
            if t < f.len() {
                assert(step_not_above(f, g, f[t]));
            } else {
                assert(step_not_above(f, g, g[t - f.len()]));
            }
        }
    }
    if not_above_upto(f, g, f, g, total) {
        assert forall|i: int| 0 <= i < f.len() implies step_not_above(f, g, #[trigger] f[i]) by {
            assert(jump_point(f, g, i) == f[i]);
        }
        assert forall|j: int| 0 <= j < g.len() implies step_not_above(f, g, #[trigger] g[j]) by {
            assert(jump_point(f, g, j + f.len()) == g[j]);
        }
    }
    if never_above(g, f) {
        assert forall|t: int| 0 <= t < total implies step_not_above(
            g,
            f,
            #[trigger] jump_point(f, g, t),
        ) by {
            if t < f.len() {
                assert(step_not_above(g, f, f[t]));
            } else {
                assert(step_not_above(g, f, g[t - f.len()]));
            }
        }
    }
    if not_above_upto(g, f, f, g, total) {
        assert forall|i: int| 0 <= i < f.len() implies step_not_above(g, f, #[trigger] f[i]) by {
            assert(jump_point(f, g, i) == f[i]);
        }
        assert forall|j: int| 0 <= j < g.len() implies step_not_above(g, f, #[trigger] g[j]) by {
            assert(jump_point(f, g, j + f.len()) == g[j]);
        }
    }
}

/// Where the entries not above `x` are exactly the first `split` entries,
/// their count is `split`.
pub proof fn lemma_count_at_partition<T: Real>(s: Seq<T>, x: T, split: int)
    requires
        0 <= split <= s.len(),
        forall|i: int| 0 <= i < split ==> not_above(#[trigger] s[i], x),
        forall|i: int| split <= i < s.len() ==> !not_above(#[trigger] s[i], x),
    ensures
        count_not_above(s, x) == split,
    decreases s.len(),
{
    if s.len() > 0 {
        let shorter = s.drop_last();
        if split == s.len() {
            assert(s.last() == s[s.len() - 1]);
            assert forall|i: int| 0 <= i < split - 1 implies not_above(#[trigger] shorter[i], x) by {
                assert(shorter[i] == s[i]);
            }
            lemma_count_at_partition(shorter, x, split - 1);
        } else {
            assert(s.last() == s[s.len() - 1]);
            assert forall|i: int| 0 <= i < split implies not_above(#[trigger] shorter[i], x) by {
                assert(shorter[i] == s[i]);
            }
            assert forall|i: int| split <= i < shorter.len() implies !not_above(#[trigger] shorter[i], x) by {
                assert(shorter[i] == s[i]);
            }
            lemma_count_at_partition(shorter, x, split);
        }
    }
}

/// The numbers of a sequence are numbers.
pub proof fn lemma_numbers_are_numbers<T: Real>(s: Seq<T>)
    ensures
        all_numbers(numbers_of(s)),
        numbers_of(s).len() <= s.len(),
    decreases s.len(),
{
    if s.len() > 0 {
        lemma_numbers_are_numbers(s.drop_last());
    }
}

impl<T: Real> View for EmpiricalCDF<T> {
    type V = Seq<T>;

    /// The points of the distribution function, in non-decreasing order.
    closed spec fn view(&self) -> Seq<T> {
        self.sorted@
    }
}

impl<T: Real> Clone for EmpiricalCDF<T> {
    fn clone(&self) -> (out: Self)
        ensures
            out@ == self@,
    {
        proof {
            use_type_invariant(self);
        }
        EmpiricalCDF { sorted: crate::sample::copy_of(self.sorted.as_slice()) }
    }
}

impl<T: Real> EmpiricalCDF<T> {
    #[verifier::type_invariant]
    spec fn wf(&self) -> bool {
        is_ordered(self.sorted@)
    }

    /// Number of points.
    pub fn n(&self) -> (n: usize)
        ensures
            n == self@.len(),
    {
        self.sorted.len()
    }

    /// The points, in non-decreasing order.
    pub fn points(&self) -> (s: &[T])
        ensures
            s@ == self@,
            is_ordered(s@),
    {
        proof {
            use_type_invariant(self);
        }
        self.sorted.as_slice()
    }

    /// Number of points.
    pub fn len(&self) -> (n: usize)
        ensures
            n == self@.len(),
    {
        self.sorted.len()
    }

    /// True when there is no point.
    pub fn is_empty(&self) -> (b: bool)
        ensures
            b == (self@.len() == 0),
    {
        self.sorted.len() == 0
    }

    /// Builds the distribution function of `data`: the entries that are
    /// numbers, each as often as it occurs in `data`, in non-decreasing
    /// order.
    pub fn from_float_slice(data: &[T]) -> (out: Self)
        ensures
            is_ordered(out@),
            out@.to_multiset() == numbers_of(data@).to_multiset(),
            out@.len() == numbers_of(data@).len(),
    {
        let n: usize = data.len();
        let mut kept: Vec<T> = Vec::new();
        let mut i: usize = 0;
        assert(data@.take(0) == Seq::<T>::empty());
        while i < n
            invariant
                n == data@.len(),
                i <= n,
                kept@ == numbers_of(data@.take(i as int)),
            decreases n - i,
        {
            assert(data@.take(i + 1).drop_last() == data@.take(i as int));
            let x: T = data[i];
            if !x.is_nan() {
                kept.push(x);
            }
            i += 1;
        }
        assert(data@.take(n as int) == data@);
        proof {
            lemma_numbers_are_numbers(data@);
        }
        let ghost before = kept@;
        sort_numbers(&mut kept);
        proof {
            before.to_multiset_ensures();
            kept@.to_multiset_ensures();
        }
        EmpiricalCDF { sorted: kept }
    }

    /// How many points are not above `x`; none where `x` is not a number.
    pub fn count_leq(&self, x: &T) -> (k: usize)
        ensures
            k == count_not_above(self@, *x),
            k <= self@.len(),
    {
        proof {
            use_type_invariant(self);
        }
        let mut lo: usize = 0;
        let mut hi: usize = self.sorted.len();
        while lo < hi
            invariant
                is_ordered(self.sorted@),
                lo <= hi <= self.sorted@.len(),
                forall|i: int| 0 <= i < lo ==> not_above(#[trigger] self.sorted@[i], *x),
                forall|i: int|
                    hi <= i < self.sorted@.len() ==> !not_above(#[trigger] self.sorted@[i], *x),
            decreases hi - lo,
        {
            let mid: usize = lo + (hi - lo) / 2;
            if self.sorted[mid].le(*x) {
                assert forall|i: int| 0 <= i < mid + 1 implies not_above(#[trigger] self.sorted@[i], *x) by {
                    assert(self.sorted@[i].rank() <= self.sorted@[mid as int].rank());
                }
                lo = mid + 1;
            } else {
                assert forall|i: int| mid <= i < self.sorted@.len() implies !not_above(
                    #[trigger] self.sorted@[i],
                    *x,
                ) by {
                    assert(self.sorted@[mid as int].rank() <= self.sorted@[i].rank());
                }
                hi = mid;
            }
        }
        proof {
            lemma_count_at_partition(self.sorted@, *x, lo as int);
        }
        lo
    }

    /// The value of the distribution function at `x`.
    pub fn eval_float(&self, x: &T) -> (out: T)
        ensures
            out == step_value(self@, *x),
    {
        if x.is_nan() {
            return T::nan();
        }
        if x.is_infinite() {
            return if x.is_sign_positive() {
                T::one()
            } else {
                T::zero()
            };
        }
        let n: usize = self.sorted.len();
        if n == 0 {
            return T::nan();
        }
        let idx: usize = self.count_leq(x);
        T::from_usize(idx).over(T::from_usize(n))
    }

    /// Compares the step functions of `self` and `other` at every jump point
    /// of either: whether `self` is nowhere above `other`, and whether
    /// `other` is nowhere above `self`. Counts are compared by cross
    /// multiplication in integers, so rounding plays no part.
    pub fn compare_steps(&self, other: &Self) -> (flags: (bool, bool))
        ensures
            flags.0 == never_above(self@, other@),
            flags.1 == never_above(other@, self@),
    {
        let n_self: usize = self.sorted.len();
        let n_other: usize = other.sorted.len();
        let mut self_below: bool = true;
        let mut other_below: bool = true;
        proof {
            lemma_never_above_by_jump_points(self@, other@);
        }
        let mut t: usize = 0;
        while t < n_self
            invariant
                n_self == self@.len(),
                n_other == other@.len(),
                t <= n_self,
                self_below == not_above_upto(self@, other@, self@, other@, t as int),
                other_below == not_above_upto(other@, self@, self@, other@, t as int),
                self_below || other_below,
            decreases n_self - t,
        {
            let x: T = self.sorted[t];
            assert(jump_point(self@, other@, t as int) == x);
            let (a, b) = self.compare_at(other, &x);
            if !a {
                self_below = false;
            }
            if !b {
                other_below = false;
            }
            if !self_below && !other_below {
                assert(!not_above_upto(self@, other@, self@, other@, n_self + n_other));
                assert(!not_above_upto(other@, self@, self@, other@, n_self + n_other));
                return (false, false);
            }
            t += 1;
        }
        let mut u: usize = 0;
        while u < n_other
            invariant
                n_self == self@.len(),
                n_other == other@.len(),
                u <= n_other,
                self_below == not_above_upto(self@, other@, self@, other@, n_self + u),
                other_below == not_above_upto(other@, self@, self@, other@, n_self + u),
                self_below || other_below,
            decreases n_other - u,
        {
            let x: T = other.sorted[u];
            assert(jump_point(self@, other@, n_self + u) == x);
            let (a, b) = self.compare_at(other, &x);
            if !a {
                self_below = false;
            }
            if !b {
                other_below = false;
            }
            if !self_below && !other_below {
                assert(!not_above_upto(self@, other@, self@, other@, n_self + n_other));
                assert(!not_above_upto(other@, self@, self@, other@, n_self + n_other));
                return (false, false);
            }
            u += 1;
        }
        (self_below, other_below)
    }

    /// Compares the two step functions at the one point `x`.
    pub fn compare_at(&self, other: &Self, x: &T) -> (flags: (bool, bool))
        ensures
            flags.0 == step_not_above(self@, other@, *x),
            flags.1 == step_not_above(other@, self@, *x),
    {
        let n_self: u128 = self.sorted.len() as u128;
        let n_other: u128 = other.sorted.len() as u128;
        let k_self: u128 = self.count_leq(x) as u128;
        let k_other: u128 = other.count_leq(x) as u128;
        assert(k_self * n_other <= 0xffff_ffff_ffff_ffff * 0xffff_ffff_ffff_ffff
            && k_other * n_self <= 0xffff_ffff_ffff_ffff * 0xffff_ffff_ffff_ffff)
            by (nonlinear_arith)
            requires
                0 <= k_self <= 0xffff_ffff_ffff_ffff,
                0 <= k_other <= 0xffff_ffff_ffff_ffff,
                0 <= n_self <= 0xffff_ffff_ffff_ffff,
                0 <= n_other <= 0xffff_ffff_ffff_ffff,
        ;
        let left: u128 = k_self * n_other;
        let right: u128 = k_other * n_self;
        (left <= right, right <= left)
    }
}

impl<D: Observations<T>, T: Real> Statistic<D, EmpiricalCDF<T>> for CDF {
    open spec fn accepts(&self, data: &D) -> bool {
        true
    }

    open spec fn admits(&self, data: &D, out: EmpiricalCDF<T>) -> bool {
        &&& is_ordered(out@)
        &&& out@.to_multiset() == numbers_of(data.values()).to_multiset()
    }

    fn compute(&self, data: &D) -> (out: EmpiricalCDF<T>) {
        EmpiricalCDF::from_float_slice(data.as_slice())
    }
}

} // verus!
