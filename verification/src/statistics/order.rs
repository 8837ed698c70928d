use crate::scalar::{below, Real};
use crate::statistics::cdf::{all_numbers, is_ordered, never_above, EmpiricalCDF};
use std::cmp::Ordering;
use vstd::prelude::*;
use vstd::std_specs::cmp::{PartialEqSpecImpl, PartialOrdSpecImpl};

verus! {

/// How two scalars stand to each other: `Less` and `Greater` where one is
/// strictly below the other, `Equal` otherwise.
pub fn ordering_of<T: Real>(a: T, b: T) -> (o: Ordering)
    ensures
        below(a, b) ==> o == Ordering::Less,
        below(b, a) ==> o == Ordering::Greater,
        !below(a, b) && !below(b, a) ==> o == Ordering::Equal,
{
    if a.lt(b) {
        Ordering::Less
    } else if b.lt(a) {
        Ordering::Greater
    } else {
        Ordering::Equal
    }
}

/// `slice::sort_by` with `ordering_of` as the comparator. On numbers the
/// comparator is a total order of ranks, for which the standard library
/// documents that the slice ends up sorted, holding what it held before.
#[verifier::external_body]
pub(crate) fn sort_numbers<T: Real>(v: &mut Vec<T>)
    requires
        all_numbers(old(v)@),
    ensures
        is_ordered(final(v)@),
        final(v)@.to_multiset() == old(v)@.to_multiset(),
{
    v.sort_by(|a, b| ordering_of(*a, *b));
}

impl<T: Real> PartialEq for EmpiricalCDF<T> {
    /// Two distribution functions are equal where each is nowhere above the
    /// other.
    fn eq(&self, other: &Self) -> (r: bool) {
        if self.is_empty() || other.is_empty() {
            return false;
        }
        let flags = self.compare_steps(other);
        flags.0 && flags.1
    }
}

impl<T: Real> PartialEqSpecImpl for EmpiricalCDF<T> {
    open spec fn obeys_eq_spec() -> bool {
        true
    }

    open spec fn eq_spec(&self, other: &Self) -> bool {
        self@.len() > 0 && other@.len() > 0 && never_above(self@, other@) && never_above(
            other@,
            self@,
        )
    }
}

impl<T: Real> PartialOrd for EmpiricalCDF<T> {
    /// First-order stochastic dominance. `Less` where `self` is nowhere
    /// above `other` but differs from it, `Greater` the other way round,
    /// `Equal` where the two agree at every jump point, and `None` where the
    /// functions cross or one of them has no points.
    fn partial_cmp(&self, other: &Self) -> (r: Option<Ordering>) {
        if self.is_empty() || other.is_empty() {
            return None;
        }
        let flags = self.compare_steps(other);
        if flags.0 && flags.1 {
            Some(Ordering::Equal)
        } else if flags.0 {
            Some(Ordering::Less)
        } else if flags.1 {
            Some(Ordering::Greater)
        } else {
            None
        }
    }
}

impl<T: Real> PartialOrdSpecImpl for EmpiricalCDF<T> {
    open spec fn obeys_partial_cmp_spec() -> bool {
        true
    }

    open spec fn partial_cmp_spec(&self, other: &Self) -> Option<Ordering> {
        if self@.len() == 0 || other@.len() == 0 {
            None
        } else if never_above(self@, other@) && never_above(other@, self@) {
            Some(Ordering::Equal)
        } else if never_above(self@, other@) {
            Some(Ordering::Less)
        } else if never_above(other@, self@) {
            Some(Ordering::Greater)
        } else {
            None
        }
    }
}

} // verus!
