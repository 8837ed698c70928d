use crate::scalar::Real;
use crate::statistics::cdf::EmpiricalCDF;
use std::cmp::Ordering;
use vstd::prelude::*;
use vstd::std_specs::cmp::{PartialEqSpec, PartialOrdSpec};

verus! {

/// Dominance turns round with its arguments: one distribution function is
/// `Less` than another exactly where the other is `Greater` than it, and
/// `Equal` and "incomparable" hold both ways or not at all.
pub proof fn lemma_dominance_reverses<T: Real>(a: &EmpiricalCDF<T>, b: &EmpiricalCDF<T>)
    ensures
        a.partial_cmp_spec(b) == Some(Ordering::Less) <==> b.partial_cmp_spec(a) == Some(
            Ordering::Greater,
        ),
        a.partial_cmp_spec(b) == Some(Ordering::Equal) <==> b.partial_cmp_spec(a) == Some(
            Ordering::Equal,
        ),
        a.partial_cmp_spec(b) is None <==> b.partial_cmp_spec(a) is None,
        a.eq_spec(b) <==> a.partial_cmp_spec(b) == Some(Ordering::Equal),
{
}

} // verus!
