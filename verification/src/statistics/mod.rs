pub mod basic;
pub mod cdf;
pub mod ci;
pub mod dominance;
pub mod functions;
pub mod mean;
pub mod order;
pub mod quantile;
pub mod se;
pub mod standardize;
pub mod studentized;
pub mod studentized_bootstrap;
pub mod summation;
pub mod tuples;

use crate::sample::Sample;
use vstd::prelude::*;

verus! {

/// A function object from data to a result.
///
/// `accepts` says on which data the statistic may be asked, and `admits`
/// which results it may give there. A statistic that draws no random numbers
/// admits exactly one result for each data set.
pub trait Statistic<D, T> {
    spec fn accepts(&self, data: &D) -> bool;

    spec fn admits(&self, data: &D, out: T) -> bool;

    fn compute(&self, data: &D) -> (out: T)
        requires
            self.accepts(data),
        ensures
            self.admits(data, out),
    ;
}

/// A transformation of data that brings it to a standard location or scale.
pub trait Standardize<D, F> {
    spec fn accepts(&self, data: &D) -> bool;

    spec fn admits(&self, data: &D, out: D) -> bool;

    fn standardize(&self, data: &D) -> (out: D)
        requires
            self.accepts(data),
        ensures
            self.admits(data, out),
    ;
}

/// Data that can be read, and built, as a contiguous run of observations.
pub trait Observations<T>: Sized {
    /// The observations, in order.
    spec fn values(&self) -> Seq<T>;

    fn as_slice(&self) -> (s: &[T])
        ensures
            s@ == self.values(),
    ;

    fn from_vec(data: Vec<T>) -> (out: Self)
        ensures
            out.values() == data@,
    ;
}

impl<T> Observations<T> for Sample<T> {
    open spec fn values(&self) -> Seq<T> {
        self@
    }

    fn as_slice(&self) -> (s: &[T]) {
        self.data.as_slice()
    }

    fn from_vec(data: Vec<T>) -> (out: Self) {
        Sample::new(data)
    }
}

impl<T> Observations<T> for Vec<T> {
    open spec fn values(&self) -> Seq<T> {
        self@
    }

    fn as_slice(&self) -> (s: &[T]) {
        self.as_slice()
    }

    fn from_vec(data: Vec<T>) -> (out: Self) {
        data
    }
}

impl<T> Sample<T> {
    /// Applies `statistic` to this sample.
    pub fn estimate<Output, S: Statistic<Self, Output>>(&self, statistic: S) -> (out: Output)
        requires
            statistic.accepts(self),
        ensures
            statistic.admits(self, out),
    {
        statistic.compute(self)
    }
}

} // verus!
