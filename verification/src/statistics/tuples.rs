use crate::statistics::Statistic;
use vstd::prelude::*;

verus! {

/// The statistic of nothing.
impl<D> Statistic<D, ()> for () {
    open spec fn accepts(&self, data: &D) -> bool {
        true
    }

    open spec fn admits(&self, data: &D, out: ()) -> bool {
        true
    }

    fn compute(&self, data: &D) -> (out: ()) {
        ()
    }
}

/// A tuple of statistics is the statistic that runs each member on the same
/// data and gives the tuple of their results.
impl<
    D,
    T1,
    S1: Statistic<D, T1>,
> Statistic<D, (T1,)> for (S1,) {
    open spec fn accepts(&self, data: &D) -> bool {
        &&& self.0.accepts(data)
    }

    open spec fn admits(&self, data: &D, out: (T1,)) -> bool {
        &&& self.0.admits(data, out.0)
    }

    fn compute(&self, data: &D) -> (out: (T1,)) {
        (
            self.0.compute(data),
        )
    }
}

impl<
    D,
    T1,
    T2,
    S1: Statistic<D, T1>,
    S2: Statistic<D, T2>,
> Statistic<D, (T1, T2)> for (S1, S2) {
    open spec fn accepts(&self, data: &D) -> bool {
        &&& self.0.accepts(data)
        &&& self.1.accepts(data)
    }

    open spec fn admits(&self, data: &D, out: (T1, T2)) -> bool {
        &&& self.0.admits(data, out.0)
        &&& self.1.admits(data, out.1)
    }

    fn compute(&self, data: &D) -> (out: (T1, T2)) {
        (
            self.0.compute(data),
            self.1.compute(data),
        )
    }
}

impl<
    D,
    T1,
    T2,
    T3,
    S1: Statistic<D, T1>,
    S2: Statistic<D, T2>,
    S3: Statistic<D, T3>,
> Statistic<D, (T1, T2, T3)> for (S1, S2, S3) {
    open spec fn accepts(&self, data: &D) -> bool {
        &&& self.0.accepts(data)
        &&& self.1.accepts(data)
        &&& self.2.accepts(data)
    }

    open spec fn admits(&self, data: &D, out: (T1, T2, T3)) -> bool {
        &&& self.0.admits(data, out.0)
        &&& self.1.admits(data, out.1)
        &&& self.2.admits(data, out.2)
    }

    fn compute(&self, data: &D) -> (out: (T1, T2, T3)) {
        (
            self.0.compute(data),
            self.1.compute(data),
            self.2.compute(data),
        )
    }
}

impl<
    D,
    T1,
    T2,
    T3,
    T4,
    S1: Statistic<D, T1>,
    S2: Statistic<D, T2>,
    S3: Statistic<D, T3>,
    S4: Statistic<D, T4>,
> Statistic<D, (T1, T2, T3, T4)> for (S1, S2, S3, S4) {
    open spec fn accepts(&self, data: &D) -> bool {
        &&& self.0.accepts(data)
        &&& self.1.accepts(data)
        &&& self.2.accepts(data)
        &&& self.3.accepts(data)
    }

    open spec fn admits(&self, data: &D, out: (T1, T2, T3, T4)) -> bool {
        &&& self.0.admits(data, out.0)
        &&& self.1.admits(data, out.1)
        &&& self.2.admits(data, out.2)
        &&& self.3.admits(data, out.3)
    }

    fn compute(&self, data: &D) -> (out: (T1, T2, T3, T4)) {
        (
            self.0.compute(data),
            self.1.compute(data),
            self.2.compute(data),
            self.3.compute(data),
        )
    }
}

impl<
    D,
    T1,
    T2,
    T3,
    T4,
    T5,
    S1: Statistic<D, T1>,
    S2: Statistic<D, T2>,
    S3: Statistic<D, T3>,
    S4: Statistic<D, T4>,
    S5: Statistic<D, T5>,
> Statistic<D, (T1, T2, T3, T4, T5)> for (S1, S2, S3, S4, S5) {
    open spec fn accepts(&self, data: &D) -> bool {
        &&& self.0.accepts(data)
        &&& self.1.accepts(data)
        &&& self.2.accepts(data)
        &&& self.3.accepts(data)
        &&& self.4.accepts(data)
    }

    open spec fn admits(&self, data: &D, out: (T1, T2, T3, T4, T5)) -> bool {
        &&& self.0.admits(data, out.0)
        &&& self.1.admits(data, out.1)
        &&& self.2.admits(data, out.2)
        &&& self.3.admits(data, out.3)
        &&& self.4.admits(data, out.4)
    }

    fn compute(&self, data: &D) -> (out: (T1, T2, T3, T4, T5)) {
        (
            self.0.compute(data),
            self.1.compute(data),
            self.2.compute(data),
            self.3.compute(data),
            self.4.compute(data),
        )
    }
}

impl<
    D,
    T1,
    T2,
    T3,
    T4,
    T5,
    T6,
    S1: Statistic<D, T1>,
    S2: Statistic<D, T2>,
    S3: Statistic<D, T3>,
    S4: Statistic<D, T4>,
    S5: Statistic<D, T5>,
    S6: Statistic<D, T6>,
> Statistic<D, (T1, T2, T3, T4, T5, T6)> for (S1, S2, S3, S4, S5, S6) {
    open spec fn accepts(&self, data: &D) -> bool {
        &&& self.0.accepts(data)
        &&& self.1.accepts(data)
        &&& self.2.accepts(data)
        &&& self.3.accepts(data)
        &&& self.4.accepts(data)
        &&& self.5.accepts(data)
    }

    open spec fn admits(&self, data: &D, out: (T1, T2, T3, T4, T5, T6)) -> bool {
        &&& self.0.admits(data, out.0)
        &&& self.1.admits(data, out.1)
        &&& self.2.admits(data, out.2)
        &&& self.3.admits(data, out.3)
        &&& self.4.admits(data, out.4)
        &&& self.5.admits(data, out.5)
    }

    fn compute(&self, data: &D) -> (out: (T1, T2, T3, T4, T5, T6)) {
        (
            self.0.compute(data),
            self.1.compute(data),
            self.2.compute(data),
            self.3.compute(data),
            self.4.compute(data),
            self.5.compute(data),
        )
    }
}

impl<
    D,
    T1,
    T2,
    T3,
    T4,
    T5,
    T6,
    T7,
    S1: Statistic<D, T1>,
    S2: Statistic<D, T2>,
    S3: Statistic<D, T3>,
    S4: Statistic<D, T4>,
    S5: Statistic<D, T5>,
    S6: Statistic<D, T6>,
    S7: Statistic<D, T7>,
> Statistic<D, (T1, T2, T3, T4, T5, T6, T7)> for (S1, S2, S3, S4, S5, S6, S7) {
    open spec fn accepts(&self, data: &D) -> bool {
        &&& self.0.accepts(data)
        &&& self.1.accepts(data)
        &&& self.2.accepts(data)
        &&& self.3.accepts(data)
        &&& self.4.accepts(data)
        &&& self.5.accepts(data)
        &&& self.6.accepts(data)
    }

    open spec fn admits(&self, data: &D, out: (T1, T2, T3, T4, T5, T6, T7)) -> bool {
        &&& self.0.admits(data, out.0)
        &&& self.1.admits(data, out.1)
        &&& self.2.admits(data, out.2)
        &&& self.3.admits(data, out.3)
        &&& self.4.admits(data, out.4)
        &&& self.5.admits(data, out.5)
        &&& self.6.admits(data, out.6)
    }

    fn compute(&self, data: &D) -> (out: (T1, T2, T3, T4, T5, T6, T7)) {
        (
            self.0.compute(data),
            self.1.compute(data),
            self.2.compute(data),
            self.3.compute(data),
            self.4.compute(data),
            self.5.compute(data),
            self.6.compute(data),
        )
    }
}

impl<
    D,
    T1,
    T2,
    T3,
    T4,
    T5,
    T6,
    T7,
    T8,
    S1: Statistic<D, T1>,
    S2: Statistic<D, T2>,
    S3: Statistic<D, T3>,
    S4: Statistic<D, T4>,
    S5: Statistic<D, T5>,
    S6: Statistic<D, T6>,
    S7: Statistic<D, T7>,
    S8: Statistic<D, T8>,
> Statistic<D, (T1, T2, T3, T4, T5, T6, T7, T8)> for (S1, S2, S3, S4, S5, S6, S7, S8) {
    open spec fn accepts(&self, data: &D) -> bool {
        &&& self.0.accepts(data)
        &&& self.1.accepts(data)
        &&& self.2.accepts(data)
        &&& self.3.accepts(data)
        &&& self.4.accepts(data)
        &&& self.5.accepts(data)
        &&& self.6.accepts(data)
        &&& self.7.accepts(data)
    }

    open spec fn admits(&self, data: &D, out: (T1, T2, T3, T4, T5, T6, T7, T8)) -> bool {
        &&& self.0.admits(data, out.0)
        &&& self.1.admits(data, out.1)
        &&& self.2.admits(data, out.2)
        &&& self.3.admits(data, out.3)
        &&& self.4.admits(data, out.4)
        &&& self.5.admits(data, out.5)
        &&& self.6.admits(data, out.6)
        &&& self.7.admits(data, out.7)
    }

    fn compute(&self, data: &D) -> (out: (T1, T2, T3, T4, T5, T6, T7, T8)) {
        (
            self.0.compute(data),
            self.1.compute(data),
            self.2.compute(data),
            self.3.compute(data),
            self.4.compute(data),
            self.5.compute(data),
            self.6.compute(data),
            self.7.compute(data),
        )
    }
}

} // verus!
