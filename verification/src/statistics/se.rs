use crate::resample::jackknife::Jackknife;
use crate::resample::{pulled_from, taken, Re, SamplingIterator};
use crate::sample::Sample;
use crate::scalar::{below, not_above, Real};
use crate::statistics::basic::variance::{variance_of, variance_of_slice, Variance};
use crate::statistics::mean::{mean_of, Mean};
use crate::statistics::{Observations, Statistic};
use vstd::prelude::*;

verus! {

/// The standard error of the mean, `sqrt(variance / n)`.
#[derive(Debug, Clone, Copy)]
pub struct SEMean {
    pub variance: Variance,
}

/// The standard error of a statistic by resampling: the sample standard
/// deviation of the statistic over resamples of the data.
///
/// The deviation is taken as it is for every scheme; for the jackknife no
/// scaling by the number of observations is applied.
#[derive(Debug, Clone, Copy)]
pub struct SE<Stat, Resampler> {
    pub statistic: Stat,
    pub resampler: Resampler,
    /// The largest number of resamples to look at.
    pub samples: usize,
}

/// The tolerance below zero inside which a squared standard error counts as
/// zero: ten times the machine epsilon.
pub open spec fn rounding_tolerance<T: Real>() -> T {
    T::epsilon_spec().times_spec(T::from_usize_spec(10))
}

/// The standard error from a variance estimate of `n` observations. A
/// squared error that rounding has pushed below zero is read as zero inside
/// the tolerance and as undefined beyond it.
pub open spec fn standard_error_from<T: Real>(variance: T, n: usize) -> T {
    let se_sq = variance.over_spec(T::from_usize_spec(n));
    if variance.is_nan_spec() {
        T::nan_spec()
    } else if below(se_sq, T::zero_spec()) {
        if not_above(T::zero_spec().minus_spec(rounding_tolerance::<T>()), se_sq) {
            T::zero_spec()
        } else {
            T::nan_spec()
        }
    } else {
        se_sq.sqrt_spec()
    }
}

/// The standard error of the mean of `data` under the given `ddof`:
/// undefined for no data.
pub open spec fn standard_error_of_mean<T: Real>(data: Seq<T>, ddof: usize) -> T {
    if data.len() == 0 {
        T::nan_spec()
    } else {
        standard_error_from(variance_of(data, ddof), data.len() as usize)
    }
}

/// `items` are resamples that a stream of `resampler` over `data` may hand
/// out, each at its place, and `estimates` are values of `statistic` on
/// them, place by place.
pub open spec fn estimates_on<D, T, Stat: Statistic<D, T>, Resampler: Re<D, Item = D>>(
    statistic: Stat,
    resampler: Resampler,
    data: &D,
    items: Seq<D>,
    estimates: Seq<T>,
) -> bool {
    &&& estimates.len() == items.len()
    &&& forall|i: int|
        0 <= i < items.len() ==> {
            &&& resampler.resamples_at(data, i as nat, #[trigger] items[i])
            &&& statistic.admits(&items[i], estimates[i])
        }
}

/// The sample standard deviation, `sqrt` of the variance with `ddof` one.
pub open spec fn deviation_of<T: Real>(estimates: Seq<T>) -> T {
    variance_of(estimates, 1).sqrt_spec()
}

/// The standard error from a variance estimate of `n` observations.
pub fn standard_error<T: Real>(variance: T, n: usize) -> (out: T)
    ensures
        out == standard_error_from(variance, n),
{
    if variance.is_nan() {
        return T::nan();
    }
    let se_sq: T = variance.over(T::from_usize(n));
    if se_sq.lt(T::zero()) {
        let tolerance: T = T::epsilon().times(T::from_usize(10));
        if T::zero().minus(tolerance).le(se_sq) {
            T::zero()
        } else {
            T::nan()
        }
    } else {
        se_sq.sqrt()
    }
}

impl SEMean {
    /// The standard error of the mean under the given variance estimator.
    pub fn with_variance(variance: Variance) -> (s: Self)
        ensures
            s.variance == variance,
    {
        SEMean { variance }
    }
}

impl Default for SEMean {
    /// Under the sample variance.
    fn default() -> (s: Self)
        ensures
            s.variance.ddof == 1,
    {
        SEMean { variance: Variance { ddof: 1 } }
    }
}

impl<D: Observations<T>, T: Real> Statistic<D, T> for SEMean {
    open spec fn accepts(&self, data: &D) -> bool {
        data.values().len() < 2 || self.variance.ddof <= data.values().len()
    }

    open spec fn admits(&self, data: &D, out: T) -> bool {
        out == standard_error_of_mean(data.values(), self.variance.ddof)
    }

    fn compute(&self, data: &D) -> (out: T) {
        let slice = data.as_slice();
        if slice.len() == 0 {
            return T::nan();
        }
        let var_est: T = variance_of_slice(slice, self.variance.ddof);
        standard_error(var_est, slice.len())
    }
}

impl<Stat> SE<Stat, Jackknife> {
    /// The standard error over all leave-one-out resamples.
    pub fn jackknife(statistic: Stat) -> (s: Self)
        ensures
            s.statistic == statistic,
            s.samples == usize::MAX,
    {
        SE { statistic, resampler: Jackknife, samples: usize::MAX }
    }
}

impl<Stat, Resampler> SE<Stat, Resampler> {
    /// The standard error of `statistic` over at most `samples` resamples
    /// drawn by `resampler`.
    pub fn new(statistic: Stat, resampler: Resampler, samples: usize) -> (s: Self)
        ensures
            s.statistic == statistic,
            s.resampler == resampler,
            s.samples == samples,
    {
        SE { statistic, resampler, samples }
    }
}

impl<D: Observations<T>, T: Real, Stat: Statistic<D, T>, Resampler: Re<D, Item = D>> Statistic<
    D,
    T,
> for SE<Stat, Resampler> {
    /// The scheme must accept the data, and the statistic every resample the
    /// scheme may produce from them.
    open spec fn accepts(&self, data: &D) -> bool {
        &&& self.resampler.accepts(data)
        &&& forall|place: nat, item: D| #[trigger]
            self.resampler.resamples_at(data, place, item) ==> self.statistic.accepts(&item)
    }

    /// The result is the sample standard deviation of the values of the
    /// statistic on the resamples that a stream over the data hands out, in
    /// their order: on the first `samples` of them, or on all there are
    /// where the scheme has fewer.
    open spec fn admits(&self, data: &D, out: T) -> bool {
        exists|items: Seq<D>, estimates: Seq<T>|
            {
                &&& items.len() == taken(self.samples as nat, self.resampler.count(data))
                &&& #[trigger] estimates_on(
                    self.statistic,
                    self.resampler,
                    data,
                    items,
                    estimates,
                )
                &&& out == deviation_of(estimates)
            }
    }

    fn compute(&self, data: &D) -> (out: T) {
        let mut stream = self.resampler.re(data);
        let ghost start = stream.pending();
        let ghost mut items: Seq<D> = Seq::empty();
        let mut estimates: Vec<T> = Vec::new();
        let mut count: usize = 0;
        let mut ended: bool = false;
        while count < self.samples && !ended
            invariant
                count <= self.samples,
                start == self.resampler.count(data),
                !ended ==> items.len() == count,
                !ended ==> stream.pending() == pulled_from(start, count as nat),
                !ended ==> taken(count as nat, start) == count,
                ended ==> items.len() == taken(self.samples as nat, start),
                self.accepts(data),
                !ended ==> forall|ahead: nat, item: D| #[trigger]
                    stream.may_yield_at(ahead, item) ==> self.resampler.resamples_at(
                        data,
                        (count + ahead) as nat,
                        item,
                    ),
                estimates_on(self.statistic, self.resampler, data, items, estimates@),
            decreases self.samples - count, if ended { 0int } else { 1int },
        {
            let ghost earlier = stream;
            let pulled = stream.next();
            match pulled {
                None => {
                    ended = true;
                },
                Some(resample) => {
                    proof {
                        assert(earlier.may_yield_at(0, resample));
                        assert(self.resampler.resamples_at(data, (count + 0) as nat, resample));
                    }
                    let value: T = self.statistic.compute(&resample);
                    let ghost before = estimates@;
                    let ghost items_before = items;
                    estimates.push(value);
                    proof {
                        items = items.push(resample);
                        assert forall|i: int| 0 <= i < items.len() implies {
                            &&& self.resampler.resamples_at(data, i as nat, #[trigger] items[i])
                            &&& self.statistic.admits(&items[i], estimates@[i])
                        } by {
                            if i < items_before.len() {
                                assert(items[i] == items_before[i]);
                                assert(estimates@[i] == before[i]);
                            }
                        }
                        assert forall|ahead: nat, item: D| #[trigger]
                            stream.may_yield_at(ahead, item) implies self.resampler.resamples_at(
                            data,
                            (count + 1 + ahead) as nat,
                            item,
                        ) by {
                            assert(earlier.may_yield_at(ahead + 1, item));
                            assert(self.resampler.resamples_at(
                                data,
                                (count + (ahead + 1)) as nat,
                                item,
                            ));
                        }
                    }
                    count += 1;
                },
            }
        }
        let out: T = variance_of_slice(estimates.as_slice(), 1).sqrt();
        assert(estimates_on(self.statistic, self.resampler, data, items, estimates@) && out
            == deviation_of(estimates@));
        out
    }
}

/// `value` is a value of `statistic` on `data` without the observation at
/// `place`.
pub open spec fn is_estimate_without<T: Real, Stat: Statistic<Sample<T>, T>>(
    statistic: Stat,
    data: Seq<T>,
    place: int,
    value: T,
) -> bool {
    exists|item: Sample<T>| #[trigger]
        statistic.admits(&item, value) && item@ == data.remove(place)
}

/// `estimates` are values of `statistic` on the leave-one-out samples of
/// `data`, in order: the value at place `i` is one on `data` without the
/// observation at `i`.
pub open spec fn leave_one_out_estimates<T: Real, Stat: Statistic<Sample<T>, T>>(
    statistic: Stat,
    data: Seq<T>,
    estimates: Seq<T>,
) -> bool {
    &&& estimates.len() == data.len()
    &&& forall|i: int|
        0 <= i < data.len() ==> is_estimate_without(statistic, data, i, #[trigger] estimates[i])
}

/// The means of the leave-one-out samples of `data`, in order.
pub open spec fn leave_one_out_means<T: Real>(data: Seq<T>) -> Seq<T> {
    Seq::new(data.len(), |i: int| mean_of(data.remove(i)))
}

/// The jackknife standard error is the sample standard deviation of the
/// statistic on the leave-one-out samples, every one of them, in order, and
/// as it is: no scaling by the number of observations is applied.
pub proof fn lemma_jackknife_error_is_leave_one_out<T: Real, Stat: Statistic<Sample<T>, T>>(
    statistic: Stat,
    data: &Sample<T>,
    out: T,
)
    requires
        data@.len() <= usize::MAX,
        (SE { statistic, resampler: Jackknife, samples: usize::MAX }).admits(data, out),
    ensures
        exists|estimates: Seq<T>| #[trigger]
            leave_one_out_estimates(statistic, data@, estimates) && out == deviation_of(
                estimates,
            ),
{
    let (items, estimates) = choose|items: Seq<Sample<T>>, estimates: Seq<T>|
        {
            &&& items.len() == taken(usize::MAX as nat, Jackknife.count(data))
            &&& #[trigger] estimates_on(statistic, Jackknife, data, items, estimates)
            &&& out == deviation_of(estimates)
        };
    assert forall|i: int| 0 <= i < data@.len() implies is_estimate_without(
        statistic,
        data@,
        i,
        #[trigger] estimates[i],
    ) by {
        assert(Jackknife.resamples_at(data, i as nat, items[i]));
        assert(statistic.admits(&items[i], estimates[i]) && items[i]@ == data@.remove(i));
    }
    assert(leave_one_out_estimates(statistic, data@, estimates));
}

/// The jackknife standard error of the mean is the sample standard deviation
/// of the leave-one-out means.
pub proof fn lemma_jackknife_error_of_mean<T: Real>(data: &Sample<T>, out: T)
    requires
        data@.len() <= usize::MAX,
        (SE { statistic: Mean, resampler: Jackknife, samples: usize::MAX }).admits(data, out),
    ensures
        out == deviation_of(leave_one_out_means(data@)),
{
    let (items, estimates) = choose|items: Seq<Sample<T>>, estimates: Seq<T>|
        {
            &&& items.len() == taken(usize::MAX as nat, Jackknife.count(data))
            &&& #[trigger] estimates_on(Mean, Jackknife, data, items, estimates)
            &&& out == deviation_of(estimates)
        };
    assert forall|i: int| 0 <= i < data@.len() implies estimates[i] == leave_one_out_means(
        data@,
    )[i] by {
        assert(Jackknife.resamples_at(data, i as nat, items[i]));
        assert(Mean.admits(&items[i], estimates[i]));
    }
    assert(estimates =~= leave_one_out_means(data@));
}

} // verus!
