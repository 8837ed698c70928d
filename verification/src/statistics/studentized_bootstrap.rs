use crate::resample::{pulled_from, taken, Re, SamplingIterator};
use crate::scalar::{equals, Real};
use crate::statistics::cdf::{is_ordered, numbers_of, EmpiricalCDF};
use crate::statistics::ci::Interval;
use crate::statistics::quantile::{lower_level, quantile_index, upper_level, QuantileInterval};
use crate::statistics::se::SE;
use crate::statistics::{Observations, Statistic};
use vstd::prelude::*;

verus! {

/// The studentized-bootstrap confidence interval.
///
/// An outer scheme draws resamples; on each the statistic and its standard
/// error (by the inner scheme) give a pivot `(t* - t) / SE*`. The quantiles
/// of the pivots, turned round, give the bounds:
/// `[t - q_hi SE, t - q_lo SE]`.
#[derive(Debug, Clone)]
pub struct StudentizedBootstrap<Stat, InnerResampler, OuterResampler, T> {
    pub statistic: Stat,
    pub se: SE<Stat, InnerResampler>,
    pub resampler: OuterResampler,
    /// The number of outer resamples.
    pub samples: usize,
    /// The confidence level, between zero and one.
    pub confidence: T,
}

/// The pivot of one resample: `(theta_star - theta_hat) / se_star`, and none
/// where the standard error is zero or an operand is "not a number".
pub open spec fn pivot_of<T: Real>(theta_star: T, se_star: T, theta_hat: T) -> Option<T> {
    if equals(se_star, T::zero_spec()) || theta_star.is_nan_spec() || se_star.is_nan_spec() {
        None
    } else {
        Some(theta_star.minus_spec(theta_hat).over_spec(se_star))
    }
}

/// The undefined interval.
pub open spec fn nan_interval<T: Real>() -> Interval<T> {
    Interval { lower: T::nan_spec(), upper: T::nan_spec(), estimate: None, confidence: None }
}

/// The pivotal interval about `theta_hat` from the ordered pivots `points`,
/// of which `drawn` were kept before ordering. Undefined for fewer than two
/// pivots or no point; otherwise the upper quantile of the pivots gives the
/// lower bound and the lower quantile the upper bound.
pub open spec fn pivotal_interval_spec<T: Real>(
    theta_hat: T,
    se_hat: T,
    drawn: nat,
    points: Seq<T>,
    confidence: T,
) -> Interval<T> {
    if drawn < 2 || points.len() == 0 {
        nan_interval()
    } else {
        let n = points.len() as usize;
        let t_lower = points[quantile_index(n, lower_level(confidence))];
        let t_upper = points[quantile_index(n, upper_level(confidence))];
        Interval {
            lower: theta_hat.minus_spec(t_upper.times_spec(se_hat)),
            upper: theta_hat.minus_spec(t_lower.times_spec(se_hat)),
            estimate: Some(theta_hat),
            confidence: Some(confidence),
        }
    }
}

/// The pivot of one resample, if it has one.
pub fn pivot<T: Real>(theta_star: T, se_star: T, theta_hat: T) -> (out: Option<T>)
    ensures
        out == pivot_of(theta_star, se_star, theta_hat),
{
    if se_star.same(T::zero()) || theta_star.is_nan() || se_star.is_nan() {
        None
    } else {
        Some(theta_star.minus(theta_hat).over(se_star))
    }
}

/// The pivotal interval about `theta_hat` from the pivots that were kept.
/// The pivots are ordered, those that are "not a number" left out, and the
/// interval is read off their quantiles.
pub fn pivotal_interval<T: Real>(theta_hat: T, se_hat: T, pivots: &[T], confidence: T) -> (out:
    Interval<T>)
    ensures
        exists|points: Seq<T>|
            {
                &&& is_ordered(points)
                &&& points.to_multiset() == numbers_of(pivots@).to_multiset()
                &&& out == #[trigger] pivotal_interval_spec(
                    theta_hat,
                    se_hat,
                    pivots@.len(),
                    points,
                    confidence,
                )
            },
        pivots@.len() < 2 ==> out == nan_interval::<T>(),
{
    let ecdf: EmpiricalCDF<T> = EmpiricalCDF::from_float_slice(pivots);
    let ghost points = ecdf@;
    if pivots.len() < 2 || ecdf.is_empty() {
        let out = Interval::nan();
        assert(out == pivotal_interval_spec(theta_hat, se_hat, pivots@.len(), points, confidence));
        return out;
    }
    let (t_lower, t_upper) = QuantileInterval::percentile(confidence).compute(&ecdf);
    let lower: T = theta_hat.minus(t_upper.times(se_hat));
    let upper: T = theta_hat.minus(t_lower.times(se_hat));
    let out = Interval::new(lower, upper).estimate(theta_hat).confidence(confidence);
    assert(out == pivotal_interval_spec(theta_hat, se_hat, pivots@.len(), points, confidence));
    out
}

/// `items` are resamples that a stream of `resampler` over `data` may hand
/// out, each at its place, and `thetas` and `ses` are values of `statistic`
/// and of `se` on them, place by place.
pub open spec fn resample_outcomes<
    D,
    T: Real,
    Stat: Statistic<D, T>,
    SEE: Statistic<D, T>,
    Outer: Re<D, Item = D>,
>(
    statistic: Stat,
    se: SEE,
    resampler: Outer,
    data: &D,
    items: Seq<D>,
    thetas: Seq<T>,
    ses: Seq<T>,
) -> bool {
    &&& thetas.len() == items.len()
    &&& ses.len() == items.len()
    &&& forall|i: int|
        0 <= i < items.len() ==> {
            &&& resampler.resamples_at(data, i as nat, #[trigger] items[i])
            &&& statistic.admits(&items[i], thetas[i])
            &&& se.admits(&items[i], ses[i])
        }
}

/// The pivots about `theta_hat` of the resamples with the estimates `thetas`
/// and the standard errors `ses`, in their order, those without a pivot
/// left out.
pub open spec fn kept_pivots<T: Real>(thetas: Seq<T>, ses: Seq<T>, theta_hat: T) -> Seq<T>
    decreases thetas.len(),
{
    if thetas.len() == 0 || ses.len() == 0 {
        Seq::empty()
    } else {
        let before = kept_pivots(thetas.drop_last(), ses.drop_last(), theta_hat);
        match pivot_of(thetas.last(), ses.last(), theta_hat) {
            Some(value) => before.push(value),
            None => before,
        }
    }
}

/// One more resample adds its pivot, if it has one.
pub proof fn lemma_kept_pivots_unfolds<T: Real>(
    thetas: Seq<T>,
    ses: Seq<T>,
    theta_hat: T,
    theta_star: T,
    se_star: T,
)
    ensures
        kept_pivots(thetas.push(theta_star), ses.push(se_star), theta_hat) == match pivot_of(
            theta_star,
            se_star,
            theta_hat,
        ) {
            Some(value) => kept_pivots(thetas, ses, theta_hat).push(value),
            None => kept_pivots(thetas, ses, theta_hat),
        },
{
    assert(thetas.push(theta_star).drop_last() == thetas);
    assert(ses.push(se_star).drop_last() == ses);
}

impl<Stat, InnerResampler, OuterResampler, T> StudentizedBootstrap<
    Stat,
    InnerResampler,
    OuterResampler,
    T,
> {
    /// The interval of the given confidence for `statistic`, from `samples`
    /// resamples drawn by `resampler`, with `se` estimating standard errors.
    pub fn new(
        statistic: Stat,
        se: SE<Stat, InnerResampler>,
        resampler: OuterResampler,
        samples: usize,
        confidence: T,
    ) -> (s: Self)
        ensures
            s.statistic == statistic,
            s.se == se,
            s.resampler == resampler,
            s.samples == samples,
            s.confidence == confidence,
    {
        StudentizedBootstrap { statistic, se, resampler, samples, confidence }
    }
}

/// What `out` is made of. There is an estimate and a standard error on the
/// data. Where that standard error is zero or "not a number", `out` is the
/// undefined interval and nothing is drawn. Otherwise `items` are the
/// resamples drawn, `samples` of them or all there are where the scheme has
/// fewer, `thetas` and `ses` are the statistic and its standard error on
/// each, `points` are the pivots that were kept, in order, and `out` is the
/// pivotal interval read off them.
pub open spec fn explains<
    D: Observations<T>,
    T: Real,
    Stat: Statistic<D, T>,
    InnerResampler: Re<D, Item = D>,
    OuterResampler: Re<D, Item = D>,
>(
    this: &StudentizedBootstrap<Stat, InnerResampler, OuterResampler, T>,
    data: &D,
    out: Interval<T>,
    theta_hat: T,
    se_hat: T,
    items: Seq<D>,
    thetas: Seq<T>,
    ses: Seq<T>,
    points: Seq<T>,
) -> bool {
    &&& this.statistic.admits(data, theta_hat)
    &&& this.se.admits(data, se_hat)
    &&& if se_hat.is_nan_spec() || equals(se_hat, T::zero_spec()) {
        out == nan_interval::<T>()
    } else {
        let pivots = kept_pivots(thetas, ses, theta_hat);
        &&& items.len() == taken(this.samples as nat, this.resampler.count(data))
        &&& resample_outcomes(this.statistic, this.se, this.resampler, data, items, thetas, ses)
        &&& is_ordered(points)
        &&& points.to_multiset() == numbers_of(pivots).to_multiset()
        &&& out == pivotal_interval_spec(theta_hat, se_hat, pivots.len(), points, this.confidence)
    }
}

impl<
    D: Observations<T>,
    T: Real,
    Stat: Statistic<D, T>,
    InnerResampler: Re<D, Item = D>,
    OuterResampler: Re<D, Item = D>,
> Statistic<D, Interval<T>> for StudentizedBootstrap<Stat, InnerResampler, OuterResampler, T> {
    /// The statistic and the standard error must accept the data and every
    /// resample the outer scheme may produce from them.
    open spec fn accepts(&self, data: &D) -> bool {
        &&& self.statistic.accepts(data)
        &&& self.se.accepts(data)
        &&& self.resampler.accepts(data)
        &&& forall|place: nat, item: D| #[trigger]
            self.resampler.resamples_at(data, place, item) ==> self.statistic.accepts(&item)
                && self.se.accepts(&item)
    }

    /// The undefined interval where the standard error on the data is zero
    /// or undefined, and otherwise the pivotal interval from the pivots of
    /// the first `samples` resamples that a stream over the data hands out
    /// (of all there are, where the scheme has fewer), those without a pivot
    /// left out.
    open spec fn admits(&self, data: &D, out: Interval<T>) -> bool {
        exists|
            theta_hat: T,
            se_hat: T,
            items: Seq<D>,
            thetas: Seq<T>,
            ses: Seq<T>,
            points: Seq<T>,
        | #[trigger]
            explains(self, data, out, theta_hat, se_hat, items, thetas, ses, points)
    }

    fn compute(&self, data: &D) -> (out: Interval<T>) {
        let theta_hat: T = self.statistic.compute(data);
        let se_theta_hat: T = self.se.compute(data);
        if se_theta_hat.is_nan() || se_theta_hat.same(T::zero()) {
            let out = Interval::nan();
            proof {
                assert(explains(
                    self,
                    data,
                    out,
                    theta_hat,
                    se_theta_hat,
                    Seq::<D>::empty(),
                    Seq::<T>::empty(),
                    Seq::<T>::empty(),
                    Seq::<T>::empty(),
                ));
            }
            return out;
        }
        let mut stream = self.resampler.re(data);
        let ghost start = stream.pending();
        let ghost mut items: Seq<D> = Seq::empty();
        let ghost mut thetas: Seq<T> = Seq::empty();
        let ghost mut ses: Seq<T> = Seq::empty();
        let mut pivots: Vec<T> = Vec::new();
        let mut count: usize = 0;
        let mut ended: bool = false;
        while count < self.samples && !ended
            invariant
                count <= self.samples,
                start == self.resampler.count(data),
                !ended ==> items.len() == count,
                !ended ==> stream.pending() == pulled_from(start, count as nat),
                !ended ==> taken(count as nat, start) == count,
                ended ==> items.len() == taken(self.samples as nat, start),
                self.accepts(data),
                !ended ==> forall|ahead: nat, item: D| #[trigger]
                    stream.may_yield_at(ahead, item) ==> self.resampler.resamples_at(
                        data,
                        (count + ahead) as nat,
                        item,
                    ),
                resample_outcomes(
                    self.statistic,
                    self.se,
                    self.resampler,
                    data,
                    items,
                    thetas,
                    ses,
                ),
                pivots@ == kept_pivots(thetas, ses, theta_hat),
            decreases self.samples - count, if ended { 0int } else { 1int },
        {
            let ghost earlier = stream;
            let pulled = stream.next();
            match pulled {
                None => {
                    ended = true;
                },
                Some(resample) => {
                    proof {
                        assert(earlier.may_yield_at(0, resample));
                        assert(self.resampler.resamples_at(data, (count + 0) as nat, resample));
                    }
                    let theta_star: T = self.statistic.compute(&resample);
                    let se_theta_star: T = self.se.compute(&resample);
                    let kept: Option<T> = pivot(theta_star, se_theta_star, theta_hat);
                    match kept {
                        None => {},
                        Some(value) => {
                            pivots.push(value);
                        },
                    }
                    proof {
                        let items_before = items;
                        let thetas_before = thetas;
                        let ses_before = ses;
                        lemma_kept_pivots_unfolds(
                            thetas,
                            ses,
                            theta_hat,
                            theta_star,
                            se_theta_star,
                        );
                        items = items.push(resample);
                        thetas = thetas.push(theta_star);
                        ses = ses.push(se_theta_star);
                        assert forall|i: int| 0 <= i < items.len() implies {
                            &&& self.resampler.resamples_at(data, i as nat, #[trigger] items[i])
                            &&& self.statistic.admits(&items[i], thetas[i])
                            &&& self.se.admits(&items[i], ses[i])
                        } by {
                            if i < items_before.len() {
                                assert(items[i] == items_before[i]);
                                assert(thetas[i] == thetas_before[i]);
                                assert(ses[i] == ses_before[i]);
                            }
                        }
                        assert forall|ahead: nat, item: D| #[trigger]
                            stream.may_yield_at(ahead, item) implies self.resampler.resamples_at(
                            data,
                            (count + 1 + ahead) as nat,
                            item,
                        ) by {
                            assert(earlier.may_yield_at(ahead + 1, item));
                            assert(self.resampler.resamples_at(
                                data,
                                (count + (ahead + 1)) as nat,
                                item,
                            ));
                        }
                    }
                    count += 1;
                },
            }
        }
        let out = pivotal_interval(theta_hat, se_theta_hat, pivots.as_slice(), self.confidence);
        proof {
            let points = choose|points: Seq<T>|
                {
                    &&& is_ordered(points)
                    &&& points.to_multiset() == numbers_of(pivots@).to_multiset()
                    &&& out == #[trigger] pivotal_interval_spec(
                        theta_hat,
                        se_theta_hat,
                        pivots@.len(),
                        points,
                        self.confidence,
                    )
                };
            assert(explains(self, data, out, theta_hat, se_theta_hat, items, thetas, ses, points));
        }
        out
    }
}

} // verus!
