use crate::scalar::{equals, Real};
use crate::statistics::mean::mean_of;
use crate::statistics::summation::{compensated_sum, lemma_sum_unfolds, square_spec, Accumulator};
use vstd::prelude::*;

verus! {

/// The power of a deviation that enters a central moment: the square, the
/// square times the deviation, or the square of the square. Other orders
/// are read as the fourth.
pub open spec fn deviation_power<T: Real>(dev: T, order: u8) -> T {
    if order == 2 {
        square_spec(dev)
    } else if order == 3 {
        square_spec(dev).times_spec(dev)
    } else {
        square_spec(square_spec(dev))
    }
}

/// The powers of the deviations of `data` from `center`, in order.
pub open spec fn powered_deviations<T: Real>(data: Seq<T>, center: T, order: u8) -> Seq<T> {
    Seq::new(data.len(), |i: int| deviation_power(data[i].minus_spec(center), order))
}

/// The central moment of `data` of the given order about its mean, with
/// divisor `n`: the compensated sum of the powered deviations over the count.
pub open spec fn central_moment<T: Real>(data: Seq<T>, order: u8) -> T {
    compensated_sum(powered_deviations(data, mean_of(data), order)).0.over_spec(
        T::from_usize_spec(data.len() as usize),
    )
}

/// The compensated sum of the powered deviations of `data` from `center`.
pub fn central_sum<T: Real>(data: &[T], center: T, order: u8) -> (out: T)
    ensures
        out == compensated_sum(powered_deviations(data@, center, order)).0,
{
    let n: usize = data.len();
    let ghost terms = powered_deviations(data@, center, order);
    let mut acc: Accumulator<T> = Accumulator::new();
    let mut i: usize = 0;
    assert(terms.take(0) == Seq::<T>::empty());
    while i < n
        invariant
            n == data@.len(),
            i <= n,
            terms == powered_deviations(data@, center, order),
            (acc.sum, acc.compensation) == compensated_sum(terms.take(i as int)),
        decreases n - i,
    {
        proof {
            lemma_sum_unfolds(terms, i as int);
        }
        let dev: T = data[i].minus(center);
        let dev2: T = dev.times(dev);
        let term: T = if order == 2 {
            dev2
        } else if order == 3 {
            dev2.times(dev)
        } else {
            dev2.times(dev2)
        };
        acc.push(term);
        i += 1;
    }
    assert(terms.take(n as int) == terms);
    acc.sum
}

/// The bias correction of the third central moment,
/// `n^2 / ((n - 1)(n - 2))`, with the counts taken as scalars.
pub open spec fn third_correction<T: Real>(n: usize) -> T {
    let n_f = T::from_usize_spec(n);
    let n1 = n_f.minus_spec(T::one_spec());
    let n2 = n_f.minus_spec(T::from_usize_spec(2));
    n_f.times_spec(n_f).over_spec(n1.times_spec(n2))
}

/// The bias correction of the fourth cumulant,
/// `n^2 / ((n - 1)(n - 2)(n - 3))`, with the counts taken as scalars.
pub open spec fn fourth_correction<T: Real>(n: usize) -> T {
    let n_f = T::from_usize_spec(n);
    let n1 = n_f.minus_spec(T::one_spec());
    let n2 = n_f.minus_spec(T::from_usize_spec(2));
    let n3 = n_f.minus_spec(T::from_usize_spec(3));
    n_f.times_spec(n_f).over_spec(n1.times_spec(n2).times_spec(n3))
}

/// Whether one of `n - 1`, ..., `n - upto`, taken as scalars, equals zero.
pub open spec fn count_offset_vanishes<T: Real>(n: usize, upto: usize) -> bool {
    let n_f = T::from_usize_spec(n);
    ||| equals(n_f.minus_spec(T::one_spec()), T::zero_spec())
    ||| upto >= 2 && equals(n_f.minus_spec(T::from_usize_spec(2)), T::zero_spec())
    ||| upto >= 3 && equals(n_f.minus_spec(T::from_usize_spec(3)), T::zero_spec())
}

/// The bias-corrected third cumulant from the third central moment `m3` of
/// `n` observations: `n^2 / ((n - 1)(n - 2)) * m3`.
pub open spec fn unbiased_third<T: Real>(m3: T, n: usize) -> T {
    m3.times_spec(third_correction::<T>(n))
}

/// The bias-corrected fourth cumulant from the second and fourth central
/// moments of `n` observations:
/// `n^2 / ((n - 1)(n - 2)(n - 3)) * ((n + 1) m4 - 3 (n - 1) m2^2)`.
pub open spec fn unbiased_fourth<T: Real>(m2: T, m4: T, n: usize) -> T {
    let n_f = T::from_usize_spec(n);
    let n1 = n_f.minus_spec(T::one_spec());
    let numerator = n_f.plus_spec(T::one_spec()).times_spec(m4).minus_spec(
        T::from_usize_spec(3).times_spec(n1).times_spec(m2.times_spec(m2)),
    );
    numerator.times_spec(fourth_correction::<T>(n))
}

/// Whether one of `n - 1`, ..., `n - upto` equals zero.
pub fn offsets_vanish<T: Real>(n: usize, upto: usize) -> (b: bool)
    ensures
        b == count_offset_vanishes::<T>(n, upto),
{
    let n_f: T = T::from_usize(n);
    let zero: T = T::zero();
    if n_f.minus(T::one()).same(zero) {
        return true;
    }
    if upto >= 2 && n_f.minus(T::from_usize(2)).same(zero) {
        return true;
    }
    upto >= 3 && n_f.minus(T::from_usize(3)).same(zero)
}

/// The bias-corrected third cumulant from the third central moment.
pub fn correct_third<T: Real>(m3: T, n: usize) -> (out: T)
    ensures
        out == unbiased_third(m3, n),
{
    let n_f: T = T::from_usize(n);
    let n1: T = n_f.minus(T::one());
    let n2: T = n_f.minus(T::from_usize(2));
    let correction: T = n_f.times(n_f).over(n1.times(n2));
    m3.times(correction)
}

/// The bias-corrected fourth cumulant from the second and fourth central
/// moments.
pub fn correct_fourth<T: Real>(m2: T, m4: T, n: usize) -> (out: T)
    ensures
        out == unbiased_fourth(m2, m4, n),
{
    let n_f: T = T::from_usize(n);
    let n1: T = n_f.minus(T::one());
    let n2: T = n_f.minus(T::from_usize(2));
    let n3: T = n_f.minus(T::from_usize(3));
    let numerator: T = n_f.plus(T::one()).times(m4).minus(
        T::from_usize(3).times(n1).times(m2.times(m2)),
    );
    let correction: T = n_f.times(n_f).over(n1.times(n2).times(n3));
    numerator.times(correction)
}

} // verus!
