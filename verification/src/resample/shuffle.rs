use crate::random::uniform_upto;
use crate::resample::{
    draws_fit, lemma_walked_same_multiset, lemma_walked_unfolds, swap_at, walk_with, walked, Re,
    SamplingIterator,
};
use crate::sample::{copy_of, Sample};
use rand::rngs::StdRng;
use vstd::prelude::*;

verus! {

/// Random reordering: every resample is a permutation of the source.
#[derive(Clone)]
pub struct Shuffle {
    pub rng: StdRng,
}

/// An endless stream of permutations of one sample.
pub struct ShuffleIter<T> {
    data: Vec<T>,
    rng: StdRng,
}

/// The number of draws in a full walk over `n` slots: one for every slot
/// but the first.
pub open spec fn full_walk(n: nat) -> nat {
    if n > 1 {
        (n - 1) as nat
    } else {
        0
    }
}

/// The permutation of `data` that the Fisher-Yates walk makes of the given
/// draws: slot `n - 1` is exchanged with the slot of the first draw, slot
/// `n - 2` with that of the second, and so on down to slot 1.
pub fn shuffle_with<T: Copy>(data: &[T], draws: &[usize]) -> (out: Vec<T>)
    requires
        draws@.len() == full_walk(data@.len()),
        draws_fit(draws@, data@.len()),
    ensures
        out@ == walked(data@, draws@),
        out@.len() == data@.len(),
        out@.to_multiset() == data@.to_multiset(),
{
    walk_with(data, draws)
}

impl Shuffle {
    /// The scheme driven by `rng`.
    pub fn new(rng: StdRng) -> (s: Self)
        ensures
            s.rng == rng,
    {
        Shuffle { rng }
    }

    /// Starts a stream over `sample`, driven by a copy of this generator.
    pub fn re<T: Copy>(&self, sample: &Sample<T>) -> (it: ShuffleIter<T>)
        ensures
            it.source() == sample@,
    {
        ShuffleIter::new(sample.as_slice(), self.rng.clone())
    }
}

impl<T: Copy> ShuffleIter<T> {
    /// The observations being resampled.
    pub closed spec fn source(&self) -> Seq<T> {
        self.data@
    }

    /// A stream over a copy of `data`, driven by `rng`.
    pub fn new(data: &[T], rng: StdRng) -> (it: Self)
        ensures
            it.source() == data@,
    {
        ShuffleIter { data: copy_of(data), rng }
    }

    /// Draws one permutation by the Fisher-Yates walk from the last slot down
    /// to slot 1, exchanging slot `i` with a slot drawn from `0..=i`. The
    /// stream never ends, and whatever is drawn the result holds exactly the
    /// entries of the source, each as often as the source does.
    pub fn next(&mut self) -> (out: Option<Sample<T>>)
        ensures
            final(self).source() == old(self).source(),
            out is Some,
            out->0@.len() == old(self).source().len(),
            out->0@.to_multiset() == old(self).source().to_multiset(),
            exists|draws: Seq<usize>|
                {
                    &&& draws.len() == full_walk(old(self).source().len())
                    &&& draws_fit(draws, old(self).source().len())
                    &&& out->0@ == #[trigger] walked(old(self).source(), draws)
                },
    {
        let n: usize = self.data.len();
        let mut buffer: Vec<T> = copy_of(self.data.as_slice());
        let ghost mut draws: Seq<usize> = Seq::empty();
        if n > 1 {
            let mut i: usize = n - 1;
            while i >= 1
                invariant
                    self.data@ == old(self).data@,
                    n == self.data@.len(),
                    i < n,
                    buffer@.len() == n,
                    draws.len() == n - 1 - i,
                    draws_fit(draws, n as nat),
                    buffer@ == walked(self.data@, draws),
                decreases i,
            {
                let j: usize = uniform_upto(&mut self.rng, i);
                proof {
                    lemma_walked_unfolds(self.data@, draws, j);
                }
                swap_at(&mut buffer, i, j);
                proof {
                    let longer = draws.push(j);
                    assert forall|k: int| 0 <= k < longer.len() implies (#[trigger] longer[k]) <= n
                        - 1 - k by {
                        if k < draws.len() {
                            assert(longer[k] == draws[k]);
                        }
                    }
                    draws = longer;
                }
                i -= 1;
            }
        }
        proof {
            lemma_walked_same_multiset(self.data@, draws);
        }
        let out = Sample::new(buffer);
        assert(draws.len() == full_walk(old(self).source().len()) && draws_fit(
            draws,
            old(self).source().len(),
        ) && out@ == walked(old(self).source(), draws));
        Some(out)
    }
}

impl<T: Copy> SamplingIterator for ShuffleIter<T> {
    type Item = Sample<T>;

    /// What a pull may give is the same however many pulls ahead it is.
    open spec fn may_yield_at(&self, ahead: nat, item: Sample<T>) -> bool {
        item@.len() == self.source().len() && item@.to_multiset() == self.source().to_multiset()
    }

    open spec fn pending(&self) -> Option<nat> {
        None
    }

    fn next(&mut self) -> (out: Option<Sample<T>>) {
        ShuffleIter::next(self)
    }
}

impl<T: Copy> Re<Sample<T>> for Shuffle {
    type Item = Sample<T>;

    type Iter = ShuffleIter<T>;

    open spec fn accepts(&self, t: &Sample<T>) -> bool {
        true
    }

    /// What the scheme may produce is the same at every place.
    open spec fn resamples_at(&self, t: &Sample<T>, place: nat, item: Sample<T>) -> bool {
        item@.len() == t@.len() && item@.to_multiset() == t@.to_multiset()
    }

    open spec fn count(&self, t: &Sample<T>) -> Option<nat> {
        None
    }

    fn re(&self, t: &Sample<T>) -> (it: ShuffleIter<T>) {
        Shuffle::re(self, t)
    }
}

} // verus!
