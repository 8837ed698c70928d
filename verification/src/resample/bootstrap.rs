use crate::random::uniform_below;
use crate::resample::{Re, ReStrategy, SamplingIterator};
use crate::sample::{copy_of, Sample};
use rand::rngs::StdRng;
use vstd::prelude::*;

verus! {

/// Resampling with replacement: every resample has the size of the source
/// and each of its entries is drawn uniformly from the source.
#[derive(Clone)]
pub struct Bootstrap {
    pub rng: StdRng,
}

/// An endless stream of bootstrap resamples of one sample.
pub struct BootstrapIter<T> {
    data: Vec<T>,
    rng: StdRng,
}

/// Every entry of `out` occurs somewhere in `source`.
pub open spec fn drawn_from<T>(out: Seq<T>, source: Seq<T>) -> bool {
    forall|i: int| 0 <= i < out.len() ==> source.contains(#[trigger] out[i])
}

/// Every one of `places` is a place of a source of `n` entries.
pub open spec fn places_within(places: Seq<usize>, n: nat) -> bool {
    forall|i: int| 0 <= i < places.len() ==> (#[trigger] places[i]) < n
}

/// The entries of `source` at `places`, in the order of `places`.
pub open spec fn picked<T>(source: Seq<T>, places: Seq<usize>) -> Seq<T> {
    Seq::new(places.len(), |i: int| source[places[i] as int])
}

/// What is picked from a source occurs in it.
pub proof fn lemma_picked_is_drawn<T>(source: Seq<T>, places: Seq<usize>)
    requires
        places_within(places, source.len()),
    ensures
        drawn_from(picked(source, places), source),
        picked(source, places).len() == places.len(),
{
    assert forall|i: int| 0 <= i < places.len() implies source.contains(
        #[trigger] picked(source, places)[i],
    ) by {
        assert(picked(source, places)[i] == source[places[i] as int]);
    }
}

/// The resample that reads `data` at `places`: the draw with replacement for
/// draws that are given.
pub fn resample_at<T: Copy>(data: &[T], places: &[usize]) -> (out: Vec<T>)
    requires
        places_within(places@, data@.len()),
    ensures
        out@ == picked(data@, places@),
{
    let k: usize = places.len();
    let mut out: Vec<T> = Vec::with_capacity(k);
    let mut i: usize = 0;
    while i < k
        invariant
            k == places@.len(),
            i <= k,
            places_within(places@, data@.len()),
            out@ == picked(data@, places@).take(i as int),
        decreases k - i,
    {
        out.push(data[places[i]]);
        assert(out@ == picked(data@, places@).take(i + 1));
        i += 1;
    }
    assert(picked(data@, places@).take(k as int) == picked(data@, places@));
    out
}

impl Bootstrap {
    /// The scheme driven by `rng`.
    pub fn new(rng: StdRng) -> (b: Self)
        ensures
            b.rng == rng,
    {
        Bootstrap { rng }
    }

    /// Starts a stream over `sample`, driven by a copy of this generator.
    pub fn re<T: Copy>(&self, sample: &Sample<T>) -> (it: BootstrapIter<T>)
        ensures
            it.source() == sample@,
    {
        BootstrapIter::new(sample.as_slice(), self.rng.clone())
    }
}

impl<T: Copy> BootstrapIter<T> {
    /// The observations being resampled.
    pub closed spec fn source(&self) -> Seq<T> {
        self.data@
    }

    /// A stream over a copy of `data`, driven by `rng`.
    pub fn new(data: &[T], rng: StdRng) -> (it: Self)
        ensures
            it.source() == data@,
    {
        BootstrapIter { data: copy_of(data), rng }
    }

    /// Draws one resample. The stream never ends: the result is always
    /// `Some`. It reads the source at as many places as the source has
    /// entries, one draw below that number for each place in turn, so it is
    /// as long as the source and made of its entries only. An empty source
    /// gives an empty resample.
    pub fn next(&mut self) -> (out: Option<Sample<T>>)
        ensures
            final(self).source() == old(self).source(),
            out is Some,
            out->0@.len() == old(self).source().len(),
            drawn_from(out->0@, old(self).source()),
            exists|places: Seq<usize>|
                {
                    &&& places.len() == old(self).source().len()
                    &&& places_within(places, old(self).source().len())
                    &&& out->0@ == #[trigger] picked(old(self).source(), places)
                },
    {
        let n: usize = self.data.len();
        let mut buffer: Vec<T> = Vec::with_capacity(n);
        let ghost mut places: Seq<usize> = Seq::empty();
        let mut i: usize = 0;
        while i < n
            invariant
                n == self.data@.len(),
                self.data@ == old(self).data@,
                i <= n,
                places.len() == i,
                places_within(places, n as nat),
                buffer@ == picked(self.data@, places),
            decreases n - i,
        {
            let idx: usize = uniform_below(&mut self.rng, n);
            buffer.push(self.data[idx]);
            proof {
                places = places.push(idx);
                assert(buffer@ == picked(self.data@, places));
            }
            i += 1;
        }
        proof {
            lemma_picked_is_drawn(self.data@, places);
        }
        Some(Sample::new(buffer))
    }
}

impl<T: Copy> SamplingIterator for BootstrapIter<T> {
    type Item = Sample<T>;

    /// What a pull may give is the same however many pulls ahead it is.
    open spec fn may_yield_at(&self, ahead: nat, item: Sample<T>) -> bool {
        item@.len() == self.source().len() && drawn_from(item@, self.source())
    }

    open spec fn pending(&self) -> Option<nat> {
        None
    }

    fn next(&mut self) -> (out: Option<Sample<T>>) {
        BootstrapIter::next(self)
    }
}

impl<T: Copy> Re<Sample<T>> for Bootstrap {
    type Item = Sample<T>;

    type Iter = BootstrapIter<T>;

    open spec fn accepts(&self, t: &Sample<T>) -> bool {
        true
    }

    /// What the scheme may produce is the same at every place.
    open spec fn resamples_at(&self, t: &Sample<T>, place: nat, item: Sample<T>) -> bool {
        item@.len() == t@.len() && drawn_from(item@, t@)
    }

    open spec fn count(&self, t: &Sample<T>) -> Option<nat> {
        None
    }

    fn re(&self, t: &Sample<T>) -> (it: BootstrapIter<T>) {
        Bootstrap::re(self, t)
    }
}

impl<T: Copy> ReStrategy<Vec<T>> for Bootstrap {
    /// The buffer must have room for a resample.
    open spec fn accepts(&self, data: &Vec<T>, output: &Vec<T>) -> bool {
        output@.len() >= data@.len()
    }

    /// The first `data.len()` slots hold entries of `data`; the buffer keeps
    /// its length and whatever lies behind those slots.
    open spec fn fills(&self, data: &Vec<T>, before: &Vec<T>, after: &Vec<T>) -> bool {
        &&& after@.len() == before@.len()
        &&& drawn_from(after@.take(data@.len() as int), data@)
        &&& after@.skip(data@.len() as int) == before@.skip(data@.len() as int)
    }

    fn mutate(&mut self, data: &Vec<T>, output: &mut Vec<T>) {
        let n: usize = data.len();
        let mut i: usize = 0;
        while i < n
            invariant
                n == data@.len(),
                i <= n,
                output@.len() == old(output)@.len(),
                output@.len() >= n,
                drawn_from(output@.take(i as int), data@),
                output@.skip(i as int) == old(output)@.skip(i as int),
            decreases n - i,
        {
            let idx: usize = uniform_below(&mut self.rng, n);
            let ghost before = output@;
            output.set(i, data[idx]);
            proof {
                assert forall|k: int| 0 <= k < i + 1 implies data@.contains(
                    #[trigger] output@.take(i + 1)[k],
                ) by {
                    if k < i {
                        assert(output@.take(i + 1)[k] == before.take(i as int)[k]);
                    } else {
                        assert(output@[k] == data@[idx as int]);
                    }
                }
                assert(output@.skip(i + 1) == before.skip(i as int).skip(1));
                assert(old(output)@.skip(i + 1) == old(output)@.skip(i as int).skip(1));
            }
            i += 1;
        }
    }
}

} // verus!
