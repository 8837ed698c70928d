use crate::resample::{Re, SamplingIterator};
use crate::sample::Sample;
use vstd::prelude::*;

verus! {

/// Leave-one-out resampling: `n` resamples of size `n - 1`.
#[derive(Clone, Copy, Default)]
pub struct Jackknife;

/// The pending leave-one-out resamples of one sample.
pub struct JackknifeIter<T> {
    data: Vec<T>,
    omit_idx: usize,
}

impl Jackknife {
    /// The leave-one-out scheme.
    pub fn new() -> (j: Self) {
        Jackknife
    }

    /// Starts a fresh pass over `sample`.
    pub fn re<T: Copy>(&self, sample: &Sample<T>) -> (it: JackknifeIter<T>)
        ensures
            it.source() == sample@,
            it.position() == 0,
    {
        JackknifeIter::new(sample.as_slice())
    }

    /// All resamples of `sample`, in order: as many as `sample` has
    /// observations, the `i`-th being `sample` without observation `i`.
    pub fn leave_one_out<T: Copy>(&self, sample: &Sample<T>) -> (out: Vec<Sample<T>>)
        ensures
            out@.len() == sample@.len(),
            forall|i: int| 0 <= i < out@.len() ==> (#[trigger] out@[i])@ == sample@.remove(i),
            forall|i: int| 0 <= i < out@.len() ==> (#[trigger] out@[i])@.len() == sample@.len() - 1,
    {
        let n: usize = sample.len();
        let mut stream = Jackknife::re(self, sample);
        let mut out: Vec<Sample<T>> = Vec::with_capacity(n);
        let mut i: usize = 0;
        while i < n
            invariant
                n == sample@.len(),
                i <= n,
                stream.source() == sample@,
                stream.position() == i,
                out@.len() == i,
                forall|k: int| 0 <= k < i ==> (#[trigger] out@[k])@ == sample@.remove(k),
            decreases n - i,
        {
            let pulled = JackknifeIter::next(&mut stream);
            out.push(pulled.unwrap());
            i += 1;
        }
        out
    }
}

impl<T> JackknifeIter<T> {
    #[verifier::type_invariant]
    spec fn wf(&self) -> bool {
        self.omit_idx <= self.data@.len()
    }
}

impl<T: Copy> JackknifeIter<T> {
    /// The observations being resampled.
    pub closed spec fn source(&self) -> Seq<T> {
        self.data@
    }

    /// Index of the observation that the next resample leaves out.
    pub closed spec fn position(&self) -> nat {
        self.omit_idx as nat
    }

    /// A pass over a copy of `data`, from its first observation on.
    pub fn new(data: &[T]) -> (it: Self)
        ensures
            it.source() == data@,
            it.position() == 0,
    {
        JackknifeIter { data: crate::sample::copy_of(data), omit_idx: 0 }
    }

    /// Number of resamples still to come.
    pub fn remaining(&self) -> (r: usize)
        ensures
            r == self.source().len() - self.position(),
    {
        proof {
            use_type_invariant(self);
        }
        self.data.len() - self.omit_idx
    }

    /// Yields the resample that omits observation `position()`, in order, and
    /// `None` for ever once every observation has been left out once.
    pub fn next(&mut self) -> (out: Option<Sample<T>>)
        ensures
            final(self).source() == old(self).source(),
            old(self).position() < old(self).source().len() ==> {
                &&& out is Some
                &&& out->0@ == old(self).source().remove(old(self).position() as int)
                &&& out->0@.len() == old(self).source().len() - 1
                &&& final(self).position() == old(self).position() + 1
            },
            old(self).position() >= old(self).source().len() ==> {
                &&& out is None
                &&& final(self).position() == old(self).position()
            },
    {
        proof {
            use_type_invariant(&*self);
        }
        let n: usize = self.data.len();
        if self.omit_idx >= n {
            return None;
        }
        let omit: usize = self.omit_idx;
        let mut buffer: Vec<T> = Vec::with_capacity(n - 1);
        let mut i: usize = 0;
        while i < omit
            invariant
                omit < n,
                n == self.data@.len(),
                i <= omit,
                buffer@ == self.data@.take(i as int),
            decreases omit - i,
        {
            buffer.push(self.data[i]);
            i += 1;
        }
        let mut k: usize = omit + 1;
        while k < n
            invariant
                omit < k <= n,
                n == self.data@.len(),
                buffer@ == self.data@.take(omit as int) + self.data@.subrange(omit + 1, k as int),
            decreases n - k,
        {
            buffer.push(self.data[k]);
            k += 1;
        }
        assert(buffer@ == self.data@.remove(omit as int));
        self.omit_idx = omit + 1;
        Some(Sample::new(buffer))
    }
}

/// `item` is `source` without the observation at `place`.
pub open spec fn leaves_out<T>(item: Seq<T>, source: Seq<T>, place: nat) -> bool {
    place < source.len() && item == source.remove(place as int)
}

impl<T: Copy> SamplingIterator for JackknifeIter<T> {
    type Item = Sample<T>;

    /// The resample `ahead` pulls from now leaves out the observation
    /// `ahead` places after the one that is next.
    open spec fn may_yield_at(&self, ahead: nat, item: Sample<T>) -> bool {
        leaves_out(item@, self.source(), self.position() + ahead)
    }

    open spec fn pending(&self) -> Option<nat> {
        if self.position() < self.source().len() {
            Some((self.source().len() - self.position()) as nat)
        } else {
            Some(0nat)
        }
    }

    fn next(&mut self) -> (out: Option<Sample<T>>) {
        JackknifeIter::next(self)
    }
}

impl<T: Copy> Re<Sample<T>> for Jackknife {
    type Item = Sample<T>;

    type Iter = JackknifeIter<T>;

    open spec fn accepts(&self, t: &Sample<T>) -> bool {
        true
    }

    /// The resample at `place` is the sample without the observation at
    /// `place`.
    open spec fn resamples_at(&self, t: &Sample<T>, place: nat, item: Sample<T>) -> bool {
        leaves_out(item@, t@, place)
    }

    /// One resample for each observation.
    open spec fn count(&self, t: &Sample<T>) -> Option<nat> {
        Some(t@.len())
    }

    fn re(&self, t: &Sample<T>) -> (it: JackknifeIter<T>) {
        Jackknife::re(self, t)
    }
}

} // verus!
