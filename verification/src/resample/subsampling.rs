use crate::random::{uniform_below, uniform_upto};
use crate::resample::bootstrap::{
    drawn_from, lemma_picked_is_drawn, picked, places_within, resample_at,
};
use crate::resample::{
    draws_fit, lemma_walked_unfolds, swap_at, swapped, walk_with, walked, Re, SamplingIterator,
};
use crate::sample::{copy_of, Sample};
use crate::scalar::{max_of, max_spec, Real};
use rand::rngs::StdRng;
use vstd::prelude::*;

verus! {

/// How a subsample is drawn.
#[derive(Clone, Copy, Debug, PartialEq, Eq, Structural)]
pub enum SamplingMode {
    /// No observation is taken twice.
    WithoutReplacement,
    /// Every entry is an independent draw from the source.
    WithReplacement,
}

/// Size-reduced resampling: every resample has `policy(n)` entries, or `n`
/// where the policy asks for more than there is.
#[derive(Clone)]
pub struct Subsample<F> {
    pub rng: StdRng,
    /// Maps the size of the source to the size of a subsample.
    pub policy: F,
    pub mode: SamplingMode,
}

/// An endless stream of subsamples of one sample.
pub struct SubsampleIter<T> {
    data: Vec<T>,
    rng: StdRng,
    subsample_size: usize,
    mode: SamplingMode,
}

/// `out` reads `source` at the given places, no place twice.
pub open spec fn picked_at<T>(out: Seq<T>, source: Seq<T>, places: Seq<int>) -> bool {
    &&& places.len() == out.len()
    &&& forall|j: int|
        0 <= j < out.len() ==> 0 <= #[trigger] places[j] < source.len() && out[j]
            == source[places[j]]
    &&& forall|a: int, b: int|
        0 <= a < b < places.len() ==> #[trigger] places[a] != #[trigger] places[b]
}

/// `out` is a selection of entries of `source` in which no place of the
/// source is used twice.
pub open spec fn drawn_without_repeat<T>(out: Seq<T>, source: Seq<T>) -> bool {
    exists|places: Seq<int>| picked_at(out, source, places)
}

/// Reservoir sampling of `k` entries under the given draws: the reservoir
/// starts as the first `k` entries of `source`, and the entry at place
/// `k + t` replaces the reservoir slot of draw `t` where that draw is below
/// `k`.
pub open spec fn reservoir<T>(source: Seq<T>, k: nat, draws: Seq<usize>) -> Seq<T>
    decreases draws.len(),
{
    if draws.len() == 0 {
        source.take(k as int)
    } else {
        let before = reservoir(source, k, draws.drop_last());
        if draws.last() < k {
            before.update(draws.last() as int, source[k + draws.len() - 1])
        } else {
            before
        }
    }
}

/// Draw `t` of a reservoir of `k` slots points at or below place `k + t`.
pub open spec fn reservoir_draws_fit(draws: Seq<usize>, k: nat) -> bool {
    forall|t: int| 0 <= t < draws.len() ==> (#[trigger] draws[t]) <= k + t
}

/// Whether `size` out of `n` is drawn by reservoir sampling: fewer than a
/// quarter.
pub open spec fn by_reservoir(size: nat, n: nat) -> bool {
    size < n / 4
}

/// The draws that a subsample of `size` entries of a source of `n` takes:
/// none for an empty subsample; with replacement one place for each entry;
/// without replacement one draw for each source entry beyond the reservoir,
/// or one for each of the last `size` slots of the walk.
pub open spec fn subsample_draws_fit(
    n: nat,
    size: nat,
    mode: SamplingMode,
    draws: Seq<usize>,
) -> bool {
    if size == 0 || n == 0 {
        draws.len() == 0
    } else if mode == SamplingMode::WithReplacement {
        draws.len() == size && places_within(draws, n)
    } else if by_reservoir(size, n) {
        draws.len() == n - size && reservoir_draws_fit(draws, size)
    } else {
        draws.len() == size && draws_fit(draws, n)
    }
}

/// The subsample of `size` entries of `source` under the given draws.
pub open spec fn subsampled<T>(
    source: Seq<T>,
    size: nat,
    mode: SamplingMode,
    draws: Seq<usize>,
) -> Seq<T> {
    if size == 0 || source.len() == 0 {
        Seq::empty()
    } else if mode == SamplingMode::WithReplacement {
        picked(source, draws)
    } else if by_reservoir(size, source.len()) {
        reservoir(source, size, draws)
    } else {
        walked(source, draws).subrange(source.len() - size, source.len() as int)
    }
}

/// One more draw is one more step of the reservoir.
pub proof fn lemma_reservoir_unfolds<T>(source: Seq<T>, k: nat, draws: Seq<usize>, draw: usize)
    ensures
        reservoir(source, k, draws.push(draw)) == if draw < k {
            reservoir(source, k, draws).update(draw as int, source[(k + draws.len()) as int])
        } else {
            reservoir(source, k, draws)
        },
{
    assert(draws.push(draw).drop_last() == draws);
}

/// Reservoir sampling of `k` entries of `data` under the given draws.
pub fn reservoir_with<T: Copy>(data: &[T], k: usize, draws: &[usize]) -> (out: Vec<T>)
    requires
        k <= data@.len(),
        draws@.len() == data@.len() - k,
        reservoir_draws_fit(draws@, k as nat),
    ensures
        out@ == reservoir(data@, k as nat, draws@),
        out@.len() == k,
{
    let n: usize = data.len();
    let mut buffer: Vec<T> = Vec::with_capacity(k);
    let mut f: usize = 0;
    while f < k
        invariant
            n == data@.len(),
            k <= n,
            f <= k,
            buffer@ == data@.take(f as int),
        decreases k - f,
    {
        buffer.push(data[f]);
        f += 1;
    }
    let mut t: usize = 0;
    assert(draws@.take(0) == Seq::<usize>::empty());
    while t < n - k
        invariant
            n == data@.len(),
            k <= n,
            draws@.len() == n - k,
            reservoir_draws_fit(draws@, k as nat),
            t <= n - k,
            buffer@.len() == k,
            buffer@ == reservoir(data@, k as nat, draws@.take(t as int)),
        decreases n - k - t,
    {
        proof {
            lemma_reservoir_unfolds(data@, k as nat, draws@.take(t as int), draws@[t as int]);
            assert(draws@.take(t as int).push(draws@[t as int]) == draws@.take(t + 1));
        }
        let j: usize = draws[t];
        if j < k {
            buffer.set(j, data[k + t]);
        }
        t += 1;
    }
    assert(draws@.take((n - k) as int) == draws@);
    buffer
}

/// The subsample of `size` entries of `data` (of all of `data` where that
/// is fewer) under the given draws.
pub fn subsample_with<T: Copy>(data: &[T], size: usize, mode: SamplingMode, draws: &[usize]) -> (out:
    Vec<T>)
    requires
        subsample_draws_fit(
            data@.len(),
            at_most(size as int, data@.len() as int) as nat,
            mode,
            draws@,
        ),
    ensures
        out@ == subsampled(data@, at_most(size as int, data@.len() as int) as nat, mode, draws@),
{
    let n: usize = data.len();
    let k: usize = if size < n {
        size
    } else {
        n
    };
    if k == 0 || n == 0 {
        return Vec::new();
    }
    match mode {
        SamplingMode::WithReplacement => resample_at(data, draws),
        SamplingMode::WithoutReplacement => {
            if k < n / 4 {
                reservoir_with(data, k, draws)
            } else {
                let buffer: Vec<T> = walk_with(data, draws);
                let mut out: Vec<T> = Vec::with_capacity(k);
                let mut t: usize = 0;
                while t < k
                    invariant
                        n == buffer@.len(),
                        0 < k <= n,
                        t <= k,
                        out@ == buffer@.subrange(n - k, n - k + t),
                    decreases k - t,
                {
                    out.push(buffer[n - k + t]);
                    t += 1;
                }
                out
            }
        },
    }
}

/// The smaller of two sizes.
pub open spec fn at_most(wanted: int, available: int) -> int {
    if wanted < available {
        wanted
    } else {
        available
    }
}

/// The integer square root: the largest `r` with `r * r <= n`.
pub fn sqrt_policy(n: usize) -> (r: usize)
    ensures
        r * r <= n < (r + 1) * (r + 1),
{
    let mut lo: u128 = 0;
    let mut hi: u128 = 0x1_0000_0000u128;
    assert(0x1_0000_0000u128 * 0x1_0000_0000u128 == 0x1_0000_0000_0000_0000u128)
        by (nonlinear_arith);
    while hi - lo > 1
        invariant
            lo < hi <= 0x1_0000_0000u128,
            lo * lo <= n < hi * hi,
        decreases hi - lo,
    {
        let mid: u128 = lo + (hi - lo) / 2;
        assert(mid * mid <= 0x1_0000_0000u128 * 0x1_0000_0000u128) by (nonlinear_arith)
            requires
                0 <= mid <= 0x1_0000_0000u128,
        ;
        if mid * mid <= n as u128 {
            lo = mid;
        } else {
            hi = mid;
        }
    }
    assert(lo <= n) by (nonlinear_arith)
        requires
            lo * lo <= n,
            lo >= 0,
    ;
    lo as usize
}

/// The size that the logarithmic policy asks of `n` observations: the
/// integer part of `ln n`, and at least one.
pub open spec fn log_size<F: Real>(n: usize) -> usize {
    max_spec(F::from_usize_spec(n).ln_spec(), F::one_spec()).trunc_spec()
}

/// The size that the ratio policy asks of `n` observations: the integer
/// part of `n * ratio`, and at least one.
pub open spec fn ratio_size<F: Real>(n: usize, ratio: F) -> usize {
    max_spec(F::from_usize_spec(n).times_spec(ratio), F::one_spec()).trunc_spec()
}

/// The logarithmic policy, computed in the scalars `F`.
pub fn log_policy<F: Real>(n: usize) -> (r: usize)
    ensures
        r == log_size::<F>(n),
{
    max_of(F::from_usize(n).ln(), F::one()).trunc()
}

/// A policy that asks for the share `ratio` of the source, and for one
/// entry at least.
pub fn fixed_ratio_policy<F: Real>(ratio: F) -> (policy: impl Fn(usize) -> usize)
    ensures
        forall|n: usize| policy.requires((n,)),
        forall|n: usize, r: usize| policy.ensures((n,), r) ==> r == ratio_size(n, ratio),
{
    move |n: usize| -> (r: usize)
        ensures
            r == ratio_size(n, ratio),
        { max_of(F::from_usize(n).times(ratio), F::one()).trunc() }
}

/// A policy that asks for `size` entries whatever the source holds.
pub fn fixed_size_policy(size: usize) -> (policy: impl Fn(usize) -> usize)
    ensures
        forall|n: usize| policy.requires((n,)),
        forall|n: usize, r: usize| policy.ensures((n,), r) ==> r == size,
{
    move |n: usize| -> (r: usize)
        ensures
            r == size,
        { size }
}

/// The default policy is a closure, and the type of a closure has no name:
/// `()` does no more than give the constructor a place to stand.
impl Subsample<()> {
    /// Square-root subsampling without replacement.
    pub fn new(rng: StdRng) -> (s: Subsample<impl Fn(usize) -> usize>)
        ensures
            s.rng == rng,
            s.mode == SamplingMode::WithoutReplacement,
            forall|n: usize| s.policy.requires((n,)),
            forall|n: usize, r: usize|
                s.policy.ensures((n,), r) ==> r * r <= n < (r + 1) * (r + 1),
    {
        let policy = |n: usize| -> (r: usize)
            ensures
                r * r <= n < (r + 1) * (r + 1),
            { sqrt_policy(n) };
        Subsample { rng, policy, mode: SamplingMode::WithoutReplacement }
    }
}

impl<F: Fn(usize) -> usize> Subsample<F> {
    /// Subsampling without replacement under a size policy of the caller.
    pub fn with_policy(rng: StdRng, policy: F) -> (s: Self)
        ensures
            s.rng == rng,
            s.policy == policy,
            s.mode == SamplingMode::WithoutReplacement,
    {
        Subsample { rng, policy, mode: SamplingMode::WithoutReplacement }
    }

    /// The same subsampler with another sampling mode.
    pub fn with_mode(self, mode: SamplingMode) -> (s: Self)
        ensures
            s.rng == self.rng,
            s.policy == self.policy,
            s.mode == mode,
    {
        Subsample { rng: self.rng, policy: self.policy, mode }
    }

    /// Starts a stream over `sample`, driven by a copy of this generator.
    /// The policy is asked once, for the size of `sample`, and its answer is
    /// cut down to that size.
    pub fn re<T: Copy>(&self, sample: &Sample<T>) -> (it: SubsampleIter<T>)
        requires
            self.policy.requires((sample@.len() as usize,)),
        ensures
            it.source() == sample@,
            it.mode() == self.mode,
            exists|wanted: usize|
                #[trigger] self.policy.ensures((sample@.len() as usize,), wanted) && it.size()
                    == at_most(wanted as int, sample@.len() as int),
    {
        let n: usize = sample.len();
        let wanted: usize = (self.policy)(n);
        let size: usize = if wanted < n {
            wanted
        } else {
            n
        };
        let it = SubsampleIter::new(sample.as_slice(), self.rng.clone(), size, self.mode);
        assert(self.policy.ensures((sample@.len() as usize,), wanted) && it.size() == at_most(
            wanted as int,
            sample@.len() as int,
        ));
        it
    }
}

impl<T: Copy> SubsampleIter<T> {
    /// The observations being resampled.
    pub closed spec fn source(&self) -> Seq<T> {
        self.data@
    }

    /// The number of entries of every subsample.
    pub closed spec fn size(&self) -> int {
        at_most(self.subsample_size as int, self.data@.len() as int)
    }

    /// The sampling mode in use.
    pub closed spec fn mode(&self) -> SamplingMode {
        self.mode
    }

    /// A stream of subsamples of `subsample_size` entries, or of as many as
    /// `data` holds where that is fewer.
    pub fn new(data: &[T], rng: StdRng, subsample_size: usize, mode: SamplingMode) -> (it: Self)
        ensures
            it.source() == data@,
            it.size() == at_most(subsample_size as int, data@.len() as int),
            it.mode() == mode,
    {
        SubsampleIter { data: copy_of(data), rng, subsample_size, mode }
    }

    /// Draws `size()` entries from pairwise different places of the source:
    /// by reservoir sampling where fewer than a quarter of the source is
    /// wanted, and otherwise by a Fisher-Yates walk over the last `size()`
    /// slots, which are then handed out.
    fn sample_without_replacement(&mut self) -> (out: Sample<T>)
        ensures
            final(self).source() == old(self).source(),
            final(self).size() == old(self).size(),
            final(self).mode() == old(self).mode(),
            out@.len() == old(self).size(),
            drawn_without_repeat(out@, old(self).source()),
            exists|draws: Seq<usize>|
                {
                    &&& subsample_draws_fit(
                        old(self).source().len(),
                        old(self).size() as nat,
                        SamplingMode::WithoutReplacement,
                        draws,
                    )
                    &&& out@ == #[trigger] subsampled(
                        old(self).source(),
                        old(self).size() as nat,
                        SamplingMode::WithoutReplacement,
                        draws,
                    )
                },
    {
        let n: usize = self.data.len();
        let k: usize = if self.subsample_size < n {
            self.subsample_size
        } else {
            n
        };
        if k == 0 {
            let empty: Vec<T> = Vec::new();
            assert(picked_at(empty@, self.data@, Seq::<int>::empty()));
            let out = Sample::new(empty);
            assert(subsample_draws_fit(
                old(self).source().len(),
                old(self).size() as nat,
                SamplingMode::WithoutReplacement,
                Seq::<usize>::empty(),
            ) && out@ == subsampled(
                old(self).source(),
                old(self).size() as nat,
                SamplingMode::WithoutReplacement,
                Seq::<usize>::empty(),
            ));
            return out;
        }
        if k < n / 4 {
            let mut buffer: Vec<T> = Vec::with_capacity(k);
            let mut f: usize = 0;
            while f < k
                invariant
                    self.data@ == old(self).data@,
                    n == self.data@.len(),
                    k < n,
                    f <= k,
                    buffer@ == self.data@.take(f as int),
                decreases k - f,
            {
                buffer.push(self.data[f]);
                f += 1;
            }
            let ghost mut places: Seq<int> = Seq::new(k as nat, |j: int| j);
            let ghost mut draws: Seq<usize> = Seq::empty();
            let mut i: usize = k;
            while i < n
                invariant
                    self.data@ == old(self).data@,
                    self.subsample_size == old(self).subsample_size,
                    self.mode == old(self).mode,
                    n == self.data@.len(),
                    k <= i <= n,
                    buffer@.len() == k,
                    picked_at(buffer@, self.data@.take(i as int), places),
                    draws.len() == i - k,
                    reservoir_draws_fit(draws, k as nat),
                    buffer@ == reservoir(self.data@, k as nat, draws),
                decreases n - i,
            {
                let j: usize = uniform_upto(&mut self.rng, i);
                let ghost before = buffer@;
                let ghost old_places = places;
                proof {
                    lemma_reservoir_unfolds(self.data@, k as nat, draws, j);
                }
                if j < k {
                    buffer.set(j, self.data[i]);
                    proof {
                        places = places.update(j as int, i as int);
                    }
                }
                proof {
                    let longer = draws.push(j);
                    assert forall|t: int| 0 <= t < longer.len() implies (#[trigger] longer[t]) <= k
                        + t by {
                        if t < draws.len() {
                            assert(longer[t] == draws[t]);
                        }
                    }
                    draws = longer;
                    let wider = self.data@.take(i + 1);
                    assert forall|t: int| 0 <= t < k implies 0 <= #[trigger] places[t]
                        < wider.len() && buffer@[t] == wider[places[t]] by {
                        if j < k && t == j {
                        } else {
                            assert(places[t] == old_places[t]);
                            assert(buffer@[t] == before[t]);
                            assert(before[t] == self.data@.take(i as int)[old_places[t]]);
                        }
                    }
                    assert forall|a: int, b: int| 0 <= a < b < places.len() implies #[trigger] places[a]
                        != #[trigger] places[b] by {
                        assert(old_places[a] != old_places[b]);
                        assert(old_places[a] < i && old_places[b] < i);
                    }
                }
                i += 1;
            }
            assert(self.data@.take(n as int) == self.data@);
            let out = Sample::new(buffer);
            assert(k == old(self).size());
            assert(subsample_draws_fit(
                old(self).source().len(),
                old(self).size() as nat,
                SamplingMode::WithoutReplacement,
                draws,
            ) && out@ == subsampled(
                old(self).source(),
                old(self).size() as nat,
                SamplingMode::WithoutReplacement,
                draws,
            ));
            out
        } else {
            let mut buffer: Vec<T> = copy_of(self.data.as_slice());
            let ghost mut places: Seq<int> = Seq::new(n as nat, |j: int| j);
            let ghost mut draws: Seq<usize> = Seq::empty();
            let mut i: usize = n;
            while i > n - k
                invariant
                    self.data@ == old(self).data@,
                    self.subsample_size == old(self).subsample_size,
                    self.mode == old(self).mode,
                    n == self.data@.len(),
                    0 < k <= n,
                    n - k <= i <= n,
                    buffer@.len() == n,
                    picked_at(buffer@, self.data@, places),
                    draws.len() == n - i,
                    draws_fit(draws, n as nat),
                    buffer@ == walked(self.data@, draws),
                decreases i,
            {
                i -= 1;
                let j: usize = uniform_upto(&mut self.rng, i);
                let ghost before = buffer@;
                let ghost old_places = places;
                proof {
                    lemma_walked_unfolds(self.data@, draws, j);
                }
                swap_at(&mut buffer, i, j);
                proof {
                    let longer = draws.push(j);
                    assert forall|t: int| 0 <= t < longer.len() implies (#[trigger] longer[t]) <= n
                        - 1 - t by {
                        if t < draws.len() {
                            assert(longer[t] == draws[t]);
                        }
                    }
                    draws = longer;
                    places = swapped(old_places, i as int, j as int);
                    assert forall|t: int| 0 <= t < n implies 0 <= #[trigger] places[t] < n
                        && buffer@[t] == self.data@[places[t]] by {
                        if t == i as int {
                            assert(before[j as int] == self.data@[old_places[j as int]]);
                        } else if t == j as int {
                            assert(before[i as int] == self.data@[old_places[i as int]]);
                        } else {
                            assert(before[t] == self.data@[old_places[t]]);
                        }
                    }
                    assert forall|a: int, b: int| 0 <= a < b < places.len() implies #[trigger] places[a]
                        != #[trigger] places[b] by {
                        let pa = if a == i { j as int } else if a == j { i as int } else { a };
                        let pb = if b == i { j as int } else if b == j { i as int } else { b };
                        assert(places[a] == old_places[pa]);
                        assert(places[b] == old_places[pb]);
                        if pa < pb {
                            assert(old_places[pa] != old_places[pb]);
                        } else {
                            assert(old_places[pb] != old_places[pa]);
                        }
                    }
                }
            }
            let mut out: Vec<T> = Vec::with_capacity(k);
            let mut t: usize = 0;
            while t < k
                invariant
                    n == buffer@.len(),
                    0 < k <= n,
                    t <= k,
                    out@ == buffer@.subrange(n - k, n - k + t),
                decreases k - t,
            {
                out.push(buffer[n - k + t]);
                t += 1;
            }
            proof {
                let tail = places.subrange(n - k, n as int);
                assert forall|a: int, b: int| 0 <= a < b < tail.len() implies #[trigger] tail[a]
                    != #[trigger] tail[b] by {
                    assert(places[n - k + a] != places[n - k + b]);
                }
                assert forall|j: int| 0 <= j < out@.len() implies 0 <= #[trigger] tail[j]
                    < self.data@.len() && out@[j] == self.data@[tail[j]] by {
                    assert(tail[j] == places[n - k + j]);
                    assert(out@[j] == buffer@[n - k + j]);
                }
                assert(picked_at(out@, self.data@, tail));
                assert(out@ == buffer@.subrange(n - k, n as int));
            }
            let out = Sample::new(out);
            assert(k == old(self).size());
            assert(subsample_draws_fit(
                old(self).source().len(),
                old(self).size() as nat,
                SamplingMode::WithoutReplacement,
                draws,
            ) && out@ == subsampled(
                old(self).source(),
                old(self).size() as nat,
                SamplingMode::WithoutReplacement,
                draws,
            ));
            out
        }
    }

    /// Draws `size()` entries, each from a place of the source chosen
    /// independently of the others.
    fn sample_with_replacement(&mut self) -> (out: Sample<T>)
        requires
            old(self).source().len() > 0,
            old(self).size() > 0,
        ensures
            final(self).source() == old(self).source(),
            final(self).size() == old(self).size(),
            final(self).mode() == old(self).mode(),
            out@.len() == old(self).size(),
            drawn_from(out@, old(self).source()),
            exists|draws: Seq<usize>|
                {
                    &&& subsample_draws_fit(
                        old(self).source().len(),
                        old(self).size() as nat,
                        SamplingMode::WithReplacement,
                        draws,
                    )
                    &&& out@ == #[trigger] subsampled(
                        old(self).source(),
                        old(self).size() as nat,
                        SamplingMode::WithReplacement,
                        draws,
                    )
                },
    {
        let n: usize = self.data.len();
        let k: usize = if self.subsample_size < n {
            self.subsample_size
        } else {
            n
        };
        let mut buffer: Vec<T> = Vec::with_capacity(k);
        let ghost mut draws: Seq<usize> = Seq::empty();
        let mut i: usize = 0;
        while i < k
            invariant
                self.data@ == old(self).data@,
                self.subsample_size == old(self).subsample_size,
                self.mode == old(self).mode,
                n == self.data@.len(),
                n > 0,
                i <= k,
                draws.len() == i,
                places_within(draws, n as nat),
                buffer@ == picked(self.data@, draws),
            decreases k - i,
        {
            let idx: usize = uniform_below(&mut self.rng, n);
            buffer.push(self.data[idx]);
            proof {
                draws = draws.push(idx);
                assert(buffer@ == picked(self.data@, draws));
            }
            i += 1;
        }
        proof {
            lemma_picked_is_drawn(self.data@, draws);
        }
        let out = Sample::new(buffer);
        assert(k == old(self).size());
        assert(subsample_draws_fit(
            old(self).source().len(),
            old(self).size() as nat,
            SamplingMode::WithReplacement,
            draws,
        ) && out@ == subsampled(
            old(self).source(),
            old(self).size() as nat,
            SamplingMode::WithReplacement,
            draws,
        ));
        out
    }

    /// Draws one subsample. The stream never ends. The result has `size()`
    /// entries; an empty source or a size of zero gives an empty subsample.
    /// Without replacement no place of the source is used twice; with
    /// replacement every entry occurs somewhere in the source.
    pub fn next(&mut self) -> (out: Option<Sample<T>>)
        ensures
            final(self).source() == old(self).source(),
            final(self).size() == old(self).size(),
            final(self).mode() == old(self).mode(),
            out is Some,
            out->0@.len() == old(self).size(),
            old(self).mode() == SamplingMode::WithoutReplacement ==> drawn_without_repeat(
                out->0@,
                old(self).source(),
            ),
            old(self).mode() == SamplingMode::WithReplacement ==> drawn_from(
                out->0@,
                old(self).source(),
            ),
            exists|draws: Seq<usize>|
                {
                    &&& subsample_draws_fit(
                        old(self).source().len(),
                        old(self).size() as nat,
                        old(self).mode(),
                        draws,
                    )
                    &&& out->0@ == #[trigger] subsampled(
                        old(self).source(),
                        old(self).size() as nat,
                        old(self).mode(),
                        draws,
                    )
                },
    {
        if self.data.len() == 0 || self.subsample_size == 0 {
            let empty: Vec<T> = Vec::new();
            assert(picked_at(empty@, self.data@, Seq::<int>::empty()));
            let out = Sample::new(empty);
            assert(subsample_draws_fit(
                old(self).source().len(),
                old(self).size() as nat,
                old(self).mode(),
                Seq::<usize>::empty(),
            ) && out@ == subsampled(
                old(self).source(),
                old(self).size() as nat,
                old(self).mode(),
                Seq::<usize>::empty(),
            ));
            return Some(out);
        }
        match self.mode {
            SamplingMode::WithoutReplacement => Some(self.sample_without_replacement()),
            SamplingMode::WithReplacement => Some(self.sample_with_replacement()),
        }
    }
}

/// `item` is a subsample of `size` entries of `source`, drawn in `mode`.
pub open spec fn subsample_of<T>(item: Seq<T>, source: Seq<T>, size: int, mode: SamplingMode) -> bool {
    &&& item.len() == size
    &&& mode == SamplingMode::WithoutReplacement ==> drawn_without_repeat(item, source)
    &&& mode == SamplingMode::WithReplacement ==> drawn_from(item, source)
}

impl<T: Copy> SamplingIterator for SubsampleIter<T> {
    type Item = Sample<T>;

    /// What a pull may give is the same however many pulls ahead it is.
    open spec fn may_yield_at(&self, ahead: nat, item: Sample<T>) -> bool {
        subsample_of(item@, self.source(), self.size(), self.mode())
    }

    open spec fn pending(&self) -> Option<nat> {
        None
    }

    fn next(&mut self) -> (out: Option<Sample<T>>) {
        SubsampleIter::next(self)
    }
}

impl<T: Copy, F: Fn(usize) -> usize> Re<Sample<T>> for Subsample<F> {
    type Item = Sample<T>;

    type Iter = SubsampleIter<T>;

    open spec fn accepts(&self, t: &Sample<T>) -> bool {
        self.policy.requires((t@.len() as usize,))
    }

    /// What the scheme may produce is the same at every place.
    open spec fn resamples_at(&self, t: &Sample<T>, place: nat, item: Sample<T>) -> bool {
        exists|wanted: usize|
            #[trigger] self.policy.ensures((t@.len() as usize,), wanted) && subsample_of(
                item@,
                t@,
                at_most(wanted as int, t@.len() as int),
                self.mode,
            )
    }

    open spec fn count(&self, t: &Sample<T>) -> Option<nat> {
        None
    }

    fn re(&self, t: &Sample<T>) -> (it: SubsampleIter<T>) {
        Subsample::re(self, t)
    }
}

} // verus!
