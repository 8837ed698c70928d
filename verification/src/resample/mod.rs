pub mod bootstrap;
pub mod flipper;
pub mod jackknife;
pub mod shuffle;
pub mod subsampling;

use crate::sample::Sample;
use vstd::prelude::*;

verus! {

/// A stream of resamples, pulled one at a time.
///
/// `may_yield_at(ahead, item)` holds where `item` may be what the stream
/// hands out `ahead` pulls from now, the next pull being zero ahead. A pull
/// moves the stream one place on: what may come `k` ahead afterwards is what
/// might have come `k + 1` ahead before. `pending` is the number of
/// resamples still to come, `None` for a stream that never ends; a stream
/// that has ended stays ended.
pub trait SamplingIterator {
    type Item;

    spec fn may_yield_at(&self, ahead: nat, item: Self::Item) -> bool;

    spec fn pending(&self) -> Option<nat>;

    /// Pulls the next resample; `None` once the stream has ended.
    fn next(&mut self) -> (out: Option<Self::Item>)
        ensures
            out matches Some(item) ==> old(self).may_yield_at(0, item),
            forall|ahead: nat, item: Self::Item| #[trigger]
                final(self).may_yield_at(ahead, item) ==> old(self).may_yield_at(
                    ahead + 1,
                    item,
                ),
            out is Some <==> old(self).pending() != Some(0nat),
            final(self).pending() == after_pull(old(self).pending()),
    ;

    /// Pulls up to `n` items from the stream into a sample, in the order in
    /// which they come: exactly `n` unless the stream ends before.
    fn sample(self, n: usize) -> (out: Sample<Self::Item>) where Self: Sized
        ensures
            out@.len() == taken(n as nat, self.pending()),
            forall|i: int|
                0 <= i < out@.len() ==> self.may_yield_at(i as nat, #[trigger] out@[i]),
    {
        let mut stream = self;
        let ghost start = stream;
        let mut items: Vec<Self::Item> = Vec::new();
        let mut count: usize = 0;
        let mut ended: bool = false;
        while count < n && !ended
            invariant
                count <= n,
                !ended ==> items@.len() == count,
                !ended ==> stream.pending() == pulled_from(start.pending(), count as nat),
                ended ==> items@.len() == taken(n as nat, start.pending()),
                !ended ==> taken(count as nat, start.pending()) == count,
                !ended ==> forall|ahead: nat, item: Self::Item| #[trigger]
                    stream.may_yield_at(ahead, item) ==> start.may_yield_at(
                        (count + ahead) as nat,
                        item,
                    ),
                forall|i: int|
                    0 <= i < items@.len() ==> start.may_yield_at(i as nat, #[trigger] items@[i]),
            decreases n - count, if ended { 0int } else { 1int },
        {
            let ghost earlier = stream;
            let pulled = stream.next();
            match pulled {
                None => {
                    ended = true;
                },
                Some(item) => {
                    let ghost before = items@;
                    items.push(item);
                    proof {
                        assert(earlier.may_yield_at(0, item));
                        assert(start.may_yield_at((count + 0) as nat, item));
                        assert forall|i: int| 0 <= i < items@.len() implies start.may_yield_at(
                            i as nat,
                            #[trigger] items@[i],
                        ) by {
                            if i < before.len() {
                                assert(items@[i] == before[i]);
                            }
                        }
                        assert forall|ahead: nat, item: Self::Item| #[trigger]
                            stream.may_yield_at(ahead, item) implies start.may_yield_at(
                            (count + 1 + ahead) as nat,
                            item,
                        ) by {
                            assert(earlier.may_yield_at(ahead + 1, item));
                            assert(start.may_yield_at((count + (ahead + 1)) as nat, item));
                        }
                    }
                    count += 1;
                },
            }
        }
        Sample::new(items)
    }
}

/// What is pending after one pull.
pub open spec fn after_pull(pending: Option<nat>) -> Option<nat> {
    match pending {
        None => None,
        Some(k) => if k > 0 {
            Some((k - 1) as nat)
        } else {
            Some(0nat)
        },
    }
}

/// How many resamples `wanted` pulls bring from a stream with `pending`
/// resamples to come.
pub open spec fn taken(wanted: nat, pending: Option<nat>) -> nat {
    match pending {
        None => wanted,
        Some(k) => if k < wanted {
            k
        } else {
            wanted
        },
    }
}

/// A resampling scheme: from data to a stream of resamples of it.
///
/// `accepts` says which data the scheme can work on, and
/// `resamples_at(t, place, item)` that `item` may be the resample that a
/// stream over `t` hands out at `place`, the first pull being place zero. A
/// scheme that draws nothing at random admits one resample at each place.
pub trait Re<T> {
    type Item;

    type Iter: SamplingIterator<Item = Self::Item>;

    spec fn accepts(&self, t: &T) -> bool;

    spec fn resamples_at(&self, t: &T, place: nat, item: Self::Item) -> bool;

    /// How many resamples a stream over `t` holds; `None` for a scheme whose
    /// streams never end.
    spec fn count(&self, t: &T) -> Option<nat>;

    /// Starts a stream over `t` that is independent of every other stream.
    fn re(&self, t: &T) -> (it: Self::Iter)
        requires
            self.accepts(t),
        ensures
            forall|ahead: nat, item: Self::Item| #[trigger]
                it.may_yield_at(ahead, item) ==> self.resamples_at(t, ahead, item),
            it.pending() == self.count(t),
    ;
}

/// A resampling step that fills a buffer of the caller from the data.
pub trait ReStrategy<T> {
    spec fn accepts(&self, data: &T, output: &T) -> bool;

    spec fn fills(&self, data: &T, before: &T, after: &T) -> bool;

    fn mutate(&mut self, data: &T, output: &mut T)
        requires
            old(self).accepts(data, old(output)),
        ensures
            old(self).fills(data, old(output), final(output)),
    ;
}

/// What is pending after `pulls` pulls.
pub open spec fn pulled_from(pending: Option<nat>, pulls: nat) -> Option<nat> {
    match pending {
        None => None,
        Some(k) => if k > pulls {
            Some((k - pulls) as nat)
        } else {
            Some(0nat)
        },
    }
}

/// The sequence `s` with the entries at `i` and `j` exchanged.
pub open spec fn swapped<T>(s: Seq<T>, i: int, j: int) -> Seq<T> {
    s.update(i, s[j]).update(j, s[i])
}

/// Exchanging two entries leaves the multiset of entries as it was.
pub proof fn lemma_swapped_same_multiset<T>(s: Seq<T>, i: int, j: int)
    requires
        0 <= i < s.len(),
        0 <= j < s.len(),
    ensures
        swapped(s, i, j).to_multiset() == s.to_multiset(),
        swapped(s, i, j).len() == s.len(),
{
    let mid = s.update(i, s[j]);
    vstd::seq_lib::to_multiset_update(s, i, s[j]);
    vstd::seq_lib::to_multiset_update(mid, j, s[i]);
    s.to_multiset_ensures();
    if i == j {
        assert(mid =~= s);
        assert(swapped(s, i, j) =~= s);
    } else {
        assert(mid[j] == s[j]);
        assert(s.to_multiset().count(s[i]) > 0) by {
            assert(s.contains(s[i]));
        }
        assert(s.to_multiset().count(s[j]) > 0) by {
            assert(s.contains(s[j]));
        }
        assert(s.to_multiset().insert(s[j]).remove(s[i]).insert(s[i]).remove(s[j])
            =~= s.to_multiset());
    }
}

/// The Fisher-Yates walk over `s` under the given draws: the first draw is
/// exchanged with the last slot, the second with the slot before it, and so
/// on down, one slot for each draw.
pub open spec fn walked<T>(s: Seq<T>, draws: Seq<usize>) -> Seq<T>
    decreases draws.len(),
{
    if draws.len() == 0 {
        s
    } else {
        swapped(
            walked(s, draws.drop_last()),
            s.len() - draws.len(),
            draws.last() as int,
        )
    }
}

/// Every draw of a walk over `n` slots points at or below the slot it is
/// exchanged with, and there are no more draws than slots.
pub open spec fn draws_fit(draws: Seq<usize>, n: nat) -> bool {
    &&& draws.len() <= n
    &&& forall|k: int| 0 <= k < draws.len() ==> (#[trigger] draws[k]) <= n - 1 - k
}

/// A walk keeps the length and the multiset of entries.
pub proof fn lemma_walked_same_multiset<T>(s: Seq<T>, draws: Seq<usize>)
    requires
        draws_fit(draws, s.len()),
    ensures
        walked(s, draws).len() == s.len(),
        walked(s, draws).to_multiset() == s.to_multiset(),
    decreases draws.len(),
{
    if draws.len() > 0 {
        let before = draws.drop_last();
        assert forall|k: int| 0 <= k < before.len() implies (#[trigger] before[k]) <= s.len() - 1
            - k by {
            assert(before[k] == draws[k]);
        }
        lemma_walked_same_multiset(s, before);
        assert(draws.last() == draws[draws.len() - 1]);
        lemma_swapped_same_multiset(
            walked(s, before),
            s.len() - draws.len(),
            draws.last() as int,
        );
    }
}

/// One more draw is one more exchange.
pub proof fn lemma_walked_unfolds<T>(s: Seq<T>, draws: Seq<usize>, draw: usize)
    ensures
        walked(s, draws.push(draw)) == swapped(
            walked(s, draws),
            s.len() - draws.len() - 1,
            draw as int,
        ),
{
    assert(draws.push(draw).drop_last() == draws);
}

/// Exchanges the entries at `i` and `j` of `v`.
pub fn swap_at<T: Copy>(v: &mut Vec<T>, i: usize, j: usize)
    requires
        i < old(v)@.len(),
        j < old(v)@.len(),
    ensures
        final(v)@ == swapped(old(v)@, i as int, j as int),
        final(v)@.len() == old(v)@.len(),
        final(v)@.to_multiset() == old(v)@.to_multiset(),
{
    proof {
        lemma_swapped_same_multiset(v@, i as int, j as int);
    }
    let a: T = v[i];
    let b: T = v[j];
    v.set(i, b);
    v.set(j, a);
}

/// The Fisher-Yates walk over a copy of `data` under the given draws.
pub fn walk_with<T: Copy>(data: &[T], draws: &[usize]) -> (out: Vec<T>)
    requires
        draws_fit(draws@, data@.len()),
    ensures
        out@ == walked(data@, draws@),
        out@.len() == data@.len(),
        out@.to_multiset() == data@.to_multiset(),
{
    let n: usize = data.len();
    let m: usize = draws.len();
    let mut buffer: Vec<T> = crate::sample::copy_of(data);
    let mut k: usize = 0;
    assert(draws@.take(0) == Seq::<usize>::empty());
    while k < m
        invariant
            n == data@.len(),
            m == draws@.len(),
            draws_fit(draws@, n as nat),
            k <= m,
            buffer@.len() == n,
            buffer@ == walked(data@, draws@.take(k as int)),
        decreases m - k,
    {
        proof {
            lemma_walked_unfolds(data@, draws@.take(k as int), draws@[k as int]);
            assert(draws@.take(k as int).push(draws@[k as int]) == draws@.take(k + 1));
        }
        swap_at(&mut buffer, n - 1 - k, draws[k]);
        k += 1;
    }
    proof {
        assert(draws@.take(m as int) == draws@);
        lemma_walked_same_multiset(data@, draws@);
    }
    buffer
}

} // verus!
