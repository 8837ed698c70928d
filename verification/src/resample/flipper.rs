use crate::random::random_word;
use crate::resample::{Re, SamplingIterator};
use crate::sample::{copy_of, Sample};
use rand::rngs::StdRng;
use std::ops::Neg;
use vstd::prelude::*;
use vstd::std_specs::ops::NegSpec;

verus! {

/// Sign bit of a 32-bit IEEE 754 pattern.
pub const SIGN_BIT_32: u32 = 0x8000_0000u32;

/// Sign bit of a 64-bit IEEE 754 pattern.
pub const SIGN_BIT_64: u64 = 0x8000_0000_0000_0000u64;

/// A flipping rule: what becomes of a value when its control flag is set.
pub trait Flip<T> {
    /// The values the rule can be applied to.
    spec fn accepts(&self, value: T) -> bool;

    /// The value after the flip.
    spec fn flipped(&self, value: T, control: bool) -> T;

    /// Flips `value` when `control` is set and hands it back untouched
    /// otherwise.
    fn flip(&self, value: T, control: bool) -> (out: T)
        requires
            self.accepts(value),
        ensures
            out == self.flipped(value, control),
            !control ==> out == value,
    ;
}

/// Sign inversion on the bit pattern of an IEEE 754 number: the sign bit is
/// toggled and every other bit is left alone, whatever the pattern encodes
/// (zeros, infinities and NaN payloads included).
#[derive(Clone, Copy, Default)]
pub struct SignBitFlip;

/// Sign inversion by negation, for types without an IEEE 754 layout.
#[derive(Clone, Copy, Default)]
pub struct MultiplyFlip;

impl Flip<u32> for SignBitFlip {
    open spec fn accepts(&self, value: u32) -> bool {
        true
    }

    open spec fn flipped(&self, value: u32, control: bool) -> u32 {
        if control {
            value ^ SIGN_BIT_32
        } else {
            value
        }
    }

    fn flip(&self, value: u32, control: bool) -> (out: u32) {
        let mask: u32 = if control {
            SIGN_BIT_32
        } else {
            0
        };
        assert(value ^ 0u32 == value) by (bit_vector);
        value ^ mask
    }
}

impl Flip<u64> for SignBitFlip {
    open spec fn accepts(&self, value: u64) -> bool {
        true
    }

    open spec fn flipped(&self, value: u64, control: bool) -> u64 {
        if control {
            value ^ SIGN_BIT_64
        } else {
            value
        }
    }

    fn flip(&self, value: u64, control: bool) -> (out: u64) {
        let mask: u64 = if control {
            SIGN_BIT_64
        } else {
            0
        };
        assert(value ^ 0u64 == value) by (bit_vector);
        value ^ mask
    }
}

impl<T: Copy + Neg<Output = T>> Flip<T> for MultiplyFlip {
    open spec fn accepts(&self, value: T) -> bool {
        T::obeys_neg_spec() && value.neg_req()
    }

    open spec fn flipped(&self, value: T, control: bool) -> T {
        if control {
            value.neg_spec()
        } else {
            value
        }
    }

    fn flip(&self, value: T, control: bool) -> (out: T) {
        if control {
            value.neg()
        } else {
            value
        }
    }
}

/// Sign-flip resampling: every resample has the size of the source, and each
/// entry is the source entry at the same place, flipped or not.
#[derive(Clone)]
pub struct Flipper<F> {
    pub rng: StdRng,
    pub flip: F,
}

/// An endless stream of sign-flipped copies of one sample.
///
/// Random bits come from a 64-bit reservoir that is refilled from the
/// generator when it runs out; one bit is spent on each entry.
pub struct FlipperIter<T, F: Flip<T>> {
    input: Flippable<T, F>,
    rng: StdRng,
    bit_reservoir: u64,
    bits_consumed: u32,
}

/// Observations together with a rule that accepts each of them.
struct Flippable<T, F: Flip<T>> {
    data: Vec<T>,
    flip: F,
}

/// `out` is `source` with each entry flipped or left alone by `rule`.
pub open spec fn flips_of<T, F: Flip<T>>(out: Seq<T>, source: Seq<T>, rule: F) -> bool {
    &&& out.len() == source.len()
    &&& forall|i: int|
        0 <= i < out.len() ==> #[trigger] out[i] == rule.flipped(source[i], true) || out[i]
            == rule.flipped(source[i], false)
}

/// `source` with the entry at each place flipped under the control at that
/// place.
pub open spec fn flipped_by<T, F: Flip<T>>(source: Seq<T>, rule: F, controls: Seq<bool>) -> Seq<T> {
    Seq::new(source.len(), |i: int| rule.flipped(source[i], controls[i]))
}

/// Flipping under any controls gives a flipped copy.
pub proof fn lemma_flipped_by_is_flips_of<T, F: Flip<T>>(
    source: Seq<T>,
    rule: F,
    controls: Seq<bool>,
)
    requires
        controls.len() == source.len(),
    ensures
        flips_of(flipped_by(source, rule, controls), source, rule),
{
    let out = flipped_by(source, rule, controls);
    assert forall|i: int| 0 <= i < out.len() implies #[trigger] out[i] == rule.flipped(
        source[i],
        true,
    ) || out[i] == rule.flipped(source[i], false) by {
        assert(out[i] == rule.flipped(source[i], controls[i]));
    }
}

/// The copy of `data` in which the entry at each place is flipped under the
/// control at that place: the sign-flip resample for random bits that are
/// given.
pub fn flip_with<T: Copy, F: Flip<T>>(data: &[T], rule: &F, controls: &[bool]) -> (out: Vec<T>)
    requires
        controls@.len() == data@.len(),
        all_accepted(data@, *rule),
    ensures
        out@ == flipped_by(data@, *rule, controls@),
        flips_of(out@, data@, *rule),
{
    let n: usize = data.len();
    let mut out: Vec<T> = Vec::with_capacity(n);
    let mut i: usize = 0;
    while i < n
        invariant
            n == data@.len(),
            n == controls@.len(),
            all_accepted(data@, *rule),
            i <= n,
            out@ == flipped_by(data@, *rule, controls@).take(i as int),
        decreases n - i,
    {
        out.push(rule.flip(data[i], controls[i]));
        assert(out@ == flipped_by(data@, *rule, controls@).take(i + 1));
        i += 1;
    }
    proof {
        assert(flipped_by(data@, *rule, controls@).take(n as int) == flipped_by(
            data@,
            *rule,
            controls@,
        ));
        lemma_flipped_by_is_flips_of(data@, *rule, controls@);
    }
    out
}

/// The control of entry `k` of a block of eight that reads `word` from bit
/// `consumed` on.
pub open spec fn block_control(word: u64, consumed: u32, k: u32) -> bool {
    ((word >> consumed) & (1u64 << k)) != 0
}

/// The controls of a block of eight that reads `word` from bit `consumed`
/// on.
pub open spec fn block_controls(word: u64, consumed: u32) -> Seq<bool> {
    Seq::new(8, |k: int| block_control(word, consumed, k as u32))
}

/// The control of a single entry that reads bit `consumed` of `word`.
pub open spec fn single_control(word: u64, consumed: u32) -> bool {
    ((word >> consumed) & 1u64) != 0
}

/// How the reservoir serves `remaining` more entries, given the word it
/// holds, the number of its bits that are spent, the words that the
/// generator will hand out, and the controls served so far. While eight or
/// more entries remain they are served as a block of eight bits, from a new
/// word where more than 56 bits are spent; the rest are served bit by bit,
/// from a new word where all 64 are spent. The plan ends with the controls
/// of all entries, the word and the count of spent bits that the reservoir
/// is left with, and the words that were not needed (it stops short where
/// the words run out).
pub open spec fn bit_plan(
    remaining: nat,
    word: u64,
    consumed: u32,
    words: Seq<u64>,
    controls: Seq<bool>,
) -> (Seq<bool>, u64, u32, Seq<u64>)
    decreases remaining,
{
    if remaining == 0 {
        (controls, word, consumed, words)
    } else if remaining >= 8 {
        if consumed > 56 {
            if words.len() == 0 {
                (controls, word, consumed, words)
            } else {
                bit_plan(
                    (remaining - 8) as nat,
                    words[0],
                    8,
                    words.skip(1),
                    controls + block_controls(words[0], 0),
                )
            }
        } else {
            bit_plan(
                (remaining - 8) as nat,
                word,
                (consumed + 8) as u32,
                words,
                controls + block_controls(word, consumed),
            )
        }
    } else if consumed >= 64 {
        if words.len() == 0 {
            (controls, word, consumed, words)
        } else {
            bit_plan(
                (remaining - 1) as nat,
                words[0],
                1,
                words.skip(1),
                controls.push(single_control(words[0], 0)),
            )
        }
    } else {
        bit_plan(
            (remaining - 1) as nat,
            word,
            (consumed + 1) as u32,
            words,
            controls.push(single_control(word, consumed)),
        )
    }
}

/// Follows the plan of the reservoir for `n` entries over the words given:
/// the controls served, the word and the count of spent bits that the
/// reservoir is left with, and the number of words used.
pub fn plan_bits(n: usize, word: u64, spent: u32, words: &[u64]) -> (out: (
    Vec<bool>,
    u64,
    u32,
    usize,
))
    ensures
        out.3 <= words@.len(),
        bit_plan(n as nat, word, spent, words@, Seq::empty()) == (
            out.0@,
            out.1,
            out.2,
            words@.skip(out.3 as int),
        ),
{
    let mut controls: Vec<bool> = Vec::new();
    let mut held: u64 = word;
    let mut consumed: u32 = spent;
    let mut used: usize = 0;
    let mut i: usize = 0;
    let mut short: bool = false;
    assert(words@.skip(0) == words@);
    while i < n && !short
        invariant
            i <= n,
            used <= words@.len(),
            bit_plan(n as nat, word, spent, words@, Seq::empty()) == bit_plan(
                (n - i) as nat,
                held,
                consumed,
                words@.skip(used as int),
                controls@,
            ),
            short ==> bit_plan(
                (n - i) as nat,
                held,
                consumed,
                words@.skip(used as int),
                controls@,
            ) == (controls@, held, consumed, words@.skip(used as int)),
        decreases n - i, if short { 0int } else { 1int },
    {
        let ghost rest = words@.skip(used as int);
        let block: bool = n - i >= 8;
        let refill: bool = if block {
            consumed > 56
        } else {
            consumed >= 64
        };
        if refill && used >= words.len() {
            short = true;
        } else {
            if refill {
                proof {
                    assert(rest[0] == words@[used as int]);
                    assert(rest.skip(1) == words@.skip(used + 1));
                }
                held = words[used];
                consumed = 0;
                used += 1;
            }
            if block {
                let bits: u64 = held >> consumed;
                let ghost read_from = consumed;
                let ghost block_start = controls@;
                let mut k: u32 = 0;
                while k < 8
                    invariant
                        k <= 8,
                        bits == held >> read_from,
                        controls@ == block_start + block_controls(held, read_from).take(k as int),
                    decreases 8 - k,
                {
                    let control: bool = (bits & (1u64 << k)) != 0;
                    proof {
                        assert(control == block_controls(held, read_from)[k as int]);
                        assert(block_controls(held, read_from).take(k as int).push(control)
                            == block_controls(held, read_from).take(k + 1));
                    }
                    controls.push(control);
                    k += 1;
                }
                assert(block_controls(held, read_from).take(8) == block_controls(held, read_from));
                consumed += 8;
                i += 8;
            } else {
                let control: bool = ((held >> consumed) & 1) != 0;
                controls.push(control);
                consumed += 1;
                i += 1;
            }
        }
    }
    (controls, held, consumed, used)
}

/// A pull has followed `plan`: the plan used up its words and served every
/// entry, `out` is `source` flipped under its controls, and the reservoir is
/// left with its word and its count of spent bits.
pub open spec fn follows_plan<T, F: Flip<T>>(
    plan: (Seq<bool>, u64, u32, Seq<u64>),
    out: Seq<T>,
    source: Seq<T>,
    rule: F,
    word: u64,
    spent: u32,
) -> bool {
    &&& plan.0.len() == source.len()
    &&& plan.3.len() == 0
    &&& out == flipped_by(source, rule, plan.0)
    &&& word == plan.1
    &&& spent == plan.2
}

/// What has been served and drawn so far is the beginning of every plan
/// that goes on from here: whatever words are still to come, the plan for
/// all `n` entries from the first state is the plan for the entries that
/// remain from the present one.
pub open spec fn plan_goes_on(
    n: nat,
    first_word: u64,
    first_consumed: u32,
    drawn: Seq<u64>,
    served: nat,
    word: u64,
    consumed: u32,
    controls: Seq<bool>,
) -> bool {
    forall|future: Seq<u64>| #[trigger]
        bit_plan(n, first_word, first_consumed, drawn + future, Seq::empty()) == bit_plan(
            (n - served) as nat,
            word,
            consumed,
            future,
            controls,
        )
}

/// Before anything is served or drawn the plan is all to come.
pub proof fn lemma_plan_starts(n: nat, word: u64, consumed: u32)
    ensures
        plan_goes_on(n, word, consumed, Seq::empty(), 0, word, consumed, Seq::empty()),
{
    assert forall|future: Seq<u64>| #[trigger]
        bit_plan(n, word, consumed, Seq::<u64>::empty() + future, Seq::empty()) == bit_plan(
            (n - 0) as nat,
            word,
            consumed,
            future,
            Seq::empty(),
        ) by {
        assert(Seq::<u64>::empty() + future == future);
    }
}

/// A block of eight served from the word in the reservoir.
pub proof fn lemma_plan_serves_block(
    n: nat,
    first_word: u64,
    first_consumed: u32,
    drawn: Seq<u64>,
    served: nat,
    word: u64,
    consumed: u32,
    controls: Seq<bool>,
)
    requires
        plan_goes_on(n, first_word, first_consumed, drawn, served, word, consumed, controls),
        served + 8 <= n,
        consumed <= 56,
    ensures
        plan_goes_on(
            n,
            first_word,
            first_consumed,
            drawn,
            served + 8,
            word,
            (consumed + 8) as u32,
            controls + block_controls(word, consumed),
        ),
{
    assert forall|future: Seq<u64>| #[trigger]
        bit_plan(n, first_word, first_consumed, drawn + future, Seq::empty()) == bit_plan(
            (n - (served + 8)) as nat,
            word,
            (consumed + 8) as u32,
            future,
            controls + block_controls(word, consumed),
        ) by {
        assert(bit_plan(n, first_word, first_consumed, drawn + future, Seq::empty()) == bit_plan(
            (n - served) as nat,
            word,
            consumed,
            future,
            controls,
        ));
    }
}

/// A block of eight served from a word that is drawn for it.
pub proof fn lemma_plan_draws_block(
    n: nat,
    first_word: u64,
    first_consumed: u32,
    drawn: Seq<u64>,
    served: nat,
    word: u64,
    consumed: u32,
    controls: Seq<bool>,
    fresh: u64,
)
    requires
        plan_goes_on(n, first_word, first_consumed, drawn, served, word, consumed, controls),
        served + 8 <= n,
        consumed > 56,
    ensures
        plan_goes_on(
            n,
            first_word,
            first_consumed,
            drawn.push(fresh),
            served + 8,
            fresh,
            8,
            controls + block_controls(fresh, 0),
        ),
{
    assert forall|future: Seq<u64>| #[trigger]
        bit_plan(n, first_word, first_consumed, drawn.push(fresh) + future, Seq::empty())
            == bit_plan(
            (n - (served + 8)) as nat,
            fresh,
            8,
            future,
            controls + block_controls(fresh, 0),
        ) by {
        let longer = seq![fresh] + future;
        assert(drawn.push(fresh) + future == drawn + longer);
        assert(bit_plan(n, first_word, first_consumed, drawn + longer, Seq::empty()) == bit_plan(
            (n - served) as nat,
            word,
            consumed,
            longer,
            controls,
        ));
        assert(longer[0] == fresh);
        assert(longer.skip(1) == future);
    }
}

/// A single entry served from the word in the reservoir.
pub proof fn lemma_plan_serves_single(
    n: nat,
    first_word: u64,
    first_consumed: u32,
    drawn: Seq<u64>,
    served: nat,
    word: u64,
    consumed: u32,
    controls: Seq<bool>,
)
    requires
        plan_goes_on(n, first_word, first_consumed, drawn, served, word, consumed, controls),
        served < n,
        n - served < 8,
        consumed < 64,
    ensures
        plan_goes_on(
            n,
            first_word,
            first_consumed,
            drawn,
            served + 1,
            word,
            (consumed + 1) as u32,
            controls.push(single_control(word, consumed)),
        ),
{
    assert forall|future: Seq<u64>| #[trigger]
        bit_plan(n, first_word, first_consumed, drawn + future, Seq::empty()) == bit_plan(
            (n - (served + 1)) as nat,
            word,
            (consumed + 1) as u32,
            future,
            controls.push(single_control(word, consumed)),
        ) by {
        assert(bit_plan(n, first_word, first_consumed, drawn + future, Seq::empty()) == bit_plan(
            (n - served) as nat,
            word,
            consumed,
            future,
            controls,
        ));
    }
}

/// A single entry served from a word that is drawn for it.
pub proof fn lemma_plan_draws_single(
    n: nat,
    first_word: u64,
    first_consumed: u32,
    drawn: Seq<u64>,
    served: nat,
    word: u64,
    consumed: u32,
    controls: Seq<bool>,
    fresh: u64,
)
    requires
        plan_goes_on(n, first_word, first_consumed, drawn, served, word, consumed, controls),
        served < n,
        n - served < 8,
        consumed >= 64,
    ensures
        plan_goes_on(
            n,
            first_word,
            first_consumed,
            drawn.push(fresh),
            served + 1,
            fresh,
            1,
            controls.push(single_control(fresh, 0)),
        ),
{
    assert forall|future: Seq<u64>| #[trigger]
        bit_plan(n, first_word, first_consumed, drawn.push(fresh) + future, Seq::empty())
            == bit_plan(
            (n - (served + 1)) as nat,
            fresh,
            1,
            future,
            controls.push(single_control(fresh, 0)),
        ) by {
        let longer = seq![fresh] + future;
        assert(drawn.push(fresh) + future == drawn + longer);
        assert(bit_plan(n, first_word, first_consumed, drawn + longer, Seq::empty()) == bit_plan(
            (n - served) as nat,
            word,
            consumed,
            longer,
            controls,
        ));
        assert(longer[0] == fresh);
        assert(longer.skip(1) == future);
    }
}

/// Once every entry is served the plan is what was served, with no word
/// left over.
pub proof fn lemma_plan_ends(
    n: nat,
    first_word: u64,
    first_consumed: u32,
    drawn: Seq<u64>,
    word: u64,
    consumed: u32,
    controls: Seq<bool>,
)
    requires
        plan_goes_on(n, first_word, first_consumed, drawn, n, word, consumed, controls),
    ensures
        bit_plan(n, first_word, first_consumed, drawn, Seq::empty()) == (
            controls,
            word,
            consumed,
            Seq::<u64>::empty(),
        ),
{
    let none = Seq::<u64>::empty();
    assert(drawn + none == drawn);
    assert(bit_plan(n, first_word, first_consumed, drawn + none, Seq::empty()) == bit_plan(
        (n - n) as nat,
        word,
        consumed,
        none,
        controls,
    ));
}

/// Every entry of `source` can be flipped by `rule`.
pub open spec fn all_accepted<T, F: Flip<T>>(source: Seq<T>, rule: F) -> bool {
    forall|i: int| 0 <= i < source.len() ==> rule.accepts(#[trigger] source[i])
}

impl Flipper<SignBitFlip> {
    /// Sign flipping on IEEE 754 bit patterns, driven by `rng`.
    pub fn sign(rng: StdRng) -> (f: Self)
        ensures
            f.rng == rng,
            f.flip == SignBitFlip,
    {
        Flipper { rng, flip: SignBitFlip }
    }
}

impl<F> Flipper<F> {
    /// Flipping by the rule `flip`, driven by `rng`.
    pub fn with_strategy(rng: StdRng, flip: F) -> (f: Self)
        ensures
            f.rng == rng,
            f.flip == flip,
    {
        Flipper { rng, flip }
    }

    /// Starts a stream over `sample`, driven by a copy of this generator.
    pub fn re<T: Copy>(&self, sample: &Sample<T>) -> (it: FlipperIter<T, F>) where
        F: Flip<T> + Copy,

        requires
            all_accepted(sample@, self.flip),
        ensures
            it.source() == sample@,
            it.rule() == self.flip,
    {
        FlipperIter::new(sample.as_slice(), self.rng.clone(), self.flip)
    }
}

impl<T, F: Flip<T>> Flippable<T, F> {
    #[verifier::type_invariant]
    spec fn wf(&self) -> bool {
        all_accepted(self.data@, self.flip)
    }
}

impl<T: Copy, F: Flip<T>> FlipperIter<T, F> {
    /// The observations being resampled.
    pub closed spec fn source(&self) -> Seq<T> {
        self.input.data@
    }

    /// The flipping rule in use.
    pub closed spec fn rule(&self) -> F {
        self.input.flip
    }

    /// The word that the bit reservoir holds.
    pub closed spec fn reservoir_word(&self) -> u64 {
        self.bit_reservoir
    }

    /// How many bits of the reservoir word are spent.
    pub closed spec fn reservoir_spent(&self) -> u32 {
        self.bits_consumed
    }

    /// A stream over a copy of `data`, driven by `rng`, whose reservoir
    /// starts out spent.
    pub fn new(data: &[T], rng: StdRng, flip: F) -> (it: Self)
        requires
            all_accepted(data@, flip),
        ensures
            it.source() == data@,
            it.rule() == flip,
            it.reservoir_spent() == 64,
    {
        let input = Flippable { data: copy_of(data), flip };
        FlipperIter { input, rng, bit_reservoir: 0, bits_consumed: 64 }
    }

    /// Draws one resample. The stream never ends. Entries are taken eight at
    /// a time while eight or more remain, each block reading eight successive
    /// reservoir bits, and one by one after that; the reservoir is refilled
    /// whenever it cannot serve the next read. The resample is the source
    /// flipped under the controls of the plan that the reservoir follows for
    /// the words drawn, and the reservoir is left as that plan leaves it.
    /// Whatever is drawn, the entry at each place is the source entry,
    /// flipped or not.
    pub fn next(&mut self) -> (out: Option<Sample<T>>)
        ensures
            final(self).source() == old(self).source(),
            final(self).rule() == old(self).rule(),
            out is Some,
            flips_of(out->0@, old(self).source(), old(self).rule()),
            exists|words: Seq<u64>|
                follows_plan(
                    #[trigger] bit_plan(
                        old(self).source().len(),
                        old(self).reservoir_word(),
                        old(self).reservoir_spent(),
                        words,
                        Seq::empty(),
                    ),
                    out->0@,
                    old(self).source(),
                    old(self).rule(),
                    final(self).reservoir_word(),
                    final(self).reservoir_spent(),
                ),
    {
        proof {
            use_type_invariant(&self.input);
        }
        let n: usize = self.input.data.len();
        let mut buffer: Vec<T> = Vec::with_capacity(n);
        let mut reservoir: u64 = self.bit_reservoir;
        let mut consumed: u32 = self.bits_consumed;
        let ghost first_word = reservoir;
        let ghost first_consumed = consumed;
        let ghost mut controls: Seq<bool> = Seq::empty();
        let ghost mut drawn: Seq<u64> = Seq::empty();
        proof {
            lemma_plan_starts(n as nat, first_word, first_consumed);
        }
        let mut i: usize = 0;
        while n - i >= 8
            invariant
                n == self.input.data@.len(),
                self.input.data@ == old(self).input.data@,
                self.input.flip == old(self).input.flip,
                all_accepted(self.input.data@, self.input.flip),
                i <= n,
                controls.len() == i,
                buffer@ == flipped_by(self.input.data@.take(i as int), self.input.flip, controls),
                plan_goes_on(
                    n as nat,
                    first_word,
                    first_consumed,
                    drawn,
                    i as nat,
                    reservoir,
                    consumed,
                    controls,
                ),
            decreases n - i,
        {
            let ghost block_start = controls;
            let ghost held_word = reservoir;
            let ghost held_consumed = consumed;
            let refill: bool = consumed > 56;
            if refill {
                reservoir = random_word(&mut self.rng);
                consumed = 0;
            }
            let ghost read_from = consumed;
            let bits: u64 = reservoir >> consumed;
            consumed += 8;
            let mut k: u32 = 0;
            while k < 8
                invariant
                    n == self.input.data@.len(),
                    self.input.data@ == old(self).input.data@,
                    self.input.flip == old(self).input.flip,
                    all_accepted(self.input.data@, self.input.flip),
                    k <= 8,
                    i + 8 <= n,
                    bits == reservoir >> read_from,
                    controls.len() == i + k,
                    controls == block_start + block_controls(reservoir, read_from).take(k as int),
                    buffer@ == flipped_by(
                        self.input.data@.take(i + k),
                        self.input.flip,
                        controls,
                    ),
                decreases 8 - k,
            {
                let control: bool = (bits & (1u64 << k)) != 0;
                let value: T = self.input.data[i + k as usize];
                let flipped: T = self.input.flip.flip(value, control);
                buffer.push(flipped);
                proof {
                    assert(control == block_controls(reservoir, read_from)[k as int]);
                    assert(block_controls(reservoir, read_from).take(k as int).push(control)
                        == block_controls(reservoir, read_from).take(k + 1));
                    controls = controls.push(control);
                    assert(controls == block_start + block_controls(reservoir, read_from).take(
                        k + 1,
                    ));
                    assert(buffer@ == flipped_by(
                        self.input.data@.take(i + k + 1),
                        self.input.flip,
                        controls,
                    ));
                }
                k += 1;
            }
            proof {
                assert(block_controls(reservoir, read_from).take(8) == block_controls(
                    reservoir,
                    read_from,
                ));
                if refill {
                    lemma_plan_draws_block(
                        n as nat,
                        first_word,
                        first_consumed,
                        drawn,
                        i as nat,
                        held_word,
                        held_consumed,
                        block_start,
                        reservoir,
                    );
                    drawn = drawn.push(reservoir);
                } else {
                    lemma_plan_serves_block(
                        n as nat,
                        first_word,
                        first_consumed,
                        drawn,
                        i as nat,
                        held_word,
                        held_consumed,
                        block_start,
                    );
                }
            }
            i += 8;
        }
        while i < n
            invariant
                n == self.input.data@.len(),
                self.input.data@ == old(self).input.data@,
                self.input.flip == old(self).input.flip,
                all_accepted(self.input.data@, self.input.flip),
                i <= n,
                n - i < 8,
                controls.len() == i,
                buffer@ == flipped_by(self.input.data@.take(i as int), self.input.flip, controls),
                plan_goes_on(
                    n as nat,
                    first_word,
                    first_consumed,
                    drawn,
                    i as nat,
                    reservoir,
                    consumed,
                    controls,
                ),
            decreases n - i,
        {
            if consumed >= 64 {
                let fresh: u64 = random_word(&mut self.rng);
                proof {
                    lemma_plan_draws_single(
                        n as nat,
                        first_word,
                        first_consumed,
                        drawn,
                        i as nat,
                        reservoir,
                        consumed,
                        controls,
                        fresh,
                    );
                    drawn = drawn.push(fresh);
                }
                reservoir = fresh;
                consumed = 0;
            } else {
                proof {
                    lemma_plan_serves_single(
                        n as nat,
                        first_word,
                        first_consumed,
                        drawn,
                        i as nat,
                        reservoir,
                        consumed,
                        controls,
                    );
                }
            }
            let control: bool = ((reservoir >> consumed) & 1) != 0;
            consumed += 1;
            let value: T = self.input.data[i];
            let flipped: T = self.input.flip.flip(value, control);
            buffer.push(flipped);
            proof {
                controls = controls.push(control);
                assert(buffer@ == flipped_by(
                    self.input.data@.take(i + 1),
                    self.input.flip,
                    controls,
                ));
            }
            i += 1;
        }
        proof {
            assert(self.input.data@.take(n as int) == self.input.data@);
            lemma_flipped_by_is_flips_of(self.input.data@, self.input.flip, controls);
            lemma_plan_ends(
                n as nat,
                first_word,
                first_consumed,
                drawn,
                reservoir,
                consumed,
                controls,
            );
        }
        self.bit_reservoir = reservoir;
        self.bits_consumed = consumed;
        let out = Sample::new(buffer);
        assert(follows_plan(
            bit_plan(
                old(self).source().len(),
                old(self).reservoir_word(),
                old(self).reservoir_spent(),
                drawn,
                Seq::empty(),
            ),
            out@,
            old(self).source(),
            old(self).rule(),
            self.reservoir_word(),
            self.reservoir_spent(),
        ));
        Some(out)
    }
}

/// A sign flip changes nothing but the sign bit: the magnitude bits of a
/// 64-bit pattern are the same before and after, control set or not.
pub proof fn lemma_sign_flip_keeps_magnitude_64(value: u64, control: bool)
    ensures
        SignBitFlip.flipped(value, control) & !SIGN_BIT_64 == value & !SIGN_BIT_64,
        SignBitFlip.flipped(value, control) == value || SignBitFlip.flipped(value, control)
            == value ^ SIGN_BIT_64,
{
    assert((value ^ 0x8000_0000_0000_0000u64) & !0x8000_0000_0000_0000u64 == value
        & !0x8000_0000_0000_0000u64) by (bit_vector);
}

/// A sign flip changes nothing but the sign bit: the magnitude bits of a
/// 32-bit pattern are the same before and after, control set or not.
pub proof fn lemma_sign_flip_keeps_magnitude_32(value: u32, control: bool)
    ensures
        SignBitFlip.flipped(value, control) & !SIGN_BIT_32 == value & !SIGN_BIT_32,
        SignBitFlip.flipped(value, control) == value || SignBitFlip.flipped(value, control)
            == value ^ SIGN_BIT_32,
{
    assert((value ^ 0x8000_0000u32) & !0x8000_0000u32 == value & !0x8000_0000u32)
        by (bit_vector);
}

/// Every sign-flipped resample of 64-bit patterns agrees with its source in
/// all bits but the sign bit, place by place.
pub proof fn lemma_sign_resample_keeps_magnitudes(out: Seq<u64>, source: Seq<u64>)
    requires
        flips_of(out, source, SignBitFlip),
    ensures
        out.len() == source.len(),
        forall|i: int|
            0 <= i < out.len() ==> #[trigger] out[i] & !SIGN_BIT_64 == source[i] & !SIGN_BIT_64,
{
    assert forall|i: int| 0 <= i < out.len() implies #[trigger] out[i] & !SIGN_BIT_64 == source[i]
        & !SIGN_BIT_64 by {
        lemma_sign_flip_keeps_magnitude_64(source[i], true);
        lemma_sign_flip_keeps_magnitude_64(source[i], false);
    }
}

impl<T: Copy, F: Flip<T>> SamplingIterator for FlipperIter<T, F> {
    type Item = Sample<T>;

    /// What a pull may give is the same however many pulls ahead it is.
    open spec fn may_yield_at(&self, ahead: nat, item: Sample<T>) -> bool {
        flips_of(item@, self.source(), self.rule())
    }

    open spec fn pending(&self) -> Option<nat> {
        None
    }

    fn next(&mut self) -> (out: Option<Sample<T>>) {
        FlipperIter::next(self)
    }
}

impl<T: Copy, F: Flip<T> + Copy> Re<Sample<T>> for Flipper<F> {
    type Item = Sample<T>;

    type Iter = FlipperIter<T, F>;

    open spec fn accepts(&self, t: &Sample<T>) -> bool {
        all_accepted(t@, self.flip)
    }

    /// What the scheme may produce is the same at every place.
    open spec fn resamples_at(&self, t: &Sample<T>, place: nat, item: Sample<T>) -> bool {
        flips_of(item@, t@, self.flip)
    }

    open spec fn count(&self, t: &Sample<T>) -> Option<nat> {
        None
    }

    fn re(&self, t: &Sample<T>) -> (it: FlipperIter<T, F>) {
        Flipper::re(self, t)
    }
}

} // verus!
