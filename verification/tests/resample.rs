use rand::rngs::StdRng;
use rand::{Rng, RngCore, SeedableRng};
use zima::resample::flipper::plan_bits;
use zima::{
    fixed_size_policy, flip_with, resample_at, shuffle_with, sqrt_policy, subsample_with, Bootstrap, Flip, Flipper, Jackknife, MultiplyFlip, Re,
    ReStrategy, Sample, SamplingIterator, SamplingMode, Shuffle, SignBitFlip, Subsample,
};

fn seeded(seed: u64) -> StdRng {
    StdRng::seed_from_u64(seed)
}

fn counting(n: usize) -> Sample<u64> {
    Sample::new((0..n as u64).map(|x| x * 10 + 3).collect())
}

fn bits_of(values: &[f64]) -> Sample<u64> {
    Sample::new(values.iter().map(|x| x.to_bits()).collect())
}

#[test]
fn bootstrap_resamples_have_the_length_of_the_source() {
    for n in [0usize, 1, 2, 5, 17, 64] {
        let source = counting(n);
        let mut stream = Bootstrap::new(seeded(1)).re(&source);
        for _ in 0..4 {
            let resample = stream.next().expect("the stream never ends");
            assert_eq!(resample.len(), n);
        }
    }
}

#[test]
fn shuffle_resamples_have_the_length_of_the_source() {
    for n in [0usize, 1, 2, 5, 17, 64] {
        let source = counting(n);
        let mut stream = Shuffle::new(seeded(2)).re(&source);
        for _ in 0..4 {
            let resample = stream.next().expect("the stream never ends");
            assert_eq!(resample.len(), n);
        }
    }
}

#[test]
fn flipper_resamples_have_the_length_of_the_source() {
    for n in [0usize, 1, 7, 8, 9, 17, 64, 65] {
        let source = counting(n);
        let mut stream = Flipper::sign(seeded(3)).re(&source);
        for _ in 0..4 {
            let resample = stream.next().expect("the stream never ends");
            assert_eq!(resample.len(), n);
        }
    }
}

#[test]
fn jackknife_yields_n_resamples_of_length_n_minus_one_then_ends() {
    for n in [0usize, 1, 2, 5, 17] {
        let source = counting(n);
        let mut stream = Jackknife::new().re(&source);
        assert_eq!(stream.remaining(), n);
        for i in 0..n {
            let resample = stream.next().expect("one resample for each observation");
            assert_eq!(resample.len(), n - 1);
            let mut expected = source.data.clone();
            expected.remove(i);
            assert_eq!(resample.data, expected);
        }
        assert!(stream.next().is_none());
        assert!(stream.next().is_none());
        assert_eq!(stream.remaining(), 0);
    }
}

#[test]
fn jackknife_of_three_values_omits_each_in_order() {
    let source = Sample::new(vec![7u64, 8, 9]);
    let mut stream = Jackknife::new().re(&source);
    assert_eq!(stream.next().unwrap().data, vec![8, 9]);
    assert_eq!(stream.next().unwrap().data, vec![7, 9]);
    assert_eq!(stream.next().unwrap().data, vec![7, 8]);
    assert!(stream.next().is_none());
}

#[test]
fn shuffle_output_is_a_permutation_of_the_input() {
    let source = Sample::new(vec![5u64, 1, 4, 1, 5, 9, 2, 6, 5, 3, 5]);
    let mut sorted_source = source.data.clone();
    sorted_source.sort();
    let mut stream = Shuffle::new(seeded(11)).re(&source);
    for _ in 0..50 {
        let mut resample = stream.next().unwrap().data;
        resample.sort();
        assert_eq!(resample, sorted_source);
    }
}

#[test]
fn shuffle_moves_entries() {
    let source = counting(100);
    let mut stream = Shuffle::new(seeded(12)).re(&source);
    let resample = stream.next().unwrap();
    assert_ne!(resample.data, source.data);
}

#[test]
fn bootstrap_values_come_from_the_input() {
    let source = Sample::new(vec![2u64, 3, 5, 7, 11, 13]);
    let mut stream = Bootstrap::new(seeded(21)).re(&source);
    let mut seen_difference = false;
    for _ in 0..50 {
        let resample = stream.next().unwrap();
        for value in &resample.data {
            assert!(source.data.contains(value));
        }
        if resample.data != source.data {
            seen_difference = true;
        }
    }
    assert!(seen_difference);
}

#[test]
fn sign_flip_changes_the_sign_bit_only() {
    let values = [1.0f64, 2.5, 1e-300, 1e300, 0.1, 3.0, 7.0, 11.0, 0.5, 42.0];
    let source = bits_of(&values);
    let mut stream = Flipper::sign(seeded(31)).re(&source);
    let mut flipped_some = false;
    let mut kept_some = false;
    for _ in 0..20 {
        let resample = stream.next().unwrap();
        for (out, input) in resample.data.iter().zip(source.data.iter()) {
            let difference = out ^ input;
            assert!(difference == 0 || difference == 0x8000_0000_0000_0000);
            assert_eq!(f64::from_bits(*out).abs(), f64::from_bits(*input));
            if difference == 0 {
                kept_some = true;
            } else {
                flipped_some = true;
            }
        }
    }
    assert!(flipped_some && kept_some);
}

#[test]
fn sign_bit_flip_is_exact_on_special_values() {
    let flip = SignBitFlip;
    assert_eq!(flip.flip(1.0f64.to_bits(), true), (-1.0f64).to_bits());
    assert_eq!(flip.flip(1.0f64.to_bits(), false), 1.0f64.to_bits());
    assert_eq!(flip.flip(0.0f64.to_bits(), true), (-0.0f64).to_bits());
    assert_eq!(flip.flip((-0.0f64).to_bits(), true), 0.0f64.to_bits());
    let payload: u64 = 0x7ff8_0000_0000_1234;
    assert_eq!(flip.flip(payload, true), 0xfff8_0000_0000_1234);
    assert_eq!(flip.flip(1.5f32.to_bits(), true), (-1.5f32).to_bits());
    assert_eq!(flip.flip(1.5f32.to_bits(), false), 1.5f32.to_bits());
    assert_eq!(flip.flip(f32::INFINITY.to_bits(), true), f32::NEG_INFINITY.to_bits());
}

#[test]
fn multiply_flip_negates() {
    let flip = MultiplyFlip;
    assert_eq!(flip.flip(5i64, true), -5);
    assert_eq!(flip.flip(5i64, false), 5);
    assert_eq!(flip.flip(-3i32, true), 3);
    let source = Sample::new(vec![1i64, -2, 3, -4, 5, 6, 7, 8, 9]);
    let mut stream = Flipper::with_strategy(seeded(32), MultiplyFlip).re(&source);
    let resample = stream.next().unwrap();
    for (out, input) in resample.data.iter().zip(source.data.iter()) {
        assert_eq!(out.abs(), input.abs());
    }
}

#[test]
fn equal_seeds_give_equal_resamples() {
    let source = counting(37);
    let mut a = Bootstrap::new(seeded(5)).re(&source);
    let mut b = Bootstrap::new(seeded(5)).re(&source);
    let mut c = Shuffle::new(seeded(5)).re(&source);
    let mut d = Shuffle::new(seeded(5)).re(&source);
    let mut e = Flipper::sign(seeded(5)).re(&source);
    let mut f = Flipper::sign(seeded(5)).re(&source);
    let mut g = Subsample::new(seeded(5)).re(&source);
    let mut h = Subsample::new(seeded(5)).re(&source);
    for _ in 0..10 {
        assert_eq!(a.next().unwrap().data, b.next().unwrap().data);
        assert_eq!(c.next().unwrap().data, d.next().unwrap().data);
        assert_eq!(e.next().unwrap().data, f.next().unwrap().data);
        assert_eq!(g.next().unwrap().data, h.next().unwrap().data);
    }
}

#[test]
fn restarting_a_scheme_repeats_its_stream() {
    let source = counting(20);
    let scheme = Bootstrap::new(seeded(6));
    let first = scheme.re(&source).next().unwrap();
    let second = scheme.re(&source).next().unwrap();
    assert_eq!(first.data, second.data);
}

#[test]
fn empty_input_yields_an_empty_resample() {
    let source: Sample<u64> = Sample::new(Vec::new());
    assert!(Bootstrap::new(seeded(7)).re(&source).next().unwrap().is_empty());
    assert!(Shuffle::new(seeded(7)).re(&source).next().unwrap().is_empty());
    assert!(Flipper::sign(seeded(7)).re(&source).next().unwrap().is_empty());
    assert!(Subsample::new(seeded(7)).re(&source).next().unwrap().is_empty());
    assert!(Jackknife::new().re(&source).next().is_none());
}

#[test]
fn sqrt_policy_is_the_integer_square_root() {
    assert_eq!(sqrt_policy(0), 0);
    assert_eq!(sqrt_policy(1), 1);
    assert_eq!(sqrt_policy(2), 1);
    assert_eq!(sqrt_policy(3), 1);
    assert_eq!(sqrt_policy(4), 2);
    assert_eq!(sqrt_policy(15), 3);
    assert_eq!(sqrt_policy(16), 4);
    assert_eq!(sqrt_policy(17), 4);
    assert_eq!(sqrt_policy(99), 9);
    assert_eq!(sqrt_policy(100), 10);
    assert_eq!(sqrt_policy(1_000_000), 1000);
    assert_eq!(sqrt_policy(u32::MAX as usize), 65535);
    assert_eq!(sqrt_policy(18_446_744_073_709_551_615), 4_294_967_295);
}

#[test]
fn fixed_size_policy_ignores_the_source() {
    let policy = fixed_size_policy(7);
    assert_eq!(policy(0), 7);
    assert_eq!(policy(1000), 7);
}

#[test]
fn subsample_draws_the_square_root_without_repeats() {
    let source = counting(100);
    let mut stream = Subsample::new(seeded(41)).re(&source);
    for _ in 0..20 {
        let resample = stream.next().unwrap();
        assert_eq!(resample.len(), 10);
        let mut seen = resample.data.clone();
        seen.sort();
        seen.dedup();
        assert_eq!(seen.len(), 10);
        for value in &resample.data {
            assert!(source.data.contains(value));
        }
    }
}

#[test]
fn subsample_of_a_large_share_has_no_repeats() {
    let source = counting(100);
    let scheme = Subsample::with_policy(seeded(42), fixed_size_policy(50));
    let mut stream = scheme.re(&source);
    let mut changed = false;
    for _ in 0..20 {
        let resample = stream.next().unwrap();
        assert_eq!(resample.len(), 50);
        let mut seen = resample.data.clone();
        seen.sort();
        seen.dedup();
        assert_eq!(seen.len(), 50);
        for value in &resample.data {
            assert!(source.data.contains(value));
        }
        if resample.data[..] != source.data[50..] {
            changed = true;
        }
    }
    assert!(changed);
}

#[test]
fn subsample_size_is_cut_to_the_source() {
    let source = counting(12);
    let scheme = Subsample::with_policy(seeded(43), fixed_size_policy(1000));
    let mut resample = scheme.re(&source).next().unwrap().data;
    assert_eq!(resample.len(), 12);
    resample.sort();
    assert_eq!(resample, source.data);
}

#[test]
fn subsample_of_size_zero_is_empty() {
    let source = counting(12);
    let scheme = Subsample::with_policy(seeded(44), fixed_size_policy(0));
    assert!(scheme.re(&source).next().unwrap().is_empty());
}

#[test]
fn subsample_with_replacement_draws_from_the_input() {
    let source = counting(9);
    let scheme = Subsample::with_policy(seeded(45), fixed_size_policy(9))
        .with_mode(SamplingMode::WithReplacement);
    let mut stream = scheme.re(&source);
    let mut repeated = false;
    for _ in 0..20 {
        let resample = stream.next().unwrap();
        assert_eq!(resample.len(), 9);
        for value in &resample.data {
            assert!(source.data.contains(value));
        }
        let mut seen = resample.data.clone();
        seen.sort();
        seen.dedup();
        if seen.len() < 9 {
            repeated = true;
        }
    }
    assert!(repeated);
}

#[test]
fn bootstrap_strategy_fills_a_buffer() {
    let data: Vec<u64> = vec![2, 3, 5, 7];
    let mut buffer: Vec<u64> = vec![0, 0, 0, 0, 99];
    let mut scheme = Bootstrap::new(seeded(51));
    scheme.mutate(&data, &mut buffer);
    assert_eq!(buffer.len(), 5);
    assert_eq!(buffer[4], 99);
    for value in &buffer[..4] {
        assert!(data.contains(value));
    }
}

#[test]
fn sample_collects_at_most_the_number_asked_for() {
    let source = counting(5);
    let three = Jackknife::new().re(&source).sample(3);
    assert_eq!(three.len(), 3);
    assert_eq!(three.data[0].data, source.data[1..].to_vec());
    let all = Jackknife::new().re(&source).sample(10);
    assert_eq!(all.len(), 5);
    let many = Bootstrap::new(seeded(52)).re(&source).sample(8);
    assert_eq!(many.len(), 8);
}

#[test]
fn schemes_work_through_the_common_interface() {
    fn first_length<R: Re<Sample<u64>, Item = Sample<u64>>>(scheme: &R, source: &Sample<u64>) -> usize {
        let mut stream = scheme.re(source);
        SamplingIterator::next(&mut stream).map(|s| s.len()).unwrap_or(0)
    }
    let source = counting(16);
    assert_eq!(first_length(&Bootstrap::new(seeded(61)), &source), 16);
    assert_eq!(first_length(&Shuffle::new(seeded(61)), &source), 16);
    assert_eq!(first_length(&Jackknife::new(), &source), 15);
    assert_eq!(first_length(&Flipper::sign(seeded(61)), &source), 16);
    assert_eq!(first_length(&Subsample::new(seeded(61)), &source), 4);
}

#[test]
fn resample_at_given_places() {
    assert_eq!(resample_at(&[10u64, 20, 30], &[2, 0, 2, 1]), vec![30, 10, 30, 20]);
    assert_eq!(resample_at(&[10u64, 20, 30], &[]), Vec::<u64>::new());
}

#[test]
fn shuffle_with_given_draws() {
    assert_eq!(shuffle_with(&[1u64, 2, 3, 4], &[0, 1, 1]), vec![4, 3, 2, 1]);
    assert_eq!(shuffle_with(&[1u64, 2, 3, 4], &[3, 2, 1]), vec![1, 2, 3, 4]);
    assert_eq!(shuffle_with(&[1u64, 2, 3, 4], &[0, 0, 0]), vec![2, 3, 4, 1]);
    assert_eq!(shuffle_with(&[7u64], &[]), vec![7]);
    assert_eq!(shuffle_with(&[] as &[u64], &[]), Vec::<u64>::new());
}

#[test]
fn subsample_with_given_draws() {
    let twelve: Vec<u64> = (0..12).collect();
    let by_reservoir = subsample_with(
        &twelve,
        2,
        SamplingMode::WithoutReplacement,
        &[0, 3, 1, 5, 6, 7, 8, 9, 0, 11],
    );
    assert_eq!(by_reservoir, vec![10, 4]);
    let untouched = subsample_with(
        &twelve,
        2,
        SamplingMode::WithoutReplacement,
        &[2, 3, 4, 5, 6, 7, 8, 9, 10, 11],
    );
    assert_eq!(untouched, vec![0, 1]);
    let by_walk = subsample_with(&[1u64, 2, 3, 4], 2, SamplingMode::WithoutReplacement, &[1, 0]);
    assert_eq!(by_walk, vec![1, 2]);
    let whole = subsample_with(&[1u64, 2, 3], 9, SamplingMode::WithoutReplacement, &[0, 0, 0]);
    assert_eq!(whole, vec![2, 3, 1]);
    let repeated = subsample_with(&[5u64, 6, 7, 8], 3, SamplingMode::WithReplacement, &[3, 3, 0]);
    assert_eq!(repeated, vec![8, 8, 5]);
    let nothing = subsample_with(&[5u64, 6, 7, 8], 0, SamplingMode::WithReplacement, &[]);
    assert!(nothing.is_empty());
}

#[test]
fn flip_with_given_controls() {
    let data = [1.5f64.to_bits(), 2.5f64.to_bits(), (-3.0f64).to_bits()];
    let out = flip_with(&data, &SignBitFlip, &[true, false, true]);
    let values: Vec<f64> = out.iter().map(|b| f64::from_bits(*b)).collect();
    assert_eq!(values, vec![-1.5, 2.5, 3.0]);
    let negated = flip_with(&[4i64, -5, 6], &MultiplyFlip, &[false, true, true]);
    assert_eq!(negated, vec![4, 5, -6]);
}

#[test]
fn reservoir_serves_single_bits_in_order() {
    let (controls, word, spent, used) = plan_bits(3, 0, 64, &[0b101]);
    assert_eq!(controls, vec![true, false, true]);
    assert_eq!((word, spent, used), (0b101, 3, 1));
    let (more, word, spent, used) = plan_bits(2, 0b101, 3, &[]);
    assert_eq!(more, vec![false, false]);
    assert_eq!((word, spent, used), (0b101, 5, 0));
    let (last, _, spent, used) = plan_bits(2, 1 << 63, 63, &[1]);
    assert_eq!(last, vec![true, true]);
    assert_eq!((spent, used), (1, 1));
}

#[test]
fn reservoir_serves_blocks_of_eight() {
    let (controls, word, spent, used) = plan_bits(9, 0, 64, &[0b1_0000_1111]);
    assert_eq!(
        controls,
        vec![true, true, true, true, false, false, false, false, true]
    );
    assert_eq!((word, spent, used), (0b1_0000_1111, 9, 1));
    let (early, word, spent, used) = plan_bits(8, u64::MAX, 57, &[0]);
    assert_eq!(early, vec![false; 8]);
    assert_eq!((word, spent, used), (0, 8, 1));
    let (kept, _, spent, used) = plan_bits(8, u64::MAX, 56, &[0]);
    assert_eq!(kept, vec![true; 8]);
    assert_eq!((spent, used), (64, 0));
}

#[test]
fn reservoir_stops_where_the_words_run_out() {
    let (controls, word, spent, used) = plan_bits(3, 7, 64, &[]);
    assert!(controls.is_empty());
    assert_eq!((word, spent, used), (7, 64, 0));
    let (partial, _, spent, used) = plan_bits(70, 0, 64, &[u64::MAX]);
    assert_eq!(partial.len(), 64);
    assert_eq!((spent, used), (64, 1));
}

#[test]
fn flipper_follows_the_plan_of_its_generator() {
    for n in [1usize, 7, 8, 9, 37, 64, 65, 130] {
        let source = counting(n);
        let mut stream = Flipper::sign(seeded(77)).re(&source);
        let mut generator = seeded(77);
        let words: Vec<u64> = (0..40).map(|_| generator.next_u64()).collect();
        let mut at = 0usize;
        let mut word = 0u64;
        let mut spent = 64u32;
        for _ in 0..5 {
            let (controls, next_word, next_spent, used) = plan_bits(n, word, spent, &words[at..]);
            assert_eq!(controls.len(), n);
            let expected = flip_with(&source.data, &SignBitFlip, &controls);
            assert_eq!(stream.next().unwrap().data, expected);
            at += used;
            word = next_word;
            spent = next_spent;
        }
    }
}

#[test]
fn bootstrap_follows_the_draws_of_its_generator() {
    let source = counting(23);
    let mut stream = Bootstrap::new(seeded(88)).re(&source);
    let mut generator = seeded(88);
    for _ in 0..4 {
        let places: Vec<usize> = (0..23).map(|_| generator.gen_range(0..23)).collect();
        assert_eq!(stream.next().unwrap().data, resample_at(&source.data, &places));
    }
}

#[test]
fn shuffle_follows_the_draws_of_its_generator() {
    let source = counting(23);
    let mut stream = Shuffle::new(seeded(89)).re(&source);
    let mut generator = seeded(89);
    for _ in 0..4 {
        let draws: Vec<usize> = (1..23).rev().map(|i| generator.gen_range(0..=i)).collect();
        assert_eq!(stream.next().unwrap().data, shuffle_with(&source.data, &draws));
    }
}

#[test]
fn subsample_follows_the_draws_of_its_generator() {
    let source = counting(100);
    let mut by_reservoir = Subsample::new(seeded(90)).re(&source);
    let mut generator = seeded(90);
    for _ in 0..3 {
        let draws: Vec<usize> = (10..100).map(|i| generator.gen_range(0..=i)).collect();
        let expected = subsample_with(&source.data, 10, SamplingMode::WithoutReplacement, &draws);
        assert_eq!(by_reservoir.next().unwrap().data, expected);
    }
    let mut by_walk = Subsample::with_policy(seeded(91), fixed_size_policy(40)).re(&source);
    let mut generator = seeded(91);
    for _ in 0..3 {
        let draws: Vec<usize> = (60..100).rev().map(|i| generator.gen_range(0..=i)).collect();
        let expected = subsample_with(&source.data, 40, SamplingMode::WithoutReplacement, &draws);
        assert_eq!(by_walk.next().unwrap().data, expected);
    }
    let mut repeating = Subsample::with_policy(seeded(92), fixed_size_policy(15))
        .with_mode(SamplingMode::WithReplacement)
        .re(&source);
    let mut generator = seeded(92);
    for _ in 0..3 {
        let draws: Vec<usize> = (0..15).map(|_| generator.gen_range(0..100)).collect();
        let expected = subsample_with(&source.data, 15, SamplingMode::WithReplacement, &draws);
        assert_eq!(repeating.next().unwrap().data, expected);
    }
}

#[test]
fn sample_keeps_the_order_of_the_stream() {
    let source = counting(6);
    let all = Jackknife::new().re(&source).sample(6);
    let expected = Jackknife::new().leave_one_out(&source);
    assert_eq!(all.len(), 6);
    for (got, wanted) in all.data.iter().zip(expected.iter()) {
        assert_eq!(got.data, wanted.data);
    }
}
