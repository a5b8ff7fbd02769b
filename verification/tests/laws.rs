use bae_gen::{
    BlockGenerator, Error, FreqMod, Generator, Math, MonoWav, Noise, Sample, Sawtooth, Sine,
    Square, Triangle, Wavetable, Zero, MATH_ONE, SAMPLE_ONE,
};

const HALF: i32 = SAMPLE_ONE / 2;

fn hz(v: i32) -> Math {
    Math::from_int(v)
}

fn table() -> Wavetable {
    let n = 1024 * 1024;
    let mut wt = Vec::with_capacity(n);
    for i in 0..n {
        let v = (2.0 * std::f64::consts::PI * (i as f64) / (n as f64)).sin();
        wt.push((v * MATH_ONE as f64).round() as i64);
    }
    Wavetable::from_samples(wt).unwrap()
}

fn run<G: Generator>(g: &mut G, n: usize) -> Vec<Sample> {
    let mut out = Vec::new();
    for _ in 0..n {
        out.push(g.process());
    }
    out
}

fn raw(ys: &[Sample]) -> Vec<i32> {
    ys.iter().map(|y| y.0).collect()
}

#[test]
fn math_from_int_scales_by_one() {
    assert_eq!(Math::from_int(440), Math(440 * MATH_ONE));
    assert_eq!(Math::from_int(0), Math(0));
    assert_eq!(Math::from_int(-3), Math(-3 * MATH_ONE));
    assert_eq!(Math::from_int(i32::MIN), Math(i64::MIN));
}

#[test]
fn frequency_after_new_is_exact() {
    let t = table();
    let sr = hz(48_000);
    for f in [Math(1), hz(1), hz(440), Math(440 * MATH_ONE + 12_345), hz(12_000), hz(23_999)] {
        assert_eq!(Sawtooth::new(f, sr, ()).unwrap().get_frequency(), f);
        assert_eq!(Square::new(f, sr, ()).unwrap().get_frequency(), f);
        assert_eq!(Triangle::new(f, sr, ()).unwrap().get_frequency(), f);
        assert_eq!(Sine::new(f, sr, &t).unwrap().get_frequency(), f);
    }
    let odd = Math(44_100 * MATH_ONE + 1);
    assert_eq!(Sawtooth::new(Math(7), odd, ()).unwrap().get_frequency(), Math(7));
    assert_eq!(Square::new(Math(7), odd, ()).unwrap().get_frequency(), Math(7));
    assert_eq!(Triangle::new(Math(7), odd, ()).unwrap().get_frequency(), Math(7));
    assert_eq!(Sine::new(Math(7), odd, &t).unwrap().get_frequency(), Math(7));
    let top = Math(i64::MAX);
    assert_eq!(Sawtooth::new(top, top, ()).unwrap().get_frequency(), top);
    assert_eq!(Square::new(top, top, ()).unwrap().get_frequency(), top);
    assert_eq!(Triangle::new(Math(i64::MAX / 2), top, ()).unwrap().get_frequency(), Math(i64::MAX / 2));
    assert_eq!(Sine::new(hz(1_000_000), top, &t).unwrap().get_frequency(), hz(1_000_000));
}

#[test]
fn set_frequency_is_read_back_and_keeps_the_phase() {
    let t = table();
    let sr = hz(48_000);

    let mut saw = Sawtooth::new(hz(12_000), sr, ()).unwrap();
    run(&mut saw, 1);
    assert_eq!(saw.set_frequency(hz(6_000)), Ok(()));
    assert_eq!(saw.get_frequency(), hz(6_000));
    assert_eq!(raw(&run(&mut saw, 3)), vec![HALF, HALF + HALF / 2, -SAMPLE_ONE]);

    let mut tri = Triangle::new(hz(6_000), sr, ()).unwrap();
    run(&mut tri, 1);
    assert_eq!(tri.set_frequency(hz(3_000)), Ok(()));
    assert_eq!(tri.get_frequency(), hz(3_000));
    assert_eq!(raw(&run(&mut tri, 3)), vec![HALF, HALF + HALF / 2, SAMPLE_ONE]);

    let mut sq = Square::new(hz(12_000), sr, ()).unwrap();
    run(&mut sq, 2);
    assert_eq!(sq.set_frequency(hz(6_000)), Ok(()));
    assert_eq!(sq.get_frequency(), hz(6_000));
    assert_eq!(
        raw(&run(&mut sq, 7)),
        vec![SAMPLE_ONE, SAMPLE_ONE, -SAMPLE_ONE, -SAMPLE_ONE, -SAMPLE_ONE, -SAMPLE_ONE, SAMPLE_ONE]
    );

    let mut sine = Sine::new(hz(12_000), sr, &t).unwrap();
    run(&mut sine, 1);
    assert_eq!(sine.set_frequency(hz(24_000)), Ok(()));
    assert_eq!(sine.get_frequency(), hz(24_000));
    assert_eq!(raw(&run(&mut sine, 2)), vec![SAMPLE_ONE, -SAMPLE_ONE]);
}

#[test]
fn refused_frequency_leaves_the_generator_as_it_was() {
    let t = table();
    let sr = hz(48_000);

    let mut saw = Sawtooth::new(hz(12_000), sr, ()).unwrap();
    run(&mut saw, 1);
    assert_eq!(saw.set_frequency(hz(0)), Err(Error::InvalidParameter));
    assert_eq!(saw.set_frequency(hz(-440)), Err(Error::InvalidParameter));
    assert_eq!(saw.set_frequency(Math(48_000 * MATH_ONE + 1)), Err(Error::InvalidParameter));
    assert_eq!(saw.get_frequency(), hz(12_000));
    assert_eq!(raw(&run(&mut saw, 2)), vec![HALF, -SAMPLE_ONE]);

    let mut tri = Triangle::new(hz(6_000), sr, ()).unwrap();
    assert_eq!(tri.set_frequency(hz(0)), Err(Error::InvalidParameter));
    assert_eq!(tri.set_frequency(Math(24_000 * MATH_ONE + 1)), Err(Error::InvalidParameter));
    assert_eq!(tri.set_frequency(hz(24_000)), Ok(()));

    let mut sq = Square::new(hz(12_000), sr, ()).unwrap();
    assert_eq!(sq.set_frequency(hz(0)), Err(Error::InvalidParameter));
    assert_eq!(sq.set_frequency(Math(48_000 * MATH_ONE + 1)), Err(Error::InvalidParameter));
    assert_eq!(sq.set_frequency(hz(48_000)), Ok(()));

    let mut sine = Sine::new(hz(12_000), sr, &t).unwrap();
    assert_eq!(sine.set_frequency(hz(0)), Err(Error::InvalidParameter));
    assert_eq!(sine.set_frequency(hz(48_000)), Err(Error::InvalidParameter));
    assert_eq!(sine.get_frequency(), hz(12_000));
}

#[test]
fn new_refuses_invalid_tunings() {
    let t = table();
    assert!(matches!(Sawtooth::new(hz(0), hz(48_000), ()), Err(Error::InvalidParameter)));
    assert!(matches!(Sawtooth::new(hz(-1), hz(48_000), ()), Err(Error::InvalidParameter)));
    assert!(matches!(Sawtooth::new(hz(440), hz(0), ()), Err(Error::InvalidParameter)));
    assert!(matches!(Sawtooth::new(hz(440), hz(-48_000), ()), Err(Error::InvalidParameter)));
    assert!(matches!(Sawtooth::new(hz(48_001), hz(48_000), ()), Err(Error::InvalidParameter)));
    assert!(Sawtooth::new(hz(48_000), hz(48_000), ()).is_ok());

    assert!(matches!(Square::new(hz(0), hz(48_000), ()), Err(Error::InvalidParameter)));
    assert!(matches!(Square::new(hz(440), hz(0), ()), Err(Error::InvalidParameter)));
    assert!(matches!(Square::new(hz(48_001), hz(48_000), ()), Err(Error::InvalidParameter)));
    assert!(Square::new(hz(48_000), hz(48_000), ()).is_ok());

    assert!(matches!(Triangle::new(hz(0), hz(48_000), ()), Err(Error::InvalidParameter)));
    assert!(matches!(Triangle::new(hz(440), hz(0), ()), Err(Error::InvalidParameter)));
    assert!(matches!(Triangle::new(hz(24_001), hz(48_000), ()), Err(Error::InvalidParameter)));
    assert!(Triangle::new(hz(24_000), hz(48_000), ()).is_ok());

    assert!(matches!(Sine::new(hz(0), hz(48_000), &t), Err(Error::InvalidParameter)));
    assert!(matches!(Sine::new(hz(440), hz(0), &t), Err(Error::InvalidParameter)));
    assert!(matches!(Sine::new(hz(48_000), hz(48_000), &t), Err(Error::InvalidParameter)));
    assert!(Sine::new(hz(47_999), hz(48_000), &t).is_ok());
    assert!(Sine::new(Math(1_048_575), Math(1_048_576), &t).is_ok());
    assert!(matches!(
        Sine::new(Math(1_048_576), Math(1_048_576), &t),
        Err(Error::InvalidParameter)
    ));
}

#[test]
fn wavetable_takes_only_a_full_table_within_range() {
    assert!(matches!(Wavetable::from_samples(Vec::new()), Err(Error::InvalidParameter)));
    assert!(matches!(
        Wavetable::from_samples(vec![0; 1024 * 1024 - 1]),
        Err(Error::InvalidParameter)
    ));
    assert!(matches!(
        Wavetable::from_samples(vec![0; 1024 * 1024 + 1]),
        Err(Error::InvalidParameter)
    ));
    let mut over = vec![0; 1024 * 1024];
    over[1024 * 1024 - 1] = MATH_ONE + 1;
    assert!(matches!(Wavetable::from_samples(over), Err(Error::InvalidParameter)));
    let mut under = vec![0; 1024 * 1024];
    under[0] = -MATH_ONE - 1;
    assert!(matches!(Wavetable::from_samples(under), Err(Error::InvalidParameter)));
    let mut edge = vec![0; 1024 * 1024];
    edge[0] = -MATH_ONE;
    edge[5] = MATH_ONE;
    let w = Wavetable::from_samples(edge).unwrap();
    assert_eq!(w.get(0), -MATH_ONE);
    assert_eq!(w.get(5), MATH_ONE);
    assert_eq!(w.get(6), 0);
}

#[test]
fn sawtooth_ramps_and_wraps() {
    let mut s = Sawtooth::new(hz(12_000), hz(48_000), ()).unwrap();
    assert_eq!(
        raw(&run(&mut s, 9)),
        vec![0, HALF, -SAMPLE_ONE, -HALF, 0, HALF, -SAMPLE_ONE, -HALF, 0]
    );
    let mut fastest = Sawtooth::new(hz(48_000), hz(48_000), ()).unwrap();
    assert_eq!(raw(&run(&mut fastest, 3)), vec![0, 0, 0]);
    let mut third = Sawtooth::new(hz(16_000), hz(48_000), ()).unwrap();
    assert_eq!(raw(&run(&mut third, 3)), vec![0, 715_827_882, -715_827_883]);
}

#[test]
fn square_alternates_at_half_periods() {
    let mut s = Square::new(hz(12_000), hz(48_000), ()).unwrap();
    let p = SAMPLE_ONE;
    assert_eq!(raw(&run(&mut s, 9)), vec![p, p, -p, -p, p, p, -p, -p, p]);
    let mut slow = Square::new(hz(4_000), hz(48_000), ()).unwrap();
    assert_eq!(
        raw(&run(&mut slow, 14)),
        vec![p, p, p, p, p, p, -p, -p, -p, -p, -p, -p, p, p]
    );
    let mut fastest = Square::new(hz(48_000), hz(48_000), ()).unwrap();
    assert_eq!(raw(&run(&mut fastest, 4)), vec![p, p, p, p]);
}

#[test]
fn triangle_rises_and_falls() {
    let mut t = Triangle::new(hz(6_000), hz(48_000), ()).unwrap();
    assert_eq!(
        raw(&run(&mut t, 10)),
        vec![0, HALF, SAMPLE_ONE, HALF, 0, -HALF, -SAMPLE_ONE, -HALF, 0, HALF]
    );
    let mut fastest = Triangle::new(hz(24_000), hz(48_000), ()).unwrap();
    assert_eq!(raw(&run(&mut fastest, 5)), vec![0, 0, 0, 0, 0]);
}

#[test]
fn triangle_reports_its_frequency_whichever_way_it_runs() {
    let mut t = Triangle::new(hz(6_000), hz(48_000), ()).unwrap();
    for _ in 0..20 {
        assert_eq!(t.get_frequency(), hz(6_000));
        run(&mut t, 1);
    }
    let mut t = Triangle::new(hz(3), hz(16), ()).unwrap();
    run(&mut t, 2);
    assert_eq!(t.get_frequency(), hz(3));
    assert_eq!(t.set_frequency(t.get_frequency()), Ok(()));
    assert_eq!(t.get_frequency(), hz(3));
    let mut block = vec![Sample(0); 7];
    t.process_block(&mut block);
    assert_eq!(t.get_frequency(), hz(3));
}

#[test]
fn sine_reads_the_table_and_wraps_at_the_last_entry() {
    let t = table();
    let mut s = Sine::new(hz(12_000), hz(48_000), &t).unwrap();
    assert_eq!(raw(&run(&mut s, 4)), vec![0, SAMPLE_ONE, 0, -SAMPLE_ONE]);
    let quarter = 1024 * 1024 / 4;
    for lap in 1..4 {
        let ys = run(&mut s, 4);
        assert_eq!(ys[0].0 as i64, t.get(lap).div_euclid(4));
        assert_eq!(ys[1].0 as i64, t.get(quarter + lap).div_euclid(4));
        assert_eq!(ys[2].0 as i64, t.get(2 * quarter + lap).div_euclid(4));
        assert_eq!(ys[3].0 as i64, t.get(3 * quarter + lap).div_euclid(4));
    }
}

#[test]
fn sine_interpolates_between_neighbours() {
    let mut wt = vec![0; 1024 * 1024];
    wt[0] = MATH_ONE;
    wt[1] = -MATH_ONE;
    wt[2] = MATH_ONE / 2;
    let t = Wavetable::from_samples(wt).unwrap();
    let mut s = Sine::new(Math(3), Math(4 * 1_048_576), &t).unwrap();
    assert_eq!(
        raw(&run(&mut s, 5)),
        vec![SAMPLE_ONE, -HALF, -HALF / 2, 3 * HALF / 4, 0]
    );
}

#[test]
fn block_matches_single_samples() {
    let t = table();
    let sr = hz(48_000);
    let f = hz(440);
    for n in [0_usize, 1, 2, 109, 1000] {
        let mut a = Sawtooth::new(f, sr, ()).unwrap();
        let mut b = Sawtooth::new(f, sr, ()).unwrap();
        let mut block = vec![Sample(1); n];
        a.process_block(&mut block);
        assert_eq!(block, run(&mut b, n));
        assert_eq!(a.process(), b.process());

        let mut a = Square::new(f, sr, ()).unwrap();
        let mut b = Square::new(f, sr, ()).unwrap();
        let mut block = vec![Sample(1); n];
        a.process_block(&mut block);
        assert_eq!(block, run(&mut b, n));
        assert_eq!(a.process(), b.process());

        let mut a = Triangle::new(f, sr, ()).unwrap();
        let mut b = Triangle::new(f, sr, ()).unwrap();
        let mut block = vec![Sample(1); n];
        a.process_block(&mut block);
        assert_eq!(block, run(&mut b, n));
        assert_eq!(a.process(), b.process());

        let mut a = Sine::new(f, sr, &t).unwrap();
        let mut b = Sine::new(f, sr, &t).unwrap();
        let mut block = vec![Sample(1); n];
        a.process_block(&mut block);
        assert_eq!(block, run(&mut b, n));
        assert_eq!(a.process(), b.process());

        let mut z = Zero::new();
        let mut block = vec![Sample(1); n];
        z.process_block(&mut block);
        assert_eq!(block, vec![Sample(0); n]);
    }
}

#[test]
fn zero_is_silent() {
    let mut z = Zero::new();
    assert_eq!(z.process(), Sample(0));
    let mut block = vec![Sample(123); 4096];
    z.process_block(&mut block);
    assert!(block.iter().all(|y| *y == Sample(0)));
    let mut copy = z;
    assert_eq!(copy.process(), Sample(0));
    assert_eq!(Zero::default().process(), Sample(0));
}

#[test]
fn noise_block_is_in_range_and_spread_out() {
    let mut n = Noise::new().unwrap();
    let mut block = vec![Sample(0); 10_000];
    n.process_block(&mut block);
    assert!(block.iter().all(|y| -SAMPLE_ONE <= y.0 && y.0 < SAMPLE_ONE));
    let mean = block.iter().map(|y| y.0 as f64 / SAMPLE_ONE as f64).sum::<f64>() / 10_000.0;
    assert!(mean.abs() < 0.05);
    let mut sorted: Vec<f64> = block.iter().map(|y| y.0 as f64 / SAMPLE_ONE as f64).collect();
    sorted.sort_by(|a, b| a.partial_cmp(b).unwrap());
    let mut worst = 0.0_f64;
    for (i, v) in sorted.iter().enumerate() {
        let expected = (v + 1.0) / 2.0;
        let seen = (i as f64 + 1.0) / 10_000.0;
        worst = worst.max((seen - expected).abs());
    }
    assert!(worst < 0.03);
    assert!(block.iter().any(|y| *y != block[0]));
}

#[test]
fn noise_takes_one_draw_for_each_sample_in_order() {
    let seed: rand::rngs::StdRng = rand::SeedableRng::seed_from_u64(7);
    let mut engine = seed.clone();
    let mut n = Noise::from_engine(seed);
    for _ in 0..100 {
        let u = rand::RngCore::next_u32(&mut engine);
        assert_eq!(n.process(), bae_gen::noise::bipolar(u));
    }
    let mut block = vec![Sample(0); 300];
    n.process_block(&mut block);
    for y in block {
        let u = rand::RngCore::next_u32(&mut engine);
        assert_eq!(y, bae_gen::noise::bipolar(u));
    }
    let mut none: Vec<Sample> = Vec::new();
    n.process_block(&mut none);
    let u = rand::RngCore::next_u32(&mut engine);
    assert_eq!(n.process(), bae_gen::noise::bipolar(u));
}

#[test]
fn noise_block_matches_single_samples() {
    let seed: rand::rngs::StdRng = rand::SeedableRng::seed_from_u64(440);
    let mut a = Noise::from_engine(seed.clone());
    let mut b = Noise::from_engine(seed);
    let mut block = vec![Sample(0); 1000];
    a.process_block(&mut block);
    assert_eq!(block, run(&mut b, 1000));
    assert_eq!(a.process(), b.process());
}

#[test]
fn noise_clone_goes_on_from_the_same_state() {
    let seed: rand::rngs::StdRng = rand::SeedableRng::seed_from_u64(1);
    let mut n = Noise::from_engine(seed);
    run(&mut n, 10);
    let mut copy = n.clone();
    assert_eq!(run(&mut copy, 50), run(&mut n, 50));
    let mut fresh = Noise::new().unwrap();
    let mut other = Noise::new().unwrap();
    assert_ne!(run(&mut fresh, 50), run(&mut other, 50));
}

#[test]
fn bipolar_block_maps_slot_by_slot() {
    let us = [0_u32, 2, 0x8000_0000, 0xC000_0000, u32::MAX];
    let mut x = vec![Sample(9); 5];
    bae_gen::noise::bipolar_block(&us, &mut x);
    assert_eq!(raw(&x), vec![-SAMPLE_ONE, -SAMPLE_ONE + 1, 0, HALF, SAMPLE_ONE - 1]);
    let mut long = vec![Sample(9); 7];
    bae_gen::noise::bipolar_block(&us, &mut long);
    assert_eq!(raw(&long), vec![-SAMPLE_ONE, -SAMPLE_ONE + 1, 0, HALF, SAMPLE_ONE - 1, 9, 9]);
    let mut short = vec![Sample(9); 2];
    bae_gen::noise::bipolar_block(&us, &mut short);
    assert_eq!(raw(&short), vec![-SAMPLE_ONE, -SAMPLE_ONE + 1]);
    let mut untouched = vec![Sample(9); 3];
    bae_gen::noise::bipolar_block(&[], &mut untouched);
    assert_eq!(raw(&untouched), vec![9, 9, 9]);
    let sum_u: i64 = us.iter().map(|u| *u as i64).sum();
    let sum_y: i64 = x.iter().map(|y| y.0 as i64).sum();
    let gap = sum_u - 5 * 0x8000_0000 - 2 * sum_y;
    assert!(0 <= gap && gap <= 5);
}

#[test]
fn bipolar_maps_draws_onto_samples() {
    assert_eq!(bae_gen::noise::bipolar(0), Sample(-SAMPLE_ONE));
    assert_eq!(bae_gen::noise::bipolar(1), Sample(-SAMPLE_ONE));
    assert_eq!(bae_gen::noise::bipolar(2), Sample(-SAMPLE_ONE + 1));
    assert_eq!(bae_gen::noise::bipolar(0x8000_0000), Sample(0));
    assert_eq!(bae_gen::noise::bipolar(0xC000_0000), Sample(HALF));
    assert_eq!(bae_gen::noise::bipolar(u32::MAX), Sample(SAMPLE_ONE - 1));
}

#[test]
fn clone_keeps_the_frequency_and_starts_over() {
    let t = table();
    let sr = hz(48_000);
    let f = hz(440);

    let mut saw = Sawtooth::new(f, sr, ()).unwrap();
    run(&mut saw, 40);
    let mut copy = saw.clone();
    assert_eq!(copy.get_frequency(), saw.get_frequency());
    assert_eq!(run(&mut copy, 200), run(&mut Sawtooth::new(f, sr, ()).unwrap(), 200));

    let mut sq = Square::new(f, sr, ()).unwrap();
    run(&mut sq, 70);
    let mut copy = sq.clone();
    assert_eq!(copy.get_frequency(), sq.get_frequency());
    assert_eq!(run(&mut copy, 200), run(&mut Square::new(f, sr, ()).unwrap(), 200));

    let mut tri = Triangle::new(f, sr, ()).unwrap();
    run(&mut tri, 10);
    let mut copy = tri.clone();
    assert_eq!(copy.get_frequency(), tri.get_frequency());
    assert_eq!(run(&mut copy, 200), run(&mut Triangle::new(f, sr, ()).unwrap(), 200));

    let mut falling = Triangle::new(hz(6_000), sr, ()).unwrap();
    run(&mut falling, 3);
    let mut copy = falling.clone();
    assert_eq!(copy.get_frequency(), hz(6_000));
    assert_eq!(raw(&run(&mut copy, 4)), vec![0, -HALF, -SAMPLE_ONE, -HALF]);

    let mut sine = Sine::new(f, sr, &t).unwrap();
    run(&mut sine, 33);
    let mut copy = sine.clone();
    assert_eq!(copy.get_frequency(), sine.get_frequency());
    assert_eq!(run(&mut copy, 200), run(&mut Sine::new(f, sr, &t).unwrap(), 200));
}

#[test]
fn mono_wav_holds_its_track() {
    let track = vec![Sample(1), Sample(-2), Sample(3)];
    let mut w = MonoWav::from_track(hz(48_000), hz(44_100), track.clone());
    assert_eq!(w.get().track, track);
    assert_eq!(w.get().sample_rate, hz(48_000));
    assert_eq!(w.get().source_sampling_rate, hz(44_100));
    assert_eq!(w.get().loop_start, 0);
    assert_eq!(w.get().loop_end, 0);
    w.get_mut().loop_end = 2;
    w.get_mut().track.push(Sample(4));
    assert_eq!(w.get().loop_end, 2);
    assert_eq!(w.get().track.len(), 4);
    assert_eq!(w.get().sample_rate, hz(48_000));
    let copy = w.clone();
    assert_eq!(copy.get().track, w.get().track);
    assert_eq!(copy.get().sample_rate, hz(48_000));
    assert_eq!(copy.get().source_sampling_rate, hz(44_100));
    assert_eq!(copy.get().loop_start, 0);
    assert_eq!(copy.get().loop_end, 2);
}
