use bae_gen::{
    BlockGenerator, FreqMod, Generator, Math, Noise, Sample, Sawtooth, Sine, Square, Triangle,
    Wavetable, Zero, MATH_ONE, SAMPLE_ONE,
};

const SAMPLE_RATE: usize = 48_000;
const INV_SAMPLE_RATE: f64 = 1.0 / SAMPLE_RATE as f64;

fn float_equal<T>(x: T, y: T, epsilon: T, abs: fn(T) -> T) -> bool
where
    T: std::ops::Sub<Output = T> + PartialOrd,
{
    abs(x - y) < epsilon
}

fn seconds_to_samples(s: std::time::Duration, r: f64) -> usize {
    (s.as_secs_f64() * r) as usize
}

fn math(x: f64) -> Math {
    Math((x * MATH_ONE as f64).round() as i64)
}

fn hertz(m: Math) -> f64 {
    m.0 as f64 / MATH_ONE as f64
}

fn amplitude(s: Sample) -> f32 {
    (s.0 as f64 / SAMPLE_ONE as f64) as f32
}

fn sine_table() -> Wavetable {
    let n = 1024 * 1024;
    let mut wt = Vec::new();
    for i in 0..n {
        let v = (2.0 * std::f64::consts::PI * (i as f64) / (n as f64)).sin();
        wt.push((v * MATH_ONE as f64).round() as i64);
    }
    Wavetable::from_samples(wt).unwrap()
}

#[test]
fn test_zero() {
    let mut z = Zero::new();

    for _ in 0..SAMPLE_RATE {
        assert!(float_equal(amplitude(z.process()), 0.0, f32::EPSILON, f32::abs));
    }
}

#[test]
fn test_noise() {
    let mut n = Noise::new().unwrap();
    let mut sum = 0.0_f64;
    let count = 10_000;

    for _ in 0..count {
        let y = n.process();
        assert!(-SAMPLE_ONE <= y.0 && y.0 < SAMPLE_ONE);
        sum += amplitude(y) as f64;
    }

    assert!((sum / count as f64).abs() < 0.05);
}

#[test]
fn test_sawtooth() {
    let mut s = Sawtooth::new(math(440.0), math(SAMPLE_RATE as f64), ()).unwrap();
    assert!(float_equal(440.0, hertz(s.get_frequency()), f64::EPSILON, f64::abs));

    let time = std::time::Duration::from_secs_f64(1.0 / hertz(s.get_frequency()));
    let samples = seconds_to_samples(time, SAMPLE_RATE as f64);

    let omega = |t: f32, x: f32| 2.0 / t * x;
    let phi = |t: f32, x: f32| -2.0 * (x / t + 0.5).floor();

    println!("Samples: {}", samples);
    for i in 0..samples {
        let y = s.process();
        let o = omega(
            1.0 / hertz(s.get_frequency()) as f32,
            i as f32 * INV_SAMPLE_RATE as f32,
        );
        let p = phi(
            1.0 / hertz(s.get_frequency()) as f32,
            i as f32 * INV_SAMPLE_RATE as f32,
        );
        let n = o + p;
        assert!(float_equal(amplitude(y), n, f32::EPSILON * 10.0, f32::abs));
    }
}

#[test]
fn test_sine() {
    let table = sine_table();
    let mut s = Sine::new(math(440.0), math(SAMPLE_RATE as f64), &table).unwrap();
    assert!(float_equal(440.0, hertz(s.get_frequency()), f64::EPSILON, f64::abs));

    let time = std::time::Duration::from_secs_f64(1.0 / hertz(s.get_frequency()));
    let samples = seconds_to_samples(time, SAMPLE_RATE as f64);

    let omega = |f: f32, i: f32| f * 2.0 * std::f32::consts::PI * INV_SAMPLE_RATE as f32 * i;

    for i in 0..samples {
        let y = s.process();
        let n = omega(hertz(s.get_frequency()) as f32, i as f32).sin();

        assert!(float_equal(amplitude(y), n, f32::EPSILON * 10.0, f32::abs));
    }
}

#[test]
fn test_square() {
    let mut s = Square::new(math(440.0), math(SAMPLE_RATE as f64), ()).unwrap();
    assert!(float_equal(440.0, hertz(s.get_frequency()), f64::EPSILON, f64::abs));

    let time = std::time::Duration::from_secs_f64(1.0 / hertz(s.get_frequency()));
    let samples = seconds_to_samples(time, SAMPLE_RATE as f64);

    let omega = (-2.0 * hertz(s.get_frequency()) * INV_SAMPLE_RATE) as f32;

    for i in 0..samples {
        let y = s.process();
        let n = (omega * i as f32 + 1.0).ceil() * 2.0 - 1.0;
        assert!(float_equal(amplitude(y), n, f32::EPSILON * 10.0, f32::abs));
    }
}

#[test]
fn test_triangle() {
    let f = 440.0;
    let mut t = Triangle::new(math(f), math(SAMPLE_RATE as f64), ()).unwrap();
    assert!(float_equal(f, hertz(t.get_frequency()), f64::EPSILON, f64::abs));

    let period = 1.0 / hertz(t.get_frequency()) as f32;
    let samples = seconds_to_samples(
        std::time::Duration::from_secs_f32(period),
        SAMPLE_RATE as f64,
    );

    let gen_triangle = |t: f32| {
        let q1 = (2.0 / period * t + 0.5).floor();
        let q2 = (2.0 / period * t + 1.5).floor();
        4.0 / period * t * (-1.0_f32).powf(q1) + 2.0 * q1 * (-1.0_f32).powf(q2)
    };

    println!("period: {}", period);
    println!("samples: {}", samples);
    let before = std::time::Instant::now();
    for i in 0..samples {
        let y = t.process();
        let t = i as f32 * INV_SAMPLE_RATE as f32;
        let n = gen_triangle(t);

        assert!(float_equal(amplitude(y), n, f32::EPSILON * 10.0, f32::abs));
    }
    let after = std::time::Instant::now();
    let duration = after - before;
    println!("Test ran in {} seconds", duration.as_secs_f64());
}

#[test]
fn block_of_sine_matches_single_samples() {
    let table = sine_table();
    let mut a = Sine::new(math(440.0), math(48_000.0), &table).unwrap();
    let mut b = a.clone();
    let mut block = vec![Sample(7); 300];
    a.process_block(&mut block);
    for y in block {
        assert_eq!(y, b.process());
    }
    assert_eq!(a.process(), b.process());
}
