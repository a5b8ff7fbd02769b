//! # Triangle
//!
//! A triangle wave generator.

use crate::types::{Error, Math, Sample};
use crate::{is_run, lemma_run_extends, BlockGenerator, FreqMod, Generator, WellFormed};
use vstd::arithmetic::div_mod::lemma_fundamental_div_mod;
use vstd::prelude::*;

verus! {

/// The number one in the unit of the phase accumulator: 62 fractional bits.
pub const PHASE_ONE: i128 = 0x4000_0000_0000_0000;

/// The number four in the unit of the phase accumulator: one whole cycle of
/// the wave, up and down.
pub const PHASE_CYCLE: u128 = 0x1_0000_0000_0000_0000;

/// What a triangle generator is, as numbers: the sample rate in units of
/// `1 / MATH_ONE` hertz, and the increment and the phase in units of
/// `1 / PHASE_ONE`. The increment is positive while the wave rises and
/// negative while it falls; its size is the speed, which the frequency fixes.
pub struct TriangleModel {
    pub sample_rate: int,
    pub rate: int,
    pub phase: int,
}

/// The increment per sample for frequency `f` at `sample_rate`: four times
/// their quotient in phase units, rounded down.
pub open spec fn rate_of(f: int, sample_rate: int) -> int {
    (f * PHASE_CYCLE) / sample_rate
}

/// The triangle wave over the distance `u` travelled from a rising zero, in
/// phase units: up to 1 at `u = 1`, down to -1 at `u = 3`, back to 0 at
/// `u = 4`, and so on in both directions.
pub open spec fn triangle(u: int) -> int {
    let m = (u + PHASE_ONE) % (PHASE_CYCLE as int);
    if m <= 2 * PHASE_ONE {
        m - PHASE_ONE
    } else {
        3 * PHASE_ONE - m
    }
}

impl TriangleModel {
    /// The sample rate is positive, the increment is at most 2 either way and
    /// the phase lies from -1 to 1.
    pub open spec fn wf(self) -> bool {
        &&& 0 < self.sample_rate <= i64::MAX
        &&& -2 * PHASE_ONE <= self.rate <= 2 * PHASE_ONE
        &&& -PHASE_ONE <= self.phase <= PHASE_ONE
    }

    /// The sample emitted next: the phase, narrowed to the fast precision.
    pub open spec fn output(self) -> Sample {
        Sample((self.phase / 0x1_0000_0000) as i32)
    }

    /// The state after one sample: the phase moves on by the increment; once
    /// it has reached 1 or -1 it is reflected there, and the increment
    /// changes its sign.
    pub open spec fn next(self) -> TriangleModel {
        let p = self.phase + self.rate;
        if p >= PHASE_ONE {
            TriangleModel { rate: -self.rate, phase: 2 * PHASE_ONE - p, ..self }
        } else if p <= -PHASE_ONE {
            TriangleModel { rate: -self.rate, phase: -2 * PHASE_ONE - p, ..self }
        } else {
            TriangleModel { phase: p, ..self }
        }
    }

    /// The state after `n` samples.
    pub open spec fn advanced(self, n: nat) -> TriangleModel
        decreases n,
    {
        if n == 0 {
            self
        } else {
            self.advanced((n - 1) as nat).next()
        }
    }

    /// The increment without its sign.
    pub open spec fn speed(self) -> int {
        if self.rate >= 0 {
            self.rate
        } else {
            -self.rate
        }
    }

    /// The distance travelled from a rising zero that the state stands for:
    /// the phase itself while the wave rises, its mirror image at 1 while it
    /// falls.
    pub open spec fn travelled(self) -> int {
        if self.rate >= 0 {
            self.phase
        } else {
            2 * PHASE_ONE - self.phase
        }
    }

    /// The frequency that the increment stands for: a quarter of the speed
    /// times the sample rate, rounded up. It is the same whichever way the
    /// wave runs.
    pub open spec fn frequency(self) -> Math {
        Math(((self.speed() * self.sample_rate + PHASE_CYCLE - 1) / (PHASE_CYCLE as int)) as i64)
    }

    /// The state with the increment of frequency `f`, rising, the phase kept.
    pub open spec fn retuned(self, f: Math) -> TriangleModel {
        TriangleModel { rate: rate_of(f.0 as int, self.sample_rate), ..self }
    }
}

/// Struct for generating triangle waves at a given frequency.
pub struct Triangle {
    sample_rate: Math,
    irate: i128,
    inc: i128,
}

impl View for Triangle {
    type V = TriangleModel;

    closed spec fn view(&self) -> TriangleModel {
        TriangleModel {
            sample_rate: self.sample_rate.0 as int,
            rate: self.irate as int,
            phase: self.inc as int,
        }
    }
}

impl WellFormed for Triangle {
    open spec fn wf(&self) -> bool {
        self@.wf()
    }
}

/// An increment derived from a frequency is positive, at most 2, and gives
/// that frequency back: rounding down on the way in is undone by rounding up
/// on the way out.
pub proof fn lemma_triangle_frequency_round_trip(f: Math, sample_rate: Math)
    requires
        Triangle::accepts(f, sample_rate),
    ensures
        0 < rate_of(f.0 as int, sample_rate.0 as int) <= 2 * PHASE_ONE,
        (TriangleModel {
            sample_rate: sample_rate.0 as int,
            rate: rate_of(f.0 as int, sample_rate.0 as int),
            phase: 0,
        }).frequency() == f,
{
    let fi = f.0 as int;
    let ri = sample_rate.0 as int;
    let n = fi * PHASE_CYCLE;
    let q = n / ri;
    lemma_fundamental_div_mod(n, ri);
    assert(0 <= n % ri < ri);
    assert(n == ri * q + n % ri);
    assert(q * ri == ri * q) by (nonlinear_arith);
    assert(q <= 2 * PHASE_ONE) by (nonlinear_arith)
        requires
            ri * q <= fi * 0x1_0000_0000_0000_0000,
            PHASE_ONE == 0x4000_0000_0000_0000,
            0 < 2 * fi <= ri,
    ;
    assert(q > 0) by (nonlinear_arith)
        requires
            ri * q + ri > fi * 0x1_0000_0000_0000_0000,
            0 < fi,
            0 < ri < 0x1_0000_0000_0000_0000,
    ;
}

impl FreqMod for Triangle {
    type Source = ();

    open spec fn usable(source: ()) -> bool {
        true
    }

    /// Both are positive, and the frequency is at most half the sample rate,
    /// so that the increment is at most 2 and one reflection per sample is
    /// enough.
    open spec fn accepts(f: Math, sample_rate: Math) -> bool {
        0 < f.0 && 2 * f.0 <= sample_rate.0
    }

    open spec fn sample_rate(&self) -> Math {
        Math(self@.sample_rate as i64)
    }

    open spec fn frequency(&self) -> Math {
        self@.frequency()
    }

    /// Creates a new object for the given frequency, rising, with the phase
    /// at 0.
    ///
    /// # Parameters
    ///
    /// * `f` - The frequency for the new object
    /// * `sample_rate` - The sample rate that will be used.
    /// * `source` - Nothing: the wave is computed.
    fn new(f: Math, sample_rate: Math, source: ()) -> (r: Result<Triangle, Error>)
        ensures
            r is Ok ==> r->Ok_0@ == (TriangleModel {
                sample_rate: sample_rate.0 as int,
                rate: rate_of(f.0 as int, sample_rate.0 as int),
                phase: 0,
            }),
    {
        if f.0 <= 0 || sample_rate.0 <= 0 || (f.0 as u128) * 2 > (sample_rate.0 as u128) {
            return Err(Error::InvalidParameter);
        }
        proof {
            lemma_triangle_frequency_round_trip(f, sample_rate);
        }
        let irate: u128 = ((f.0 as u128) * PHASE_CYCLE) / (sample_rate.0 as u128);
        Ok(Triangle { sample_rate, irate: irate as i128, inc: 0 })
    }

    /// The phase stays where it is, and the wave rises from there.
    fn set_frequency(&mut self, f: Math) -> (r: Result<(), Error>)
        ensures
            r is Ok ==> final(self)@ == old(self)@.retuned(f),
    {
        if f.0 <= 0 || (f.0 as u128) * 2 > (self.sample_rate.0 as u128) {
            return Err(Error::InvalidParameter);
        }
        proof {
            lemma_triangle_frequency_round_trip(f, self.sample_rate);
        }
        let irate: u128 = ((f.0 as u128) * PHASE_CYCLE) / (self.sample_rate.0 as u128);
        self.irate = irate as i128;
        Ok(())
    }

    fn get_frequency(&self) -> (f: Math) {
        let speed: u128 = if self.irate >= 0 {
            self.irate as u128
        } else {
            (-self.irate) as u128
        };
        assert(0 <= speed * self.sample_rate.0 <= 2 * PHASE_ONE * self.sample_rate.0)
            by (nonlinear_arith)
            requires
                0 <= speed <= 2 * PHASE_ONE,
                0 < self.sample_rate.0,
        ;
        let p: u128 = speed * (self.sample_rate.0 as u128);
        Math(((p + (PHASE_CYCLE - 1)) / PHASE_CYCLE) as i64)
    }
}

impl Generator for Triangle {
    open spec fn emits(&self, y: Sample, next: Self) -> bool {
        y == self@.output() && next@ == self@.next()
    }

    /// The frequency stays what it is, also where the wave turns.
    fn process(&mut self) -> (y: Sample)
        ensures
            final(self).frequency() == old(self).frequency(),
    {
        let y: i128 = (self.inc + PHASE_ONE) / 0x1_0000_0000 - 0x4000_0000;

        self.inc = self.inc + self.irate;

        if self.inc >= PHASE_ONE || self.inc <= -PHASE_ONE {
            self.irate = -self.irate;

            self.inc = if self.inc >= PHASE_ONE {
                2 * PHASE_ONE - self.inc
            } else {
                -2 * PHASE_ONE - self.inc
            };
        }

        Sample(y as i32)
    }
}

impl BlockGenerator for Triangle {
    /// Slot `i` holds what the generator emits after `i` samples, and the
    /// generator is left where as many samples as the block holds take it,
    /// at the frequency it had.
    fn process_block(&mut self, x: &mut [Sample])
        ensures
            final(self)@ == old(self)@.advanced(old(x)@.len()),
            final(self).frequency() == old(self).frequency(),
            forall|i: int|
                0 <= i < old(x)@.len() ==> #[trigger] final(x)@[i] == old(self)@.advanced(
                    i as nat,
                ).output(),
    {
        let n: usize = x.len();
        let ghost mut trace: Seq<Triangle> = seq![*self];
        let mut i: usize = 0;
        while i < n
            invariant
                i <= n,
                x@.len() == n,
                n == old(x)@.len(),
                self.wf(),
                self@ == old(self)@.advanced(i as nat),
                forall|j: int|
                    0 <= j < i ==> #[trigger] x@[j] == old(self)@.advanced(j as nat).output(),
                is_run(trace, x@.take(i as int)),
                trace[0] == *old(self),
                trace.last() == *self,
            decreases n - i,
        {
            let ghost filled = x@.take(i as int);
            let y = self.process();
            x[i] = y;
            proof {
                lemma_run_extends(trace, filled, y, *self);
                trace = trace.push(*self);
                assert(x@.take(i + 1) =~= filled.push(y));
            }
            i = i + 1;
        }
        assert(x@.take(n as int) =~= x@);
        proof {
            lemma_triangle_closed_form(old(self)@, n as nat);
        }
    }
}

impl Clone for Triangle {
    /// The copy keeps the sample rate and the increment, and so the
    /// frequency; its phase starts at 0 again.
    fn clone(&self) -> (c: Self)
        ensures
            c@ == (TriangleModel { phase: 0, ..self@ }),
            c.frequency() == self.frequency(),
            c.sample_rate() == self.sample_rate(),
            self.wf() ==> c.wf(),
    {
        Triangle { sample_rate: self.sample_rate, irate: self.irate, inc: 0 }
    }
}

/// One sample moves the distance travelled on by the speed, up to whole
/// cycles, and keeps the speed and the frequency.
pub proof fn lemma_triangle_step(s: TriangleModel)
    requires
        s.wf(),
    ensures
        s.next().wf(),
        s.next().sample_rate == s.sample_rate,
        s.next().speed() == s.speed(),
        s.next().frequency() == s.frequency(),
        s.phase == triangle(s.travelled()),
        (s.next().travelled() - (s.travelled() + s.speed())) % (PHASE_CYCLE as int) == 0,
{
}

/// The triangle wave repeats with every whole cycle.
pub proof fn lemma_triangle_periodic(u: int, v: int)
    requires
        (u - v) % (PHASE_CYCLE as int) == 0,
    ensures
        triangle(u) == triangle(v),
{
    let c = PHASE_CYCLE as int;
    let k = (u - v) / c;
    assert(u - v == c * k) by {
        lemma_fundamental_div_mod(u - v, c);
    }
    assert((u + PHASE_ONE) % c == (v + PHASE_ONE) % c) by {
        vstd::arithmetic::div_mod::lemma_mod_multiples_vanish(k, v + PHASE_ONE, c);
        assert(c * k == k * c) by (nonlinear_arith);
    }
}

/// After `n` samples the phase is the triangle wave, taken at the distance
/// travelled at the start plus `n` times the speed; the speed, the frequency
/// and the sample rate are what they were.
pub proof fn lemma_triangle_closed_form(s: TriangleModel, n: nat)
    requires
        s.wf(),
    ensures
        s.advanced(n).wf(),
        s.advanced(n).sample_rate == s.sample_rate,
        s.advanced(n).speed() == s.speed(),
        s.advanced(n).frequency() == s.frequency(),
        (s.advanced(n).travelled() - (s.travelled() + n * s.speed())) % (PHASE_CYCLE as int) == 0,
        s.advanced(n).phase == triangle(s.travelled() + n * s.speed()),
    decreases n,
{
    let c = PHASE_CYCLE as int;
    let a = s.speed();
    if n == 0 {
        assert(n * a == 0);
        assert(s.advanced(n) == s);
        assert((s.travelled() - (s.travelled() + 0)) % c == 0);
    } else {
        let m = (n - 1) as nat;
        let t = s.advanced(m);
        lemma_triangle_closed_form(s, m);
        lemma_triangle_step(t);
        assert(s.advanced(n) == t.next());
        assert(n * a == m * a + a) by (nonlinear_arith)
            requires
                n == m + 1,
        ;
        let d1 = t.travelled() - (s.travelled() + m * a);
        let d2 = t.next().travelled() - (t.travelled() + a);
        assert((d1 + d2) % c == 0) by {
            lemma_cycles_add(d1, d2);
        }
        assert(t.next().travelled() - (s.travelled() + n * a) == d1 + d2);
    }
    let e = s.advanced(n);
    lemma_triangle_step(e);
    lemma_triangle_periodic(e.travelled(), s.travelled() + n * a);
}

/// Two whole numbers of cycles add up to a whole number of cycles.
proof fn lemma_cycles_add(x: int, y: int)
    requires
        x % (PHASE_CYCLE as int) == 0,
        y % (PHASE_CYCLE as int) == 0,
    ensures
        (x + y) % (PHASE_CYCLE as int) == 0,
{
}

} // verus!
