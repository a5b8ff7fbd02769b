//! # Sawtooth
//!
//! A sawtooth sample generator.

use crate::types::{Error, Math, Sample};
use crate::{is_run, lemma_run_extends, BlockGenerator, FreqMod, Generator, WellFormed};
use vstd::arithmetic::div_mod::lemma_fundamental_div_mod;
use vstd::prelude::*;

verus! {

/// The number one in the unit of the phase accumulator: 62 fractional bits.
pub const PHASE_ONE: i128 = 0x4000_0000_0000_0000;

/// What a sawtooth generator is, as numbers: the sample rate in units of
/// `1 / MATH_ONE` hertz, and the increment and the phase in units of
/// `1 / PHASE_ONE`.
pub struct SawtoothModel {
    pub sample_rate: int,
    pub rate: int,
    pub phase: int,
}

/// The increment per sample for frequency `f` at `sample_rate`: twice their
/// quotient in phase units, rounded down.
pub open spec fn rate_of(f: int, sample_rate: int) -> int {
    (2 * f * PHASE_ONE) / sample_rate
}

/// The ramp with its wrap: `x` less twice the whole part of `x / 2 + 1 / 2`, in
/// phase units. The result lies from -1 up to, but not at, 1.
pub open spec fn ramp(x: int) -> int {
    x - 2 * PHASE_ONE * ((x + PHASE_ONE) / (2 * PHASE_ONE))
}

impl SawtoothModel {
    /// The sample rate is positive, the increment is at most 2 and the phase
    /// lies from -1 up to, but not at, 1.
    pub open spec fn wf(self) -> bool {
        &&& 0 < self.sample_rate <= i64::MAX
        &&& 0 <= self.rate <= 2 * PHASE_ONE
        &&& -PHASE_ONE <= self.phase < PHASE_ONE
    }

    /// The sample emitted next: the phase, narrowed to the fast precision.
    pub open spec fn output(self) -> Sample {
        Sample((self.phase / 0x1_0000_0000) as i32)
    }

    /// The state after one sample: the phase moves on by the increment, and
    /// falls by 2 once it has reached 1.
    pub open spec fn next(self) -> SawtoothModel {
        let p = self.phase + self.rate;
        SawtoothModel { phase: if p >= PHASE_ONE { p - 2 * PHASE_ONE } else { p }, ..self }
    }

    /// The state after `n` samples.
    pub open spec fn advanced(self, n: nat) -> SawtoothModel
        decreases n,
    {
        if n == 0 {
            self
        } else {
            self.advanced((n - 1) as nat).next()
        }
    }

    /// The frequency that the increment stands for: half of increment times
    /// sample rate, rounded up.
    pub open spec fn frequency(self) -> Math {
        Math(((self.rate * self.sample_rate + 2 * PHASE_ONE - 1) / (2 * PHASE_ONE)) as i64)
    }

    /// The state with the increment of frequency `f`, the phase kept.
    pub open spec fn retuned(self, f: Math) -> SawtoothModel {
        SawtoothModel { rate: rate_of(f.0 as int, self.sample_rate), ..self }
    }
}

/// Struct for generating sawtooth samples.
pub struct Sawtooth {
    r: Math,
    irate: i128,
    inc: i128,
}

impl View for Sawtooth {
    type V = SawtoothModel;

    closed spec fn view(&self) -> SawtoothModel {
        SawtoothModel {
            sample_rate: self.r.0 as int,
            rate: self.irate as int,
            phase: self.inc as int,
        }
    }
}

impl WellFormed for Sawtooth {
    open spec fn wf(&self) -> bool {
        self@.wf()
    }
}

/// An increment derived from a frequency gives that frequency back: rounding
/// down on the way in is undone by rounding up on the way out.
pub proof fn lemma_sawtooth_frequency_round_trip(f: Math, sample_rate: Math)
    requires
        Sawtooth::accepts(f, sample_rate),
    ensures
        0 < rate_of(f.0 as int, sample_rate.0 as int) <= 2 * PHASE_ONE,
        (SawtoothModel {
            sample_rate: sample_rate.0 as int,
            rate: rate_of(f.0 as int, sample_rate.0 as int),
            phase: 0,
        }).frequency() == f,
{
    let fi = f.0 as int;
    let ri = sample_rate.0 as int;
    let n = 2 * fi * PHASE_ONE;
    let q = n / ri;
    lemma_fundamental_div_mod(n, ri);
    assert(0 <= n % ri < ri);
    assert(n == ri * q + n % ri);
    assert(q * ri == ri * q) by (nonlinear_arith);
    assert(q <= 2 * PHASE_ONE) by (nonlinear_arith)
        requires
            ri * q <= 2 * fi * PHASE_ONE,
            0 < fi <= ri,
    ;
    assert(q > 0) by (nonlinear_arith)
        requires
            ri * q + ri > 2 * fi * PHASE_ONE,
            0 < fi,
            0 < ri < 2 * PHASE_ONE,
    ;
}

impl FreqMod for Sawtooth {
    type Source = ();

    open spec fn usable(source: ()) -> bool {
        true
    }

    /// Both are positive, and the frequency is at most the sample rate, so
    /// that the increment is at most 2 and one wrap per sample is enough.
    open spec fn accepts(f: Math, sample_rate: Math) -> bool {
        0 < f.0 <= sample_rate.0
    }

    open spec fn sample_rate(&self) -> Math {
        Math(self@.sample_rate as i64)
    }

    open spec fn frequency(&self) -> Math {
        self@.frequency()
    }

    /// Creates a new object for the given frequency, with the phase at 0.
    ///
    /// # Parameters
    ///
    /// * `f` - The frequency for the new object
    /// * `sample_rate` - The sample rate that will be used.
    /// * `source` - Nothing: the wave is computed.
    fn new(f: Math, sample_rate: Math, source: ()) -> (r: Result<Sawtooth, Error>)
        ensures
            r is Ok ==> r->Ok_0@ == (SawtoothModel {
                sample_rate: sample_rate.0 as int,
                rate: rate_of(f.0 as int, sample_rate.0 as int),
                phase: 0,
            }),
    {
        if f.0 <= 0 || sample_rate.0 <= 0 || f.0 > sample_rate.0 {
            return Err(Error::InvalidParameter);
        }
        proof {
            lemma_sawtooth_frequency_round_trip(f, sample_rate);
        }
        let num: u128 = 2 * (f.0 as u128) * (PHASE_ONE as u128);
        let irate: u128 = num / (sample_rate.0 as u128);
        Ok(Sawtooth { r: sample_rate, irate: irate as i128, inc: 0 })
    }

    /// The phase stays where it is.
    fn set_frequency(&mut self, f: Math) -> (r: Result<(), Error>)
        ensures
            r is Ok ==> final(self)@ == old(self)@.retuned(f),
    {
        if f.0 <= 0 || f.0 > self.r.0 {
            return Err(Error::InvalidParameter);
        }
        proof {
            lemma_sawtooth_frequency_round_trip(f, self.r);
        }
        let num: u128 = 2 * (f.0 as u128) * (PHASE_ONE as u128);
        let irate: u128 = num / (self.r.0 as u128);
        self.irate = irate as i128;
        Ok(())
    }

    fn get_frequency(&self) -> (f: Math) {
        assert(0 <= self.irate * self.r.0 <= 2 * PHASE_ONE * self.r.0) by (nonlinear_arith)
            requires
                0 <= self.irate <= 2 * PHASE_ONE,
                0 < self.r.0,
        ;
        let p: u128 = (self.irate as u128) * (self.r.0 as u128);
        let two: u128 = 2 * (PHASE_ONE as u128);
        Math(((p + (two - 1)) / two) as i64)
    }
}

impl Generator for Sawtooth {
    open spec fn emits(&self, y: Sample, next: Self) -> bool {
        y == self@.output() && next@ == self@.next()
    }

    fn process(&mut self) -> (y: Sample) {
        let y: i128 = (self.inc + PHASE_ONE) / 0x1_0000_0000 - 0x4000_0000;

        self.inc = self.inc + self.irate;

        if self.inc >= PHASE_ONE {
            self.inc = self.inc - 2 * PHASE_ONE;
        }

        Sample(y as i32)
    }
}

impl BlockGenerator for Sawtooth {
    /// Slot `i` holds what the generator emits after `i` samples, and the
    /// generator is left where as many samples as the block holds take it.
    fn process_block(&mut self, x: &mut [Sample])
        ensures
            final(self)@ == old(self)@.advanced(old(x)@.len()),
            forall|i: int|
                0 <= i < old(x)@.len() ==> #[trigger] final(x)@[i] == old(self)@.advanced(
                    i as nat,
                ).output(),
    {
        let n: usize = x.len();
        let ghost mut trace: Seq<Sawtooth> = seq![*self];
        let mut i: usize = 0;
        while i < n
            invariant
                i <= n,
                x@.len() == n,
                n == old(x)@.len(),
                self.wf(),
                self@ == old(self)@.advanced(i as nat),
                forall|j: int|
                    0 <= j < i ==> #[trigger] x@[j] == old(self)@.advanced(j as nat).output(),
                is_run(trace, x@.take(i as int)),
                trace[0] == *old(self),
                trace.last() == *self,
            decreases n - i,
        {
            let ghost filled = x@.take(i as int);
            let y = self.process();
            x[i] = y;
            proof {
                lemma_run_extends(trace, filled, y, *self);
                trace = trace.push(*self);
                assert(x@.take(i + 1) =~= filled.push(y));
            }
            i = i + 1;
        }
        assert(x@.take(n as int) =~= x@);
    }
}

impl Clone for Sawtooth {
    /// The copy keeps the sample rate and the increment, and so the
    /// frequency; its phase starts at 0 again.
    fn clone(&self) -> (c: Self)
        ensures
            c@ == (SawtoothModel { phase: 0, ..self@ }),
            c.frequency() == self.frequency(),
            c.sample_rate() == self.sample_rate(),
            self.wf() ==> c.wf(),
    {
        Sawtooth { r: self.r, irate: self.irate, inc: 0 }
    }
}

/// After `n` samples the phase is the ramp with its wrap, taken at the phase
/// at the start plus `n` increments; the increment and the sample rate are
/// what they were.
pub proof fn lemma_sawtooth_closed_form(s: SawtoothModel, n: nat)
    requires
        s.wf(),
    ensures
        s.advanced(n).wf(),
        s.advanced(n).sample_rate == s.sample_rate,
        s.advanced(n).rate == s.rate,
        s.advanced(n).phase == ramp(s.phase + n * s.rate),
    decreases n,
{
    if n > 0 {
        let m = (n - 1) as nat;
        lemma_sawtooth_closed_form(s, m);
        assert(n * s.rate == m * s.rate + s.rate) by (nonlinear_arith)
            requires
                n == m + 1,
        ;
    }
}

} // verus!
