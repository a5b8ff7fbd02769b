//! # Square
//!
//! A square wave generator.

use crate::types::{Error, Math, Sample, SAMPLE_ONE};
use crate::{is_run, lemma_run_extends, BlockGenerator, FreqMod, Generator, WellFormed};
use vstd::arithmetic::div_mod::{
    lemma_add_mod_noop_right, lemma_fundamental_div_mod, lemma_fundamental_div_mod_converse_div,
    lemma_fundamental_div_mod_converse_mod, lemma_mod_bound,
};
use vstd::prelude::*;

verus! {

/// One sample in the unit of the sample counter: 64 fractional bits.
pub const COUNT_ONE: u128 = 0x1_0000_0000_0000_0000;

/// The longest half-period there is, in counter units: that of the lowest
/// frequency at the highest sample rate.
pub const HALF_PERIOD_MAX: u128 = 0x4000_0000_0000_0000_0000_0000_0000_0000;

/// What a square generator is, as numbers: the sample rate in units of
/// `1 / MATH_ONE` hertz, and the half-period and the samples counted since
/// the period began, both in units of `1 / COUNT_ONE` samples.
pub struct SquareModel {
    pub sample_rate: int,
    pub half_period: int,
    pub count: int,
}

/// The half-period, in samples, of frequency `f` at `sample_rate`: the
/// sample rate over twice the frequency in counter units, rounded down.
pub open spec fn half_period_of(f: int, sample_rate: int) -> int {
    (sample_rate * COUNT_ONE) / (2 * f)
}

/// A count of up to two periods `w`, taken back into the first one.
pub open spec fn folded(c: int, w: int) -> int {
    if c >= w {
        c - w
    } else {
        c
    }
}

impl SquareModel {
    /// The sample rate is positive, the period is at least one sample, and
    /// the count is less than the longest period and one sample.
    pub open spec fn wf(self) -> bool {
        &&& 0 < self.sample_rate <= i64::MAX
        &&& COUNT_ONE <= 2 * self.half_period
        &&& self.half_period < HALF_PERIOD_MAX
        &&& 0 <= self.count < 2 * HALF_PERIOD_MAX + COUNT_ONE
    }

    /// The count is less than one period and one sample, so that one wrap
    /// takes it back into the period. A new generator is settled and stays
    /// so; one that was retuned to a shorter period may take some samples to
    /// settle again.
    pub open spec fn settled(self) -> bool {
        self.count < 2 * self.half_period + COUNT_ONE
    }

    /// The sample emitted next: -1 in the second half of the period, 1 in
    /// the first half and past the period's end.
    pub open spec fn output(self) -> Sample {
        if self.half_period <= self.count < 2 * self.half_period {
            Sample((-SAMPLE_ONE) as i32)
        } else {
            Sample(SAMPLE_ONE)
        }
    }

    /// The state after one sample: a count past the period's end falls by
    /// the period; then one sample is counted.
    pub open spec fn next(self) -> SquareModel {
        SquareModel { count: folded(self.count, 2 * self.half_period) + COUNT_ONE, ..self }
    }

    /// The state after `n` samples.
    pub open spec fn advanced(self, n: nat) -> SquareModel
        decreases n,
    {
        if n == 0 {
            self
        } else {
            self.advanced((n - 1) as nat).next()
        }
    }

    /// The frequency that the half-period stands for: the sample rate over
    /// twice the half-period, rounded down.
    pub open spec fn frequency(self) -> Math {
        Math(((self.sample_rate * COUNT_ONE) / (2 * self.half_period)) as i64)
    }

    /// The state with the half-period of frequency `f`, the count kept.
    pub open spec fn retuned(self, f: Math) -> SquareModel {
        SquareModel { half_period: half_period_of(f.0 as int, self.sample_rate), ..self }
    }
}

/// Struct for generating square wave samples at a specified frequency
pub struct Square {
    sample_rate: Math,
    ind: u128,
    inv: u128,
}

impl View for Square {
    type V = SquareModel;

    closed spec fn view(&self) -> SquareModel {
        SquareModel {
            sample_rate: self.sample_rate.0 as int,
            half_period: self.inv as int,
            count: self.ind as int,
        }
    }
}

impl WellFormed for Square {
    open spec fn wf(&self) -> bool {
        self@.wf()
    }
}

/// A half-period derived from a frequency is at least half a sample and
/// gives that frequency back, both roundings being downwards.
pub proof fn lemma_square_frequency_round_trip(f: Math, sample_rate: Math)
    requires
        Square::accepts(f, sample_rate),
    ensures
        COUNT_ONE <= 2 * half_period_of(f.0 as int, sample_rate.0 as int),
        half_period_of(f.0 as int, sample_rate.0 as int) < HALF_PERIOD_MAX,
        (SquareModel {
            sample_rate: sample_rate.0 as int,
            half_period: half_period_of(f.0 as int, sample_rate.0 as int),
            count: 0,
        }).frequency() == f,
{
    let fi = f.0 as int;
    let ri = sample_rate.0 as int;
    let n = ri * COUNT_ONE;
    let d = 2 * fi;
    let q = n / d;
    lemma_fundamental_div_mod(n, d);
    lemma_mod_bound(n, d);
    assert(n == d * q + n % d);
    assert(q >= 0x8000_0000_0000_0000) by (nonlinear_arith)
        requires
            d * q + d > ri * 0x1_0000_0000_0000_0000,
            d == 2 * fi,
            0 < fi <= ri,
    ;
    assert(q < 0x4000_0000_0000_0000_0000_0000_0000_0000) by (nonlinear_arith)
        requires
            d * q <= ri * 0x1_0000_0000_0000_0000,
            d >= 2,
            0 < ri < 0x8000_0000_0000_0000,
    ;
    let r = n - fi * (2 * q);
    assert(fi * (2 * q) == d * q) by (nonlinear_arith)
        requires
            d == 2 * fi,
    ;
    assert(0 <= r < 2 * q);
    lemma_fundamental_div_mod_converse_div(n, 2 * q, fi, r);
}

impl FreqMod for Square {
    type Source = ();

    open spec fn usable(source: ()) -> bool {
        true
    }

    /// Both are positive, and the frequency is at most the sample rate, so
    /// that a period lasts one sample at least and one wrap per sample is
    /// enough.
    open spec fn accepts(f: Math, sample_rate: Math) -> bool {
        0 < f.0 <= sample_rate.0
    }

    open spec fn sample_rate(&self) -> Math {
        Math(self@.sample_rate as i64)
    }

    open spec fn frequency(&self) -> Math {
        self@.frequency()
    }

    /// Creates a new object for the given frequency, with the count at 0.
    ///
    /// # Parameters
    ///
    /// * `f` - The frequency for the new object
    /// * `sample_rate` - The sample rate that will be used.
    /// * `source` - Nothing: the wave is computed.
    fn new(f: Math, sample_rate: Math, source: ()) -> (r: Result<Square, Error>)
        ensures
            r is Ok ==> r->Ok_0@ == (SquareModel {
                sample_rate: sample_rate.0 as int,
                half_period: half_period_of(f.0 as int, sample_rate.0 as int),
                count: 0,
            }),
    {
        if f.0 <= 0 || sample_rate.0 <= 0 || f.0 > sample_rate.0 {
            return Err(Error::InvalidParameter);
        }
        proof {
            lemma_square_frequency_round_trip(f, sample_rate);
        }
        let inv: u128 = ((sample_rate.0 as u128) * COUNT_ONE) / (2 * (f.0 as u128));
        Ok(Square { sample_rate, ind: 0, inv })
    }

    /// The count stays where it is.
    fn set_frequency(&mut self, f: Math) -> (r: Result<(), Error>)
        ensures
            r is Ok ==> final(self)@ == old(self)@.retuned(f),
    {
        if f.0 <= 0 || f.0 > self.sample_rate.0 {
            return Err(Error::InvalidParameter);
        }
        proof {
            lemma_square_frequency_round_trip(f, self.sample_rate);
        }
        let inv: u128 = ((self.sample_rate.0 as u128) * COUNT_ONE) / (2 * (f.0 as u128));
        self.inv = inv;
        Ok(())
    }

    fn get_frequency(&self) -> (f: Math) {
        let n: u128 = (self.sample_rate.0 as u128) * COUNT_ONE;
        let d: u128 = 2 * self.inv;
        let q: u128 = n / d;
        proof {
            lemma_fundamental_div_mod(n as int, d as int);
            lemma_mod_bound(n as int, d as int);
            assert(q <= self.sample_rate.0) by (nonlinear_arith)
                requires
                    d * q <= self.sample_rate.0 * 0x1_0000_0000_0000_0000,
                    d >= 0x1_0000_0000_0000_0000,
                    q >= 0,
            ;
        }
        Math(q as i64)
    }
}

impl Generator for Square {
    open spec fn emits(&self, y: Sample, next: Self) -> bool {
        y == self@.output() && next@ == self@.next()
    }

    fn process(&mut self) -> (y: Sample) {
        let y: Sample = if self.ind >= self.inv && self.ind < 2 * self.inv {
            Sample(-SAMPLE_ONE)
        } else {
            Sample(SAMPLE_ONE)
        };

        if self.ind >= 2 * self.inv {
            self.ind = self.ind - 2 * self.inv;
        }

        self.ind = self.ind + COUNT_ONE;

        y
    }
}

impl BlockGenerator for Square {
    /// Slot `i` holds what the generator emits after `i` samples, and the
    /// generator is left where as many samples as the block holds take it.
    fn process_block(&mut self, x: &mut [Sample])
        ensures
            final(self)@ == old(self)@.advanced(old(x)@.len()),
            forall|i: int|
                0 <= i < old(x)@.len() ==> #[trigger] final(x)@[i] == old(self)@.advanced(
                    i as nat,
                ).output(),
    {
        let n: usize = x.len();
        let ghost mut trace: Seq<Square> = seq![*self];
        let mut i: usize = 0;
        while i < n
            invariant
                i <= n,
                x@.len() == n,
                n == old(x)@.len(),
                self.wf(),
                self@ == old(self)@.advanced(i as nat),
                forall|j: int|
                    0 <= j < i ==> #[trigger] x@[j] == old(self)@.advanced(j as nat).output(),
                is_run(trace, x@.take(i as int)),
                trace[0] == *old(self),
                trace.last() == *self,
            decreases n - i,
        {
            let ghost filled = x@.take(i as int);
            let y = self.process();
            x[i] = y;
            proof {
                lemma_run_extends(trace, filled, y, *self);
                trace = trace.push(*self);
                assert(x@.take(i + 1) =~= filled.push(y));
            }
            i = i + 1;
        }
        assert(x@.take(n as int) =~= x@);
    }
}

impl Clone for Square {
    /// The copy keeps the sample rate and the half-period, and so the
    /// frequency; its count starts at 0 again.
    fn clone(&self) -> (c: Self)
        ensures
            c@ == (SquareModel { count: 0, ..self@ }),
            c.frequency() == self.frequency(),
            c.sample_rate() == self.sample_rate(),
            self.wf() ==> c.wf(),
    {
        Square { sample_rate: self.sample_rate, ind: 0, inv: self.inv }
    }
}

/// After `n` samples of a settled generator, one at least, the count is one sample more than what
/// is left of the count at the start and the `n - 1` samples after it, once
/// all whole periods are taken away; the half-period and the sample rate are
/// what they were.
pub proof fn lemma_square_closed_form(s: SquareModel, n: nat)
    requires
        s.wf(),
        s.settled(),
        n >= 1,
    ensures
        s.advanced(n).wf(),
        s.advanced(n).settled(),
        s.advanced(n).sample_rate == s.sample_rate,
        s.advanced(n).half_period == s.half_period,
        s.advanced(n).count == (folded(s.count, 2 * s.half_period) + (n - 1) * COUNT_ONE) % (2
            * s.half_period) + COUNT_ONE,
    decreases n,
{
    let w = 2 * s.half_period;
    let c0 = folded(s.count, w);
    if n == 1 {
        assert(s.advanced(0) == s);
        assert(s.advanced(1) == s.next());
        lemma_fundamental_div_mod_converse_mod(c0, w, 0, c0);
    } else {
        let m = (n - 1) as nat;
        let t = s.advanced(m);
        lemma_square_closed_form(s, m);
        assert(s.advanced(n) == t.next());
        let x = c0 + (m - 1) * COUNT_ONE;
        let r = x % w;
        lemma_mod_bound(x, w);
        assert(t.count == r + COUNT_ONE);
        let y = r + COUNT_ONE;
        assert(folded(y, w) == y % w) by {
            if y >= w {
                lemma_fundamental_div_mod_converse_mod(y, w, 1, y - w);
            } else {
                lemma_fundamental_div_mod_converse_mod(y, w, 0, y);
            }
        }
        assert((COUNT_ONE + r) % w == (COUNT_ONE + x) % w) by {
            lemma_add_mod_noop_right(COUNT_ONE as int, x, w);
        }
        assert(c0 + (n - 1) * COUNT_ONE == COUNT_ONE + x);
    }
}

/// Within the first period of a generator that starts at count 0 no whole
/// period has been taken away yet: the count is the number of samples, and
/// the sample emitted is 1 before the half-period and -1 from there on.
pub proof fn lemma_square_first_period(s: SquareModel, n: nat)
    requires
        s.wf(),
        s.count == 0,
        n >= 1 ==> (n - 1) * COUNT_ONE < 2 * s.half_period,
    ensures
        s.advanced(n).count == n * COUNT_ONE,
        s.advanced(n).half_period == s.half_period,
        n * COUNT_ONE < s.half_period ==> s.advanced(n).output() == Sample(SAMPLE_ONE),
        s.half_period <= n * COUNT_ONE < 2 * s.half_period ==> s.advanced(n).output() == Sample(
            (-SAMPLE_ONE) as i32,
        ),
{
    if n >= 1 {
        lemma_square_closed_form(s, n);
        let x = (n - 1) * COUNT_ONE;
        lemma_fundamental_div_mod_converse_mod(x, 2 * s.half_period, 0, x);
    }
}

} // verus!
