//! # Sine
//!
//! A sinusoidal sample generator: it reads one period of the wave from a
//! shared table, at a fractional index, and interpolates between neighbours.

use crate::types::{AccurateMath, Error, Math, Sample, MATH_ONE};
use crate::{is_run, lemma_run_extends, BlockGenerator, FreqMod, Generator, WellFormed};
use vstd::arithmetic::div_mod::lemma_fundamental_div_mod;
use vstd::prelude::*;

verus! {

/// The number of elements in the wavetable.
pub const WAVETABLE_SIZE: usize = 1_048_576;

/// The number one in the unit of the table index: 44 fractional bits.
pub const INDEX_ONE: i128 = 0x1000_0000_0000;

/// The table's size in index units.
pub const INDEX_SPAN: u128 = 0x1_0000_0000_0000_0000;

/// The last entry of the table.
pub const LAST_ENTRY: usize = 1_048_575;

/// Where the index wraps: at the last entry, one short of the table's size,
/// in index units.
pub const INDEX_WRAP: i128 = 0xFFFF_F000_0000_0000;

/// Whether `samples` can serve as a wavetable: it has [`WAVETABLE_SIZE`]
/// entries, each from -1 to 1 in the accurate precision.
pub open spec fn is_wavetable(samples: Seq<AccurateMath>) -> bool {
    &&& samples.len() == WAVETABLE_SIZE
    &&& forall|i: int| 0 <= i < samples.len() ==> -MATH_ONE <= #[trigger] samples[i] <= MATH_ONE
}

/// One period of a wave, sampled at [`WAVETABLE_SIZE`] points. It is built
/// once, never changes, and is shared by reference among the generators that
/// read it.
pub struct Wavetable {
    samples: Vec<AccurateMath>,
}

impl View for Wavetable {
    type V = Seq<AccurateMath>;

    closed spec fn view(&self) -> Seq<AccurateMath> {
        self.samples@
    }
}

impl WellFormed for Wavetable {
    open spec fn wf(&self) -> bool {
        is_wavetable(self@)
    }
}

impl Wavetable {
    /// Takes `samples` as the table, if they can serve as one.
    pub fn from_samples(samples: Vec<AccurateMath>) -> (r: Result<Wavetable, Error>)
        ensures
            r is Ok <==> is_wavetable(samples@),
            r is Ok ==> r->Ok_0@ == samples@ && r->Ok_0.wf(),
            r is Err ==> r->Err_0 == Error::InvalidParameter,
    {
        if samples.len() != WAVETABLE_SIZE {
            return Err(Error::InvalidParameter);
        }
        let mut i: usize = 0;
        while i < WAVETABLE_SIZE
            invariant
                i <= WAVETABLE_SIZE,
                samples@.len() == WAVETABLE_SIZE,
                forall|j: int| 0 <= j < i ==> -MATH_ONE <= #[trigger] samples@[j] <= MATH_ONE,
            decreases WAVETABLE_SIZE - i,
        {
            if samples[i] < -MATH_ONE || samples[i] > MATH_ONE {
                return Err(Error::InvalidParameter);
            }
            i = i + 1;
        }
        Ok(Wavetable { samples })
    }

    /// The entry at `i`.
    pub fn get(&self, i: usize) -> (v: AccurateMath)
        requires
            i < self@.len(),
        ensures
            v == self@[i as int],
    {
        self.samples[i]
    }
}

/// What a sine generator is, as numbers: the sample rate in units of
/// `1 / MATH_ONE` hertz, the increment and the index in units of
/// `1 / INDEX_ONE` table entries, and the table it reads.
pub struct SineModel {
    pub sample_rate: int,
    pub rate: int,
    pub index: int,
    pub table: Seq<AccurateMath>,
}

/// The increment per sample for frequency `f` at `sample_rate`: their quotient
/// times the table's size in index units, rounded down.
pub open spec fn rate_of(f: int, sample_rate: int) -> int {
    (f * INDEX_SPAN) / sample_rate
}

/// The value between table entries `a` and `b`, at the fraction `g` of the way
/// from `a` to `b`: `(1 - g) * a + g * b`, narrowed to the fast precision.
pub open spec fn interpolate(a: int, b: int, g: int) -> int {
    ((INDEX_ONE - g) * a + g * b) / 0x4000_0000_0000
}

impl SineModel {
    /// The sample rate is positive, the increment is at most the wrap, the
    /// index lies from 0 up to, but not at, the wrap, and the table is one.
    pub open spec fn wf(self) -> bool {
        &&& 0 < self.sample_rate <= i64::MAX
        &&& 0 <= self.rate <= INDEX_WRAP
        &&& 0 <= self.index < INDEX_WRAP
        &&& is_wavetable(self.table)
    }

    /// The entry at or below the index.
    pub open spec fn lower(self) -> int {
        self.index / (INDEX_ONE as int)
    }

    /// The entry after [`Self::lower`]: the first one, past the table's end.
    pub open spec fn upper(self) -> int {
        if self.lower() + 1 >= WAVETABLE_SIZE {
            0
        } else {
            self.lower() + 1
        }
    }

    /// How far the index is past [`Self::lower`], in index units.
    pub open spec fn fraction(self) -> int {
        self.index - self.lower() * INDEX_ONE
    }

    /// The sample emitted next: the table read at the index, interpolated
    /// between the two entries around it.
    pub open spec fn output(self) -> Sample {
        Sample(
            interpolate(
                self.table[self.lower()] as int,
                self.table[self.upper()] as int,
                self.fraction(),
            ) as i32,
        )
    }

    /// The state after one sample: the index moves on by the increment, and
    /// falls by the wrap once it has reached it.
    pub open spec fn next(self) -> SineModel {
        let i = self.index + self.rate;
        SineModel { index: if i >= INDEX_WRAP { i - INDEX_WRAP } else { i }, ..self }
    }

    /// The state after `n` samples.
    pub open spec fn advanced(self, n: nat) -> SineModel
        decreases n,
    {
        if n == 0 {
            self
        } else {
            self.advanced((n - 1) as nat).next()
        }
    }

    /// The frequency that the increment stands for: increment times sample
    /// rate over the table's size, rounded up.
    pub open spec fn frequency(self) -> Math {
        Math(((self.rate * self.sample_rate + INDEX_SPAN - 1) / (INDEX_SPAN as int)) as i64)
    }

    /// The state with the increment of frequency `f`, the index kept.
    pub open spec fn retuned(self, f: Math) -> SineModel {
        SineModel { rate: rate_of(f.0 as int, self.sample_rate), ..self }
    }
}

/// Struct for generating sinusoidal samples.
pub struct Sine<'a> {
    ind: i128,
    inc: i128,
    sample_rate: Math,
    table: &'a Wavetable,
}

impl<'a> View for Sine<'a> {
    type V = SineModel;

    closed spec fn view(&self) -> SineModel {
        SineModel {
            sample_rate: self.sample_rate.0 as int,
            rate: self.inc as int,
            index: self.ind as int,
            table: self.table@,
        }
    }
}

impl<'a> WellFormed for Sine<'a> {
    open spec fn wf(&self) -> bool {
        self@.wf()
    }
}

/// An increment derived from a frequency is at most the wrap and gives that
/// frequency back: rounding down on the way in is undone by rounding up on
/// the way out.
pub proof fn lemma_sine_frequency_round_trip(f: Math, sample_rate: Math, table: Seq<AccurateMath>)
    requires
        Sine::accepts(f, sample_rate),
    ensures
        0 < rate_of(f.0 as int, sample_rate.0 as int) <= INDEX_WRAP,
        (SineModel {
            sample_rate: sample_rate.0 as int,
            rate: rate_of(f.0 as int, sample_rate.0 as int),
            index: 0,
            table,
        }).frequency() == f,
{
    let fi = f.0 as int;
    let ri = sample_rate.0 as int;
    let n = fi * INDEX_SPAN;
    let q = n / ri;
    lemma_fundamental_div_mod(n, ri);
    assert(0 <= n % ri < ri);
    assert(n == ri * q + n % ri);
    assert(q * ri == ri * q) by (nonlinear_arith);
    assert(q <= INDEX_WRAP) by (nonlinear_arith)
        requires
            ri * q <= fi * 1_048_576 * INDEX_ONE,
            fi * 1_048_576 <= ri * 1_048_575,
            INDEX_WRAP == 1_048_575 * INDEX_ONE,
            0 < ri,
    ;
    assert(q > 0) by (nonlinear_arith)
        requires
            ri * q + ri > fi * INDEX_SPAN,
            INDEX_SPAN == 0x1_0000_0000_0000_0000,
            0 < fi,
            0 < ri < INDEX_SPAN,
    ;
}

/// An interpolated value lies between the two entries it is taken from, each
/// narrowed to the fast precision, and so from -1 to 1; at the fraction 0 it
/// is the first entry.
pub proof fn lemma_interpolate_bounds(a: int, b: int, g: int)
    requires
        -MATH_ONE <= a <= MATH_ONE,
        -MATH_ONE <= b <= MATH_ONE,
        0 <= g <= INDEX_ONE,
    ensures
        -(INDEX_ONE * MATH_ONE) <= (INDEX_ONE - g) * a + g * b <= INDEX_ONE * MATH_ONE,
        a <= b ==> a / 4 <= interpolate(a, b, g) <= b / 4,
        b <= a ==> b / 4 <= interpolate(a, b, g) <= a / 4,
        -0x4000_0000 <= interpolate(a, b, g) <= 0x4000_0000,
        interpolate(a, b, 0) == a / 4,
{
    let sum = (INDEX_ONE - g) * a + g * b;
    assert(a <= b ==> INDEX_ONE * a <= sum <= INDEX_ONE * b) by (nonlinear_arith)
        requires
            sum == (INDEX_ONE - g) * a + g * b,
            0 <= g <= INDEX_ONE,
    ;
    assert(b <= a ==> INDEX_ONE * b <= sum <= INDEX_ONE * a) by (nonlinear_arith)
        requires
            sum == (INDEX_ONE - g) * a + g * b,
            0 <= g <= INDEX_ONE,
    ;
    assert((INDEX_ONE - 0) * a + 0 * b == INDEX_ONE * a) by (nonlinear_arith);
}

/// The sample that a generator emits lies from -1 to 1.
pub proof fn lemma_sine_output_bounds(s: SineModel)
    requires
        s.wf(),
    ensures
        0 <= s.lower() < LAST_ENTRY,
        s.upper() == s.lower() + 1,
        0 <= s.fraction() < INDEX_ONE,
        -0x4000_0000 <= s.output().0 <= 0x4000_0000,
{
    lemma_interpolate_bounds(
        s.table[s.lower()] as int,
        s.table[s.upper()] as int,
        s.fraction(),
    );
}

/// After `n` samples the index is what is left of the index at the start
/// plus `n` increments, once all whole wraps are taken away; the increment,
/// the sample rate and the table are what they were.
pub proof fn lemma_sine_closed_form(s: SineModel, n: nat)
    requires
        s.wf(),
    ensures
        s.advanced(n).wf(),
        s.advanced(n).sample_rate == s.sample_rate,
        s.advanced(n).rate == s.rate,
        s.advanced(n).table == s.table,
        s.advanced(n).index == (s.index + n * s.rate) % (INDEX_WRAP as int),
    decreases n,
{
    if n > 0 {
        let m = (n - 1) as nat;
        lemma_sine_closed_form(s, m);
        assert(n * s.rate == m * s.rate + s.rate) by (nonlinear_arith)
            requires
                n == m + 1,
        ;
    }
}

impl<'a> FreqMod for Sine<'a> {
    type Source = &'a Wavetable;

    /// The table is one.
    open spec fn usable(source: &'a Wavetable) -> bool {
        source.wf()
    }

    /// Both are positive, and the frequency is low enough for the increment
    /// to be at most the wrap, so that one wrap per sample is enough.
    open spec fn accepts(f: Math, sample_rate: Math) -> bool {
        &&& 0 < f.0
        &&& 0 < sample_rate.0
        &&& f.0 * WAVETABLE_SIZE <= sample_rate.0 * LAST_ENTRY
    }

    open spec fn sample_rate(&self) -> Math {
        Math(self@.sample_rate as i64)
    }

    open spec fn frequency(&self) -> Math {
        self@.frequency()
    }

    /// Creates a new object for the given frequency, reading the table
    /// `source`, with the index at 0.
    ///
    /// # Parameters
    ///
    /// * `f` - The frequency for the new object
    /// * `sample_rate` - The sample rate that will be used.
    /// * `source` - The wavetable, shared with every other reader.
    fn new(f: Math, sample_rate: Math, source: &'a Wavetable) -> (r: Result<Sine<'a>, Error>)
        ensures
            r is Ok ==> r->Ok_0@ == (SineModel {
                sample_rate: sample_rate.0 as int,
                rate: rate_of(f.0 as int, sample_rate.0 as int),
                index: 0,
                table: source@,
            }),
    {
        if f.0 <= 0 || sample_rate.0 <= 0 {
            return Err(Error::InvalidParameter);
        }
        if (f.0 as u128) * 1_048_576 > (sample_rate.0 as u128) * 1_048_575 {
            return Err(Error::InvalidParameter);
        }
        proof {
            lemma_sine_frequency_round_trip(f, sample_rate, source@);
        }
        let inc: u128 = ((f.0 as u128) * INDEX_SPAN) / (sample_rate.0 as u128);
        Ok(Sine { ind: 0, inc: inc as i128, sample_rate, table: source })
    }

    /// The index stays where it is.
    fn set_frequency(&mut self, f: Math) -> (r: Result<(), Error>)
        ensures
            r is Ok ==> final(self)@ == old(self)@.retuned(f),
    {
        if f.0 <= 0 {
            return Err(Error::InvalidParameter);
        }
        if (f.0 as u128) * 1_048_576 > (self.sample_rate.0 as u128) * 1_048_575 {
            return Err(Error::InvalidParameter);
        }
        proof {
            lemma_sine_frequency_round_trip(f, self.sample_rate, self.table@);
        }
        let inc: u128 = ((f.0 as u128) * INDEX_SPAN) / (self.sample_rate.0 as u128);
        self.inc = inc as i128;
        Ok(())
    }

    fn get_frequency(&self) -> (f: Math) {
        assert(0 <= self.inc * self.sample_rate.0 <= INDEX_WRAP * self.sample_rate.0)
            by (nonlinear_arith)
            requires
                0 <= self.inc <= INDEX_WRAP,
                0 < self.sample_rate.0,
        ;
        let p: u128 = (self.inc as u128) * (self.sample_rate.0 as u128);
        Math(((p + (INDEX_SPAN - 1)) / INDEX_SPAN) as i64)
    }
}

impl<'a> Generator for Sine<'a> {
    open spec fn emits(&self, y: Sample, next: Self) -> bool {
        y == self@.output() && next@ == self@.next()
    }

    fn process(&mut self) -> (y: Sample) {
        let k: usize = (self.ind / INDEX_ONE) as usize;
        let k1: usize = if k + 1 >= WAVETABLE_SIZE {
            0
        } else {
            k + 1
        };
        let g: i128 = self.ind - (k as i128) * INDEX_ONE;
        let a: i128 = self.table.get(k) as i128;
        let b: i128 = self.table.get(k1) as i128;
        proof {
            lemma_interpolate_bounds(a as int, b as int, g as int);
            assert(0 <= (INDEX_ONE - g) * a <= INDEX_ONE * MATH_ONE || -(INDEX_ONE * MATH_ONE) <= (
            INDEX_ONE - g) * a <= 0) by (nonlinear_arith)
                requires
                    -MATH_ONE <= a <= MATH_ONE,
                    0 <= g <= INDEX_ONE,
            ;
            assert(0 <= g * b <= INDEX_ONE * MATH_ONE || -(INDEX_ONE * MATH_ONE) <= g * b <= 0)
                by (nonlinear_arith)
                requires
                    -MATH_ONE <= b <= MATH_ONE,
                    0 <= g <= INDEX_ONE,
            ;
        }
        let sum: i128 = (INDEX_ONE - g) * a + g * b;
        let y: i128 = (sum + INDEX_ONE * (MATH_ONE as i128)) / 0x4000_0000_0000 - 0x4000_0000;

        self.ind = self.ind + self.inc;

        if self.ind >= INDEX_WRAP {
            self.ind = self.ind - INDEX_WRAP;
        }

        Sample(y as i32)
    }
}

impl<'a> BlockGenerator for Sine<'a> {
    /// Slot `i` holds what the generator emits after `i` samples, and the
    /// generator is left where as many samples as the block holds take it.
    fn process_block(&mut self, x: &mut [Sample])
        ensures
            final(self)@ == old(self)@.advanced(old(x)@.len()),
            forall|i: int|
                0 <= i < old(x)@.len() ==> #[trigger] final(x)@[i] == old(self)@.advanced(
                    i as nat,
                ).output(),
    {
        let n: usize = x.len();
        let ghost mut trace: Seq<Sine<'a>> = seq![*self];
        let mut i: usize = 0;
        while i < n
            invariant
                i <= n,
                x@.len() == n,
                n == old(x)@.len(),
                self.wf(),
                self@ == old(self)@.advanced(i as nat),
                forall|j: int|
                    0 <= j < i ==> #[trigger] x@[j] == old(self)@.advanced(j as nat).output(),
                is_run(trace, x@.take(i as int)),
                trace[0] == *old(self),
                trace.last() == *self,
            decreases n - i,
        {
            let ghost filled = x@.take(i as int);
            let y = self.process();
            x[i] = y;
            proof {
                lemma_run_extends(trace, filled, y, *self);
                trace = trace.push(*self);
                assert(x@.take(i + 1) =~= filled.push(y));
            }
            i = i + 1;
        }
        assert(x@.take(n as int) =~= x@);
    }
}

impl<'a> Clone for Sine<'a> {
    /// The copy keeps the sample rate, the increment and the table, and so
    /// the frequency; its index starts at 0 again.
    fn clone(&self) -> (c: Self)
        ensures
            c@ == (SineModel { index: 0, ..self@ }),
            c.frequency() == self.frequency(),
            c.sample_rate() == self.sample_rate(),
            self.wf() ==> c.wf(),
    {
        Sine { ind: 0, inc: self.inc, sample_rate: self.sample_rate, table: self.table }
    }
}

} // verus!
