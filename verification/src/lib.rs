//! # BAE_Gen
//!
//! The common basic sound generators: sine, sawtooth, square, triangle, white
//! noise and silence. Each one hands out one sample per call, or fills a block.
//!
//! Every generator works in fixed-point integers. Its state has a mathematical
//! model (its view), and what each call returns and leaves behind is stated
//! over that model.

use vstd::prelude::*;

pub mod mono_wav;
pub mod noise;
pub mod sawtooth;
pub mod sine;
pub mod square;
pub mod triangle;
pub mod types;
pub mod zero;

pub use mono_wav::{MonoWav, ResamplerSetup};
pub use noise::Noise;
pub use sawtooth::Sawtooth;
pub use sine::{Sine, Wavetable};
pub use square::Square;
pub use triangle::Triangle;
pub use types::{AccurateMath, Error, FastMath, Math, Sample, MATH_ONE, SAMPLE_ONE};
pub use zero::Zero;

verus! {

/// Types whose values carry an invariant.
pub trait WellFormed {
    /// The invariant: constructors establish it, and every method keeps it.
    spec fn wf(&self) -> bool;
}

/// Frequency Moderator. This trait defines types who take in a frequency as a
/// primary argument, next to the sample rate they were made for.
pub trait FreqMod: WellFormed + Sized {
    /// What an object is made around, beside its tuning: a table to read, or
    /// nothing.
    type Source;

    /// Whether `source` is fit to make an object around.
    spec fn usable(source: Self::Source) -> bool;

    /// Whether frequency `f` can be played at `sample_rate`.
    spec fn accepts(f: Math, sample_rate: Math) -> bool;

    /// The sample rate the object was made for.
    spec fn sample_rate(&self) -> Math;

    /// The frequency that the stored increment stands for.
    spec fn frequency(&self) -> Math;

    /// Creates a new object for the given frequency. A tuning that is not
    /// accepted is refused.
    ///
    /// # Parameters
    ///
    /// * `f` - The frequency for the new object
    /// * `sample_rate` - The sample rate that will be used.
    /// * `source` - What the object is made around.
    fn new(f: Math, sample_rate: Math, source: Self::Source) -> (r: Result<Self, Error>)
        requires
            Self::usable(source),
        ensures
            r is Ok <==> Self::accepts(f, sample_rate),
            r is Ok ==> r->Ok_0.wf(),
            r is Ok ==> r->Ok_0.frequency() == f && r->Ok_0.sample_rate() == sample_rate,
            r is Err ==> r->Err_0 == Error::InvalidParameter,
    ;

    /// Sets the frequency of the given object. A frequency that the object's
    /// sample rate does not accept is refused, and the object stays as it was.
    fn set_frequency(&mut self, f: Math) -> (r: Result<(), Error>)
        requires
            old(self).wf(),
        ensures
            final(self).wf(),
            final(self).sample_rate() == old(self).sample_rate(),
            r is Ok <==> Self::accepts(f, old(self).sample_rate()),
            r is Ok ==> final(self).frequency() == f,
            r is Err ==> r->Err_0 == Error::InvalidParameter && *final(self) == *old(self),
    ;

    /// Gets the current frequency of the given object.
    fn get_frequency(&self) -> (f: Math)
        requires
            self.wf(),
        ensures
            f == self.frequency(),
    ;
}

/// The `Generator` trait defines types that create audio samples.
pub trait Generator: WellFormed + Sized {
    /// Whether one call of `process` on `self` may return `y` and leave `next`.
    spec fn emits(&self, y: Sample, next: Self) -> bool;

    /// Generates a rendered audio sample
    fn process(&mut self) -> (y: Sample)
        requires
            old(self).wf(),
        ensures
            final(self).wf(),
            old(self).emits(y, *final(self)),
    ;
}

/// Whether `states` is a chain of single steps that emits `ys` in order: each
/// state emits its sample and leaves the state after it.
pub open spec fn is_run<G: Generator>(states: Seq<G>, ys: Seq<Sample>) -> bool {
    &&& states.len() == ys.len() + 1
    &&& forall|i: int| 0 <= i < ys.len() ==> #[trigger] states[i].emits(ys[i], states[i + 1])
}

/// A run goes on by one step: the state it ends in emits `y` and leaves `next`.
pub proof fn lemma_run_extends<G: Generator>(states: Seq<G>, ys: Seq<Sample>, y: Sample, next: G)
    requires
        is_run(states, ys),
        states.last().emits(y, next),
    ensures
        is_run(states.push(next), ys.push(y)),
{
    let longer = states.push(next);
    let zs = ys.push(y);
    assert forall|i: int| 0 <= i < zs.len() implies #[trigger] longer[i].emits(
        zs[i],
        longer[i + 1],
    ) by {
        if i < ys.len() {
            assert(states[i].emits(ys[i], states[i + 1]));
        }
    }
}

/// The `BlockGenerator` trait defines types that create audio samples in blocks
/// or chunks.
pub trait BlockGenerator: Generator {
    /// Generates samples of rendered audio in blocks: the block holds what as
    /// many single calls of `process` would have returned, in order.
    fn process_block(&mut self, x: &mut [Sample])
        requires
            old(self).wf(),
        ensures
            final(self).wf(),
            final(x)@.len() == old(x)@.len(),
            exists|states: Seq<Self>|
                is_run(states, final(x)@) && states[0] == *old(self) && states.last() == *final(self),
    ;
}

} // verus!
