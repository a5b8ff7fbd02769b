//! # Noise
//!
//! A white noise generator.

use crate::types::{Error, Sample, SAMPLE_ONE};
use crate::{is_run, BlockGenerator, Generator, WellFormed};
use vstd::prelude::*;

verus! {

/// The standard random number engine of the `rand` crate: a generator of
/// pseudo-random bits that holds its whole state itself. Nothing is known of
/// what it holds.
#[verifier::external_type_specification]
#[verifier::external_body]
pub struct ExStdRng(rand::rngs::StdRng);

/// Calls `rand::SeedableRng::from_rng` on `rand::rngs::OsRng`, which asks the
/// operating system for a seed and makes an engine of it. Where the operating
/// system hands out no seed, the call returns an error, and there is no
/// engine. Nothing is claimed of which of the two happens, nor of the engine.
#[verifier::external_body]
fn seeded_engine() -> (engine: Option<rand::rngs::StdRng>) {
    rand::SeedableRng::from_rng(rand::rngs::OsRng).ok()
}

/// `Clone::clone` of the engine of `rand`: the copy holds the same state, and
/// goes its own way from there. Nothing is claimed of it.
pub assume_specification[ <rand::rngs::StdRng as Clone>::clone ](
    engine: &rand::rngs::StdRng,
) -> (copy: rand::rngs::StdRng)
;

/// Calls `rand::RngCore::next_u32`, which hands out the engine's next 32
/// bits and moves the engine on. Nothing is claimed of the value drawn but
/// its type.
#[verifier::external_body]
fn draw(engine: &mut rand::rngs::StdRng) -> (u: u32) {
    rand::RngCore::next_u32(engine)
}

/// The sample that the draw `u` stands for. The draw is a number from 0 up
/// to, but not at, 1, in units of 2 to the power -32; the sample is twice
/// that number less 1, narrowed to the fast precision.
pub open spec fn bipolar_of(u: u32) -> int {
    u / 2 - SAMPLE_ONE
}

/// The samples that the draws `us` stand for, in order.
pub open spec fn bipolar_run(us: Seq<u32>) -> Seq<Sample> {
    Seq::new(us.len(), |i: int| Sample(bipolar_of(us[i]) as i32))
}

/// The sum of the draws `us`.
pub open spec fn draw_sum(us: Seq<u32>) -> int
    decreases us.len(),
{
    if us.len() == 0 {
        0
    } else {
        draw_sum(us.drop_last()) + us.last()
    }
}

/// The sum of the samples `ys`, in sample units.
pub open spec fn sample_sum(ys: Seq<Sample>) -> int
    decreases ys.len(),
{
    if ys.len() == 0 {
        0
    } else {
        sample_sum(ys.drop_last()) + ys.last().0
    }
}

/// Maps a draw from 0 up to 1 onto a sample from -1 up to 1: `2 * u - 1`.
/// The sample is below 1 always, and above -1 for every draw but the two
/// lowest.
pub fn bipolar(u: u32) -> (y: Sample)
    ensures
        y.0 == bipolar_of(u),
        -SAMPLE_ONE <= y.0 < SAMPLE_ONE,
        u >= 2 ==> -SAMPLE_ONE < y.0,
{
    Sample(((u / 2) as i32) - SAMPLE_ONE)
}

/// Maps a run of draws onto a block of samples, slot by slot and in order:
/// slot `i` holds the sample of draw `i`. Slots past the last draw stay as
/// they are, and draws past the last slot are left out.
pub fn bipolar_block(us: &[u32], x: &mut [Sample])
    ensures
        final(x)@.len() == old(x)@.len(),
        forall|i: int|
            0 <= i < old(x)@.len() ==> #[trigger] final(x)@[i] == (if i < us@.len() {
                Sample(bipolar_of(us@[i]) as i32)
            } else {
                old(x)@[i]
            }),
        us@.len() == old(x)@.len() ==> final(x)@ == bipolar_run(us@),
{
    let n: usize = if us.len() < x.len() {
        us.len()
    } else {
        x.len()
    };
    let mut i: usize = 0;
    while i < n
        invariant
            i <= n,
            n <= us@.len(),
            n <= x@.len(),
            x@.len() == old(x)@.len(),
            forall|j: int| 0 <= j < i ==> #[trigger] x@[j] == Sample(bipolar_of(us@[j]) as i32),
            forall|j: int| i <= j < x@.len() ==> #[trigger] x@[j] == old(x)@[j],
        decreases n - i,
    {
        x[i] = bipolar(us[i]);
        i = i + 1;
    }
    assert(us@.len() == old(x)@.len() ==> x@ =~= bipolar_run(us@));
}

/// The map from draws to samples keeps the order of the draws, and two draws
/// share a sample only where they are neighbours.
pub proof fn lemma_bipolar_monotone(u: u32, v: u32)
    ensures
        u <= v ==> bipolar_of(u) <= bipolar_of(v),
        u + 2 <= v ==> bipolar_of(u) < bipolar_of(v),
{
}

/// Over a run, the samples are the draws under `2 * u - 1` and nothing else:
/// the sum of the draws, less one half for each draw, is twice the sum of
/// the samples, up to the half unit that each narrowing may take off. So the
/// mean of the samples is twice the mean of the draws less 1, up to one
/// unit of the fast precision.
pub proof fn lemma_bipolar_sum(us: Seq<u32>)
    ensures
        0 <= draw_sum(us) - us.len() * 0x8000_0000 - 2 * sample_sum(bipolar_run(us)) <= us.len(),
    decreases us.len(),
{
    if us.len() > 0 {
        let front = us.drop_last();
        lemma_bipolar_sum(front);
        assert(bipolar_run(us).drop_last() =~= bipolar_run(front));
        assert(bipolar_run(us).last().0 == bipolar_of(us.last()));
        assert(us.len() * 0x8000_0000 == front.len() * 0x8000_0000 + 0x8000_0000);
    } else {
        assert(bipolar_run(us).len() == 0);
    }
}

/// Struct for generating white noise audio samples.
pub struct Noise {
    engine: rand::rngs::StdRng,
}

impl Noise {
    /// The engine that the generator draws from.
    pub closed spec fn engine(&self) -> rand::rngs::StdRng {
        self.engine
    }

    /// Creates a white noise generator that draws from `engine`.
    pub fn from_engine(engine: rand::rngs::StdRng) -> (n: Noise)
        ensures
            n.engine() == engine,
    {
        Noise { engine }
    }

    /// Creates a new white noise generator, with an engine that the
    /// operating system has seeded. Where it hands out no seed, there is no
    /// generator.
    pub fn new() -> (r: Result<Noise, Error>)
        ensures
            r is Err ==> r->Err_0 == Error::EngineUnseeded,
    {
        match seeded_engine() {
            Some(engine) => Ok(Noise::from_engine(engine)),
            None => Err(Error::EngineUnseeded),
        }
    }

    /// Draws once for each slot of a block of `n` slots, in order. Where
    /// there is no slot, the engine is left alone.
    fn draws(&mut self, n: usize) -> (us: Vec<u32>)
        ensures
            us@.len() == n,
            n == 0 ==> *final(self) == *old(self),
    {
        let mut us: Vec<u32> = Vec::new();
        let mut i: usize = 0;
        while i < n
            invariant
                i <= n,
                us@.len() == i,
                i == 0 ==> *self == *old(self),
            decreases n - i,
        {
            us.push(draw(&mut self.engine));
            i = i + 1;
        }
        us
    }
}

impl Clone for Noise {
    /// The copy holds a copy of the engine as it stands.
    fn clone(&self) -> (n: Noise) {
        Noise { engine: self.engine.clone() }
    }
}

impl WellFormed for Noise {
    open spec fn wf(&self) -> bool {
        true
    }
}

impl Generator for Noise {
    /// Whatever is drawn, the sample is the image of some draw: it lies from
    /// -1 up to, but not at, 1.
    open spec fn emits(&self, y: Sample, next: Self) -> bool {
        exists|u: u32| y.0 == #[trigger] bipolar_of(u)
    }

    fn process(&mut self) -> (y: Sample)
        ensures
            -SAMPLE_ONE <= y.0 < SAMPLE_ONE,
    {
        let u: u32 = draw(&mut self.engine);
        bipolar(u)
    }
}

impl BlockGenerator for Noise {
    /// The block holds the samples of as many draws as it has slots, one
    /// draw for each slot and in order; each lies from -1 up to, but not at,
    /// 1.
    fn process_block(&mut self, x: &mut [Sample])
        ensures
            exists|us: Seq<u32>| us.len() == old(x)@.len() && final(x)@ == #[trigger] bipolar_run(us),
            forall|i: int|
                0 <= i < old(x)@.len() ==> -SAMPLE_ONE <= (#[trigger] final(x)@[i]).0 < SAMPLE_ONE,
    {
        let ghost before = *self;
        let us = self.draws(x.len());
        bipolar_block(us.as_slice(), x);
        proof {
            let ys = x@;
            assert(ys == bipolar_run(us@));
            let states = Seq::new(
                (ys.len() + 1) as nat,
                |i: int|
                    if i == 0 {
                        before
                    } else {
                        *self
                    },
            );
            assert forall|i: int| 0 <= i < ys.len() implies #[trigger] states[i].emits(
                ys[i],
                states[i + 1],
            ) by {
                assert(ys[i].0 == bipolar_of(us@[i]));
            }
            assert(is_run(states, ys));
            assert(states[0] == *old(self));
            assert(states.last() == *self) by {
                if ys.len() == 0 {
                    assert(*self == before);
                } else {
                    assert(states[ys.len() as int] == *self);
                }
            }
            assert forall|i: int| 0 <= i < ys.len() implies -SAMPLE_ONE <= (#[trigger] ys[i]).0
                < SAMPLE_ONE by {
                assert(ys[i].0 == bipolar_of(us@[i]));
            }
        }
    }
}

} // verus!
