//! # Types
//!
//! The numeric types shared by every generator. All of them are fixed-point
//! numbers held in integers, so that every operation on them is exact and can
//! be reasoned about.

use vstd::prelude::*;

verus! {

/// The integer behind the fast precision, the one samples are emitted in.
pub type FastMath = i32;

/// The integer behind the accurate precision, the one tunings and wavetable
/// entries are held in.
pub type AccurateMath = i64;

/// The number one in the accurate precision: 32 fractional bits.
pub const MATH_ONE: AccurateMath = 0x1_0000_0000;

/// The number one in the fast precision: 30 fractional bits.
pub const SAMPLE_ONE: FastMath = 0x4000_0000;

/// A frequency or a sample rate, in hertz: the integer held is the value times
/// [`MATH_ONE`].
#[derive(Clone, Copy, Debug, PartialEq, Eq, Structural)]
pub struct Math(pub AccurateMath);

/// One audio sample: the integer held is the amplitude times [`SAMPLE_ONE`].
/// Generators stay within -1 and 1.
#[derive(Clone, Copy, Debug, PartialEq, Eq, Structural)]
pub struct Sample(pub FastMath);

/// Why a generator could not be made or retuned.
#[derive(Clone, Copy, Debug, PartialEq, Eq, Structural)]
pub enum Error {
    /// A frequency or sample rate that is not positive, a frequency too high
    /// for the sample rate, or a table that is not a wavetable.
    InvalidParameter,
    /// The operating system handed out no random numbers to seed a noise
    /// engine with.
    EngineUnseeded,
}

impl Math {
    /// The whole number `v`, in hertz.
    pub fn from_int(v: i32) -> (m: Math)
        ensures
            m.0 == v * MATH_ONE,
    {
        Math((v as i64) * MATH_ONE)
    }
}

} // verus!
