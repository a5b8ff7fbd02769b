//! # Zero
//!
//! A 0 generator.

use crate::types::Sample;
use crate::{is_run, lemma_run_extends, BlockGenerator, Generator, WellFormed};
use vstd::prelude::*;

verus! {

/// Zero struct to allow for a Generator object that doesn't do anything.
#[derive(Default, Copy, Clone)]
pub struct Zero {}

impl Zero {
    /// Returns new Zero object.
    pub fn new() -> (z: Zero)
        ensures
            z == (Zero {  }),
    {
        Zero {  }
    }
}

impl WellFormed for Zero {
    open spec fn wf(&self) -> bool {
        true
    }
}

impl Generator for Zero {
    open spec fn emits(&self, y: Sample, next: Self) -> bool {
        y == Sample(0)
    }

    /// Every sample is 0.
    fn process(&mut self) -> (y: Sample)
        ensures
            y == Sample(0),
    {
        Sample(0)
    }
}

impl BlockGenerator for Zero {
    /// Every slot holds 0.
    fn process_block(&mut self, x: &mut [Sample])
        ensures
            forall|i: int| 0 <= i < old(x)@.len() ==> #[trigger] final(x)@[i] == Sample(0),
    {
        let n: usize = x.len();
        let ghost mut trace: Seq<Zero> = seq![*self];
        let mut i: usize = 0;
        while i < n
            invariant
                i <= n,
                x@.len() == n,
                forall|j: int| 0 <= j < i ==> #[trigger] x@[j] == Sample(0),
                is_run(trace, x@.take(i as int)),
                trace[0] == *old(self),
                trace.last() == *self,
            decreases n - i,
        {
            let ghost filled = x@.take(i as int);
            x[i] = Sample(0);
            proof {
                lemma_run_extends(trace, filled, Sample(0), *self);
                trace = trace.push(*self);
                assert(x@.take(i + 1) =~= filled.push(Sample(0)));
            }
            i = i + 1;
        }
        assert(x@.take(n as int) =~= x@);
    }
}

} // verus!
