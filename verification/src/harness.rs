//! The harness as the engine sees it.

use vstd::prelude::*;
use harness_locate::Harness;

verus! {

/// `harness_locate::Harness`, carried through without a look inside.
#[verifier::external_type_specification]
#[verifier::external_body]
pub struct ExHarness(harness_locate::Harness);

/// Holds a located harness for the operations that need one.
#[derive(Debug)]
pub struct HarnessAdapter {
    harness: Harness,
}

impl HarnessAdapter {
    /// The harness that the adapter holds.
    pub closed spec fn inner(&self) -> Harness {
        self.harness
    }

    /// An adapter for `harness`.
    pub fn new(harness: Harness) -> (r: Self)
        ensures
            r.inner() == harness,
    {
        HarnessAdapter { harness }
    }

    /// The harness that the adapter holds.
    pub fn harness(&self) -> (r: &Harness)
        ensures
            *r == self.inner(),
    {
        &self.harness
    }
}

} // verus!
