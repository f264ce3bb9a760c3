//! The sponge state and the externally supplied permutation over it.
//!
//! The cryptographic permutation is an opaque, externally verified
//! primitive: this crate fixes only its arity (one 4-slot state in, one
//! 4-slot state out), that it is a pure function of the state, and that it
//! preserves canonical form.  Consumers inject their permutation by
//! implementing [`Permutation`].

use vstd::prelude::*;
use crate::field::Fr;

verus! {

/// The sponge's fixed-width state: exactly 4 large-field elements.
/// Slot 0 is the capacity slot, never directly overwritten by input and
/// read as the digest; slots 1 to 3 are the rate slots, overwritten by
/// packed input each absorption step.
#[derive(Clone, Copy, PartialEq, Eq, Structural, Debug)]
pub struct SpongeState {
    pub s0: Fr,
    pub s1: Fr,
    pub s2: Fr,
    pub s3: Fr,
}

impl SpongeState {
    /// All four slots canonical.
    pub open spec fn wf(self) -> bool {
        self.s0.wf() && self.s1.wf() && self.s2.wf() && self.s3.wf()
    }

    /// The all-zero state every hash invocation starts from.
    pub open spec fn spec_zeroed() -> SpongeState {
        SpongeState {
            s0: Fr::spec_zero(),
            s1: Fr::spec_zero(),
            s2: Fr::spec_zero(),
            s3: Fr::spec_zero(),
        }
    }

    pub fn zeroed() -> (r: Self)
        ensures
            r == SpongeState::spec_zeroed(),
            r.wf(),
    {
        SpongeState { s0: Fr::zero(), s1: Fr::zero(), s2: Fr::zero(), s3: Fr::zero() }
    }
}

/// An injected permutation capability.  The sponge's contracts depend only
/// on this black-box interface: the exec call returns exactly the value of
/// the implementor's spec-level function of the state (so it is
/// deterministic and side-effect free) and keeps every slot canonical.
pub trait Permutation: Sized {
    /// The permutation as a mathematical function of the state.
    spec fn spec_permute(s: SpongeState) -> SpongeState;

    /// Applies the permutation to the state.
    fn permute(&self, s: SpongeState) -> (r: SpongeState)
        requires
            s.wf(),
        ensures
            r == Self::spec_permute(s),
            r.wf(),
    ;
}

/// A trivial permutation that cyclically rotates the four state slots by
/// two positions.  It gives the sponge something deterministic and
/// canonical-form-preserving to drive in examples and tests; it performs no
/// cryptographic mixing, and a deployment supplies its own [`Permutation`].
#[derive(Clone, Copy, PartialEq, Eq, Structural, Debug)]
pub struct RotationPermutation;

impl Permutation for RotationPermutation {
    open spec fn spec_permute(s: SpongeState) -> SpongeState {
        SpongeState { s0: s.s2, s1: s.s3, s2: s.s0, s3: s.s1 }
    }

    fn permute(&self, s: SpongeState) -> (r: SpongeState) {
        SpongeState { s0: s.s2, s1: s.s3, s2: s.s0, s3: s.s1 }
    }
}

} // verus!
