//! The two prime fields bridged by the hash: the small circuit-native
//! "Goldilocks" field and the large wrapping field (the BN254 scalar field),
//! the latter held as four little-endian 64-bit limbs in canonical
//! (fully reduced) form.

use vstd::prelude::*;

verus! {

/// The Goldilocks prime, 2^64 - 2^32 + 1.
pub const GOLDILOCKS_MODULUS: u64 = 0xFFFF_FFFF_0000_0001;

/// Least significant 64-bit limb of the BN254 scalar field modulus.
pub const FR_MODULUS_L0: u64 = 0x43E1_F593_F000_0001;
/// Second 64-bit limb of the BN254 scalar field modulus.
pub const FR_MODULUS_L1: u64 = 0x2833_E848_79B9_7091;
/// Third 64-bit limb of the BN254 scalar field modulus.
pub const FR_MODULUS_L2: u64 = 0xB850_45B6_8181_585D;
/// Most significant 64-bit limb of the BN254 scalar field modulus.
pub const FR_MODULUS_L3: u64 = 0x3064_4E72_E131_A029;

/// The BN254 scalar field modulus as a mathematical integer,
/// 21888242871839275222246405745257275088548364400416034343698204186575808495617.
pub open spec fn fr_modulus() -> nat {
    (FR_MODULUS_L0 + 0x1_0000_0000_0000_0000 * (FR_MODULUS_L1
        + 0x1_0000_0000_0000_0000 * (FR_MODULUS_L2
        + 0x1_0000_0000_0000_0000 * FR_MODULUS_L3))) as nat
}

/// An element of the circuit-native prime field, canonically a 64-bit
/// integer strictly below the Goldilocks modulus.
#[derive(Clone, Copy, PartialEq, Eq, Structural, Debug, Hash)]
pub struct GoldilocksElement {
    pub value: u64,
}

impl GoldilocksElement {
    /// Canonical form: the representative lies in [0, modulus).
    pub open spec fn wf(self) -> bool {
        self.value < GOLDILOCKS_MODULUS
    }

    pub fn new(value: u64) -> (r: Self)
        requires
            value < GOLDILOCKS_MODULUS,
        ensures
            r.wf(),
            r.value == value,
    {
        GoldilocksElement { value }
    }

    pub fn zero() -> (r: Self)
        ensures
            r.wf(),
            r.value == 0,
    {
        GoldilocksElement { value: 0 }
    }

    pub fn one() -> (r: Self)
        ensures
            r.wf(),
            r.value == 1,
    {
        GoldilocksElement { value: 1 }
    }
}

/// An element of the wrapping prime field, as four canonical little-endian
/// 64-bit limbs.
#[derive(Clone, Copy, PartialEq, Eq, Structural, Debug, Hash)]
pub struct Fr {
    pub l0: u64,
    pub l1: u64,
    pub l2: u64,
    pub l3: u64,
}

impl Fr {
    /// The integer this limb vector denotes: the limbs read as base-2^64
    /// digits, least significant first.
    pub open spec fn as_nat(self) -> nat {
        (self.l0 + 0x1_0000_0000_0000_0000 * (self.l1
            + 0x1_0000_0000_0000_0000 * (self.l2
            + 0x1_0000_0000_0000_0000 * self.l3))) as nat
    }

    /// Canonical form: the denoted integer lies in [0, modulus).
    pub open spec fn wf(self) -> bool {
        self.as_nat() < fr_modulus()
    }

    /// The zero element.
    pub open spec fn spec_zero() -> Fr {
        Fr { l0: 0, l1: 0, l2: 0, l3: 0 }
    }

    pub fn zero() -> (r: Self)
        ensures
            r.wf(),
            r.as_nat() == 0,
            r == Fr::spec_zero(),
    {
        Fr { l0: 0, l1: 0, l2: 0, l3: 0 }
    }

    /// Builds the canonical element from limbs, rejecting a limb vector at
    /// or above the modulus.
    pub fn from_limbs(l0: u64, l1: u64, l2: u64, l3: u64) -> (r: Option<Fr>)
        ensures
            match r {
                Some(f) => f == (Fr { l0, l1, l2, l3 }) && f.wf(),
                None => !(Fr { l0, l1, l2, l3 }).wf(),
            },
    {
        let canonical = l3 < FR_MODULUS_L3
            || (l3 == FR_MODULUS_L3 && (l2 < FR_MODULUS_L2
            || (l2 == FR_MODULUS_L2 && (l1 < FR_MODULUS_L1
            || (l1 == FR_MODULUS_L1 && l0 < FR_MODULUS_L0)))));
        if canonical {
            Some(Fr { l0, l1, l2, l3 })
        } else {
            None
        }
    }

    /// Two canonical elements denoting the same integer have the same limbs.
    pub proof fn lemma_as_nat_injective(a: Fr, b: Fr)
        requires
            a.as_nat() == b.as_nat(),
        ensures
            a == b,
    {
    }
}

} // verus!
