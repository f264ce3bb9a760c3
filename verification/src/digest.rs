//! The hash output type: one canonical large-field element, with its
//! 32-byte little-endian encoding and its collision-avoiding unpacking
//! into small-field elements.

use vstd::prelude::*;
use vstd::assert_seqs_equal;
use crate::HashError;
use crate::bytes::{
    le_val, lemma_le_val_bound, lemma_le_val_concat, lemma_le_val_of_nat_to_le_bytes,
    lemma_nat_to_le_bytes_len, lemma_nat_to_le_bytes_of_le_val, nat_to_le_bytes, pow256,
    read_le_u64,
};
use crate::field::{fr_modulus, Fr, GoldilocksElement};

verus! {

/// A digest: exactly one canonical element of the wrapping field.
#[derive(Clone, Copy, PartialEq, Eq, Structural, Debug, Hash)]
pub struct PoseidonBN128HashOut {
    pub value: Fr,
}

/// The 32-byte little-endian encoding of a limb vector: each limb in turn,
/// least significant first, 8 bytes each.
pub open spec fn spec_to_bytes(f: Fr) -> Seq<u8> {
    nat_to_le_bytes(f.l0 as nat, 8) + (nat_to_le_bytes(f.l1 as nat, 8) + (nat_to_le_bytes(
        f.l2 as nat,
        8,
    ) + nat_to_le_bytes(f.l3 as nat, 8)))
}

/// The limb vector read from 32 little-endian bytes.
pub open spec fn fr_of_le_bytes(b: Seq<u8>) -> Fr {
    Fr {
        l0: le_val(b.subrange(0, 8)) as u64,
        l1: le_val(b.subrange(8, 16)) as u64,
        l2: le_val(b.subrange(16, 24)) as u64,
        l3: le_val(b.subrange(24, 32)) as u64,
    }
}

/// Decoding 32 little-endian bytes: rejects a wrong length and rejects a
/// non-canonical (unreduced) integer rather than wrapping it.
pub open spec fn spec_from_bytes(b: Seq<u8>) -> Result<PoseidonBN128HashOut, HashError> {
    if b.len() != 32 {
        Err(HashError::MalformedBytes)
    } else if le_val(b) < fr_modulus() {
        Ok(PoseidonBN128HashOut { value: fr_of_le_bytes(b) })
    } else {
        Err(HashError::MalformedBytes)
    }
}

/// The values of the 7-byte chunks of a 32-byte string (the last chunk has
/// the 4 remaining bytes).
pub open spec fn chunk7_val(b: Seq<u8>, i: int) -> nat {
    le_val(b.subrange(7 * i, if 7 * i + 7 <= 32 { 7 * i + 7 } else { 32 }))
}

/// The small-field elements a digest unpacks to: 7-byte chunks, so every
/// chunk value is below 2^56 and hence below the small-field modulus, with
/// no modular wraparound.
pub open spec fn spec_to_vec(f: Fr) -> Seq<GoldilocksElement> {
    Seq::new(5, |i: int| GoldilocksElement { value: chunk7_val(spec_to_bytes(f), i) as u64 })
}

/// The 32-byte encoding denotes exactly the digest's integer.
pub proof fn lemma_spec_to_bytes(f: Fr)
    ensures
        spec_to_bytes(f).len() == 32,
        le_val(spec_to_bytes(f)) == f.as_nat(),
{
    let a = nat_to_le_bytes(f.l0 as nat, 8);
    let b = nat_to_le_bytes(f.l1 as nat, 8);
    let c = nat_to_le_bytes(f.l2 as nat, 8);
    let d = nat_to_le_bytes(f.l3 as nat, 8);
    lemma_nat_to_le_bytes_len(f.l0 as nat, 8);
    lemma_nat_to_le_bytes_len(f.l1 as nat, 8);
    lemma_nat_to_le_bytes_len(f.l2 as nat, 8);
    lemma_nat_to_le_bytes_len(f.l3 as nat, 8);
    reveal_with_fuel(pow256, 10);
    assert(pow256(8) == 0x1_0000_0000_0000_0000);
    lemma_le_val_of_nat_to_le_bytes(f.l0 as nat, 8);
    lemma_le_val_of_nat_to_le_bytes(f.l1 as nat, 8);
    lemma_le_val_of_nat_to_le_bytes(f.l2 as nat, 8);
    lemma_le_val_of_nat_to_le_bytes(f.l3 as nat, 8);
    lemma_le_val_concat(c, d);
    lemma_le_val_concat(b, c + d);
    lemma_le_val_concat(a, b + (c + d));
}

/// Reading 32 bytes limb by limb reads the whole denoted integer.
pub proof fn lemma_fr_of_le_bytes(b: Seq<u8>)
    requires
        b.len() == 32,
    ensures
        fr_of_le_bytes(b).as_nat() == le_val(b),
{
    let a0 = b.subrange(0, 8);
    let a1 = b.subrange(8, 16);
    let a2 = b.subrange(16, 24);
    let a3 = b.subrange(24, 32);
    assert_seqs_equal!(b == a0 + (a1 + (a2 + a3)));
    reveal_with_fuel(pow256, 10);
    assert(pow256(8) == 0x1_0000_0000_0000_0000);
    lemma_le_val_bound(a0);
    lemma_le_val_bound(a1);
    lemma_le_val_bound(a2);
    lemma_le_val_bound(a3);
    lemma_le_val_concat(a2, a3);
    lemma_le_val_concat(a1, a2 + a3);
    lemma_le_val_concat(a0, a1 + (a2 + a3));
}

impl PoseidonBN128HashOut {
    /// Canonical form of the wrapped field element.
    pub open spec fn wf(self) -> bool {
        self.value.wf()
    }

    pub fn new(value: Fr) -> (r: Self)
        requires
            value.wf(),
        ensures
            r.wf(),
            r.value == value,
    {
        PoseidonBN128HashOut { value }
    }

    pub fn zero() -> (r: Self)
        ensures
            r.wf(),
            r.value.as_nat() == 0,
    {
        PoseidonBN128HashOut { value: Fr::zero() }
    }

    /// Serializes the digest as exactly 32 little-endian bytes: the four
    /// canonical limbs concatenated, least significant first.
    pub fn to_bytes(&self) -> (r: Vec<u8>)
        ensures
            r@ == spec_to_bytes(self.value),
            r@.len() == 32,
            le_val(r@) == self.value.as_nat(),
    {
        let mut out: Vec<u8> = Vec::new();
        push_le_u64(&mut out, self.value.l0);
        push_le_u64(&mut out, self.value.l1);
        push_le_u64(&mut out, self.value.l2);
        push_le_u64(&mut out, self.value.l3);
        proof {
            let a = nat_to_le_bytes(self.value.l0 as nat, 8);
            let b = nat_to_le_bytes(self.value.l1 as nat, 8);
            let c = nat_to_le_bytes(self.value.l2 as nat, 8);
            let d = nat_to_le_bytes(self.value.l3 as nat, 8);
            assert_seqs_equal!(Seq::<u8>::empty() + a + b + c + d == a + (b + (c + d)));
            lemma_spec_to_bytes(self.value);
        }
        out
    }

    /// Deserializes a digest from exactly 32 little-endian bytes.  Rejects
    /// any other length, and rejects bytes denoting an integer at or above
    /// the field modulus, rather than reducing them.
    pub fn from_bytes(bytes: &Vec<u8>) -> (r: Result<Self, HashError>)
        ensures
            r == spec_from_bytes(bytes@),
            r matches Ok(d) ==> d.wf() && d.value.as_nat() == le_val(bytes@),
    {
        if bytes.len() != 32 {
            return Err(HashError::MalformedBytes);
        }
        let l0 = read_le_u64(bytes, 0, 8);
        let l1 = read_le_u64(bytes, 8, 8);
        let l2 = read_le_u64(bytes, 16, 8);
        let l3 = read_le_u64(bytes, 24, 8);
        proof {
            lemma_fr_of_le_bytes(bytes@);
        }
        match Fr::from_limbs(l0, l1, l2, l3) {
            Some(f) => Ok(PoseidonBN128HashOut { value: f }),
            None => Err(HashError::MalformedBytes),
        }
    }

    /// Unpacks the digest's 32-byte encoding into small-field elements by
    /// 7-byte chunks.  Chunks of 8 bytes could meet or exceed the
    /// small-field modulus and silently collide; 56-bit chunks cannot.
    pub fn to_vec(&self) -> (r: Vec<GoldilocksElement>)
        ensures
            r@ == spec_to_vec(self.value),
            forall|i: int| 0 <= i < r@.len() ==> (#[trigger] r@[i]).wf(),
    {
        let bytes = self.to_bytes();
        let e0 = read_le_u64(&bytes, 0, 7);
        let e1 = read_le_u64(&bytes, 7, 7);
        let e2 = read_le_u64(&bytes, 14, 7);
        let e3 = read_le_u64(&bytes, 21, 7);
        let e4 = read_le_u64(&bytes, 28, 4);
        let r = vec![
            GoldilocksElement { value: e0 },
            GoldilocksElement { value: e1 },
            GoldilocksElement { value: e2 },
            GoldilocksElement { value: e3 },
            GoldilocksElement { value: e4 },
        ];
        proof {
            reveal_with_fuel(pow256, 10);
            assert(pow256(7) == 0x100_0000_0000_0000);
            lemma_le_val_bound(bytes@.subrange(0, 7));
            lemma_le_val_bound(bytes@.subrange(7, 14));
            lemma_le_val_bound(bytes@.subrange(14, 21));
            lemma_le_val_bound(bytes@.subrange(21, 28));
            lemma_le_val_bound(bytes@.subrange(28, 32));
            assert_seqs_equal!(r@ == spec_to_vec(self.value));
        }
        r
    }
}

/// Appends the 8-byte little-endian encoding of `x`.
fn push_le_u64(out: &mut Vec<u8>, x: u64)
    ensures
        final(out)@ == old(out)@ + nat_to_le_bytes(x as nat, 8),
{
    let ghost base = out@.len() as int;
    let mut cur = x;
    let mut j: usize = 0;
    while j < 8
        invariant
            0 <= base,
            j <= 8,
            out@.len() == base + j,
            out@.subrange(0, base) == old(out)@,
            nat_to_le_bytes(x as nat, 8) == out@.subrange(base, out@.len() as int)
                + nat_to_le_bytes(cur as nat, (8 - j) as nat),
        decreases 8 - j,
    {
        let ghost pre = out@;
        out.push((cur % 256) as u8);
        proof {
            assert(nat_to_le_bytes(cur as nat, (8 - j) as nat) == seq![(cur as nat % 256) as u8]
                + nat_to_le_bytes(cur as nat / 256, (8 - j - 1) as nat));
            assert_seqs_equal!(out@.subrange(0, base) == pre.subrange(0, base));
            assert_seqs_equal!(out@.subrange(base, out@.len() as int)
                == pre.subrange(base, pre.len() as int) + seq![(cur % 256) as u8]);
            assert_seqs_equal!(pre.subrange(base, pre.len() as int) + (seq![(cur % 256) as u8]
                + nat_to_le_bytes(cur as nat / 256, (8 - j - 1) as nat))
                == out@.subrange(base, out@.len() as int)
                + nat_to_le_bytes(cur as nat / 256, (8 - j - 1) as nat));
        }
        cur = cur / 256;
        j = j + 1;
    }
    proof {
        assert(nat_to_le_bytes(cur as nat, 0) == Seq::<u8>::empty());
        assert_seqs_equal!(out@.subrange(base, out@.len() as int)
            + nat_to_le_bytes(cur as nat, 0) == out@.subrange(base, out@.len() as int));
        assert_seqs_equal!(out@ == old(out)@ + nat_to_le_bytes(x as nat, 8));
    }
}

/// Round trip: decoding the 32-byte encoding of any digest gives the digest
/// back.
pub proof fn lemma_bytes_round_trip(d: PoseidonBN128HashOut)
    requires
        d.wf(),
    ensures
        spec_from_bytes(spec_to_bytes(d.value)) == Ok::<PoseidonBN128HashOut, HashError>(d),
{
    let b = spec_to_bytes(d.value);
    lemma_spec_to_bytes(d.value);
    lemma_fr_of_le_bytes(b);
    crate::field::Fr::lemma_as_nat_injective(fr_of_le_bytes(b), d.value);
}

/// Packing the unpacked small-field elements back, low 7 bytes each (4 for
/// the last), reproduces the original 32-byte buffer exactly: the 7-byte
/// unpacking loses nothing.
pub open spec fn spec_repack(s: Seq<GoldilocksElement>) -> Seq<u8>
    recommends
        s.len() == 5,
{
    nat_to_le_bytes(s[0].value as nat, 7) + (nat_to_le_bytes(s[1].value as nat, 7)
        + (nat_to_le_bytes(s[2].value as nat, 7) + (nat_to_le_bytes(s[3].value as nat, 7)
        + nat_to_le_bytes(s[4].value as nat, 4))))
}

/// Round trip: re-packing a digest's unpacked small-field elements yields
/// its 32-byte encoding.
pub proof fn lemma_unpack_repack(f: Fr)
    ensures
        spec_repack(spec_to_vec(f)) == spec_to_bytes(f),
{
    let b = spec_to_bytes(f);
    lemma_spec_to_bytes(f);
    let c0 = b.subrange(0, 7);
    let c1 = b.subrange(7, 14);
    let c2 = b.subrange(14, 21);
    let c3 = b.subrange(21, 28);
    let c4 = b.subrange(28, 32);
    reveal_with_fuel(pow256, 10);
    assert(pow256(7) == 0x100_0000_0000_0000);
    lemma_le_val_bound(c0);
    lemma_le_val_bound(c1);
    lemma_le_val_bound(c2);
    lemma_le_val_bound(c3);
    lemma_le_val_bound(c4);
    lemma_nat_to_le_bytes_of_le_val(c0);
    lemma_nat_to_le_bytes_of_le_val(c1);
    lemma_nat_to_le_bytes_of_le_val(c2);
    lemma_nat_to_le_bytes_of_le_val(c3);
    lemma_nat_to_le_bytes_of_le_val(c4);
    assert_seqs_equal!(spec_repack(spec_to_vec(f)) == spec_to_bytes(f));
}

} // verus!
