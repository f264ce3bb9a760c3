//! The sponge engine: absorbs small-field elements into the state by
//! packed groups, one permutation call per group, and squeezes the digest
//! from the capacity slot.

use vstd::prelude::*;
use vstd::assert_seqs_equal;
use vstd::math::min;
use crate::digest::PoseidonBN128HashOut;
use crate::field::{Fr, GoldilocksElement};
use crate::permutation::{Permutation, SpongeState};

verus! {

/// Large-field elements absorbed into the rate slots per permutation call.
pub const RATE: usize = 3;

/// Small-field elements that saturate one large-field packing group.
pub const GOLDILOCKS_ELEMENTS: usize = 3;

/// Packs up to 3 small-field elements into one large-field element: their
/// 8-byte little-endian forms concatenated and zero-padded to 32 bytes,
/// read little-endian — that is, the values become the low three limbs.
/// The result stays below 2^192, so it is always canonical.
pub open spec fn spec_pack(g: Seq<GoldilocksElement>) -> Fr
    recommends
        g.len() <= 3,
{
    Fr {
        l0: if g.len() > 0 { g[0].value } else { 0 },
        l1: if g.len() > 1 { g[1].value } else { 0 },
        l2: if g.len() > 2 { g[2].value } else { 0 },
        l3: 0,
    }
}

/// A packed group is always canonical: its value is below 2^192, and the
/// modulus is above it.
pub proof fn lemma_spec_pack_wf(g: Seq<GoldilocksElement>)
    ensures
        spec_pack(g).wf(),
{
}

/// One absorption step: packs a group of up to 9 small-field elements into
/// up to 3 large-field elements and writes them over the rate slots in
/// order; the capacity slot and any rate slot past the group keep their
/// values.
pub open spec fn spec_write_rate(state: SpongeState, g: Seq<GoldilocksElement>) -> SpongeState
    recommends
        1 <= g.len() <= 9,
{
    SpongeState {
        s0: state.s0,
        s1: if g.len() > 0 { spec_pack(g.subrange(0, min(3, g.len() as int))) } else { state.s1 },
        s2: if g.len() > 3 { spec_pack(g.subrange(3, min(6, g.len() as int))) } else { state.s2 },
        s3: if g.len() > 6 { spec_pack(g.subrange(6, min(9, g.len() as int))) } else { state.s3 },
    }
}

/// The absorb loop: one permutation call per group of up to 9 elements.
pub open spec fn spec_absorb<P: Permutation>(
    state: SpongeState,
    input: Seq<GoldilocksElement>,
) -> SpongeState
    decreases input.len(),
{
    if input.len() == 0 {
        state
    } else {
        let k = min(9, input.len() as int);
        spec_absorb::<P>(
            P::spec_permute(spec_write_rate(state, input.subrange(0, k))),
            input.subrange(k, input.len() as int),
        )
    }
}

/// The digest of the raw (unpadded) input: absorb from the all-zero state,
/// then read the capacity slot.  Empty input performs no permutation call
/// and yields the zero digest.
pub open spec fn spec_hash_no_pad<P: Permutation>(
    input: Seq<GoldilocksElement>,
) -> PoseidonBN128HashOut {
    PoseidonBN128HashOut { value: spec_absorb::<P>(SpongeState::spec_zeroed(), input).s0 }
}

/// Packs `input[start..end]` (at most 3 elements).
fn pack_range(input: &Vec<GoldilocksElement>, start: usize, end: usize) -> (r: Fr)
    requires
        start <= end,
        end <= input@.len(),
        end - start <= 3,
    ensures
        r == spec_pack(input@.subrange(start as int, end as int)),
        r.wf(),
{
    let len = end - start;
    let l0 = if len > 0 { input[start].value } else { 0 };
    let l1 = if len > 1 { input[start + 1].value } else { 0 };
    let l2 = if len > 2 { input[start + 2].value } else { 0 };
    Fr { l0, l1, l2, l3: 0 }
}

/// The field-bridging sponge hash.  Every entry point is a deterministic
/// pure function of its input: each returns exactly the value of a
/// spec-level function of the input sequence and the injected
/// permutation's spec.
#[derive(Clone, Copy, PartialEq, Eq, Structural, Debug)]
pub struct PoseidonBN128Hash;

impl PoseidonBN128Hash {
    /// Absorbs the input with no length padding.  Suitable only when the
    /// caller guarantees unambiguous length encoding elsewhere.
    pub fn hash_no_pad<P: Permutation>(
        perm: &P,
        input: &Vec<GoldilocksElement>,
    ) -> (r: PoseidonBN128HashOut)
        requires
            forall|i: int| 0 <= i < input@.len() ==> (#[trigger] input@[i]).wf(),
        ensures
            r == spec_hash_no_pad::<P>(input@),
            r.wf(),
    {
        let n = input.len();
        let mut state = SpongeState::zeroed();
        let mut i: usize = 0;
        proof {
            assert_seqs_equal!(input@.subrange(0, n as int) == input@);
        }
        while i < n
            invariant
                n == input@.len(),
                i <= n,
                state.wf(),
                spec_absorb::<P>(state, input@.subrange(i as int, n as int)) == spec_absorb::<P>(
                    SpongeState::spec_zeroed(),
                    input@,
                ),
            decreases n - i,
        {
            let ghost st0 = state;
            let end = if n - i > RATE * GOLDILOCKS_ELEMENTS { i + RATE * GOLDILOCKS_ELEMENTS } else { n };
            state.s1 = pack_range(input, i, if end - i < 3 { end } else { i + 3 });
            if end - i > 3 {
                state.s2 = pack_range(input, i + 3, if end - i < 6 { end } else { i + 6 });
            }
            if end - i > 6 {
                state.s3 = pack_range(input, i + 6, end);
            }
            proof {
                let rest = input@.subrange(i as int, n as int);
                let chunk = input@.subrange(i as int, end as int);
                let k = min(9, rest.len() as int);
                assert_seqs_equal!(rest.subrange(0, k) == chunk);
                assert_seqs_equal!(rest.subrange(k, rest.len() as int)
                    == input@.subrange(end as int, n as int));
                if chunk.len() > 0 {
                    assert_seqs_equal!(chunk.subrange(0, min(3, chunk.len() as int))
                        == input@.subrange(i as int,
                            min((i + 3) as int, end as int)));
                }
                if chunk.len() > 3 {
                    assert_seqs_equal!(chunk.subrange(3, min(6, chunk.len() as int))
                        == input@.subrange((i + 3) as int,
                            min((i + 6) as int, end as int)));
                }
                if chunk.len() > 6 {
                    assert_seqs_equal!(chunk.subrange(6, min(9, chunk.len() as int))
                        == input@.subrange((i + 6) as int, end as int));
                }
                assert(state == spec_write_rate(st0, chunk));
            }
            state = perm.permute(state);
            i = end;
        }
        proof {
            assert(input@.subrange(i as int, n as int).len() == 0);
        }
        PoseidonBN128HashOut { value: state.s0 }
    }

    /// Hashes with the length-ambiguity-resistant padding: appends ONE,
    /// then ZERO until one element short of a whole number of absorption
    /// groups, then a final ONE, and hashes the padded sequence unpadded.
    /// Two inputs of different lengths never pad to one sequence.
    pub fn hash_pad<P: Permutation>(
        perm: &P,
        input: &Vec<GoldilocksElement>,
    ) -> (r: PoseidonBN128HashOut)
        requires
            forall|i: int| 0 <= i < input@.len() ==> (#[trigger] input@[i]).wf(),
            input@.len() + 11 <= usize::MAX,
        ensures
            r == spec_hash_pad::<P>(input@),
            r.wf(),
    {
        let n = input.len();
        let mut padded: Vec<GoldilocksElement> = Vec::new();
        let mut i: usize = 0;
        while i < n
            invariant
                n == input@.len(),
                i <= n,
                padded@ == input@.subrange(0, i as int),
            decreases n - i,
        {
            let e = input[i];
            padded.push(e);
            i = i + 1;
        }
        padded.push(GoldilocksElement { value: 1 });
        let ghost z = pad_zero_count(n as nat);
        let ghost zeros = Seq::new(z, |t: int| GoldilocksElement { value: 0 });
        proof {
            lemma_pad_zero_count(n as nat);
            assert_seqs_equal!(input@.subrange(0, n as int) == input@);
            assert_seqs_equal!(padded@ == input@ + seq![GoldilocksElement { value: 1 }]
                + zeros.subrange(0, 0));
        }
        let mut j: usize = 0;
        while (padded.len() + 1) % (RATE * GOLDILOCKS_ELEMENTS) != 0
            invariant
                n == input@.len(),
                n + 11 <= usize::MAX,
                j <= z,
                z < 9,
                z == pad_zero_count(n as nat),
                zeros.len() == z,
                forall|t: int| 0 <= t < z ==> zeros[t] == (GoldilocksElement { value: 0 }),
                padded@.len() == n + 1 + j,
                padded@ == input@ + seq![GoldilocksElement { value: 1 }] + zeros.subrange(
                    0,
                    j as int,
                ),
                (n + 2 + z) % 9 == 0,
                forall|t: int| 0 <= t < z ==> #[trigger] ((n + 2 + t) % 9) != 0,
            decreases z - j,
        {
            proof {
                if j == z {
                    assert((padded@.len() + 1) % 9 == 0);
                    assert(false);
                }
                assert(j < z);
                assert_seqs_equal!(zeros.subrange(0, j as int)
                    + seq![GoldilocksElement { value: 0 }] == zeros.subrange(0, j + 1));
            }
            padded.push(GoldilocksElement { value: 0 });
            j = j + 1;
        }
        proof {
            if j < z {
                assert((n + 2 + j) % 9 != 0);
                assert(false);
            }
            assert_seqs_equal!(zeros.subrange(0, z as int) == zeros);
        }
        padded.push(GoldilocksElement { value: 1 });
        proof {
            assert_seqs_equal!(padded@ == spec_pad(input@));
        }
        Self::hash_no_pad(perm, &padded)
    }

    /// The noop short-circuit: when the input fits one large-field
    /// element's raw byte capacity (at most GOLDILOCKS_ELEMENTS elements),
    /// skips the permutation entirely and packs the elements directly into
    /// the digest; otherwise delegates to the full unpadded hash.
    pub fn hash_or_noop<P: Permutation>(
        perm: &P,
        input: &Vec<GoldilocksElement>,
    ) -> (r: PoseidonBN128HashOut)
        requires
            forall|i: int| 0 <= i < input@.len() ==> (#[trigger] input@[i]).wf(),
        ensures
            r == spec_hash_or_noop::<P>(input@),
            r.wf(),
    {
        let n = input.len();
        if n <= GOLDILOCKS_ELEMENTS {
            let f = pack_range(input, 0, n);
            proof {
                assert_seqs_equal!(input@.subrange(0, n as int) == input@);
            }
            PoseidonBN128HashOut { value: f }
        } else {
            Self::hash_no_pad(perm, input)
        }
    }

    /// Combines two digests into one with a single permutation call over
    /// the state [0, 0, left, right]: the compression function for
    /// internal nodes of a binary Merkle tree.  Order-sensitive by
    /// construction: the two children go to distinct rate slots.
    pub fn two_to_one<P: Permutation>(
        perm: &P,
        left: PoseidonBN128HashOut,
        right: PoseidonBN128HashOut,
    ) -> (r: PoseidonBN128HashOut)
        requires
            left.wf(),
            right.wf(),
        ensures
            r == spec_two_to_one::<P>(left, right),
            r.wf(),
    {
        let state = SpongeState {
            s0: Fr::zero(),
            s1: Fr::zero(),
            s2: left.value,
            s3: right.value,
        };
        let out = perm.permute(state);
        PoseidonBN128HashOut { value: out.s0 }
    }
}

/// The compressed parent of two digests: one permutation call, capacity
/// slots zeroed, rate slots holding the children in order.
pub open spec fn spec_two_to_one<P: Permutation>(
    left: PoseidonBN128HashOut,
    right: PoseidonBN128HashOut,
) -> PoseidonBN128HashOut {
    PoseidonBN128HashOut {
        value: P::spec_permute(
            SpongeState {
                s0: Fr::spec_zero(),
                s1: Fr::spec_zero(),
                s2: left.value,
                s3: right.value,
            },
        ).s0,
    }
}

/// How many zero elements the padding scheme inserts: after the input and
/// one marker element, zeros fill until one slot short of a whole number of
/// absorption groups, and a final marker element closes the group.
pub open spec fn pad_zero_count(n: nat) -> nat {
    (8 - ((n + 1) % 9)) as nat
}

/// The length-ambiguity-resistant padding: append ONE, append ZERO until
/// one short of a multiple of RATE * GOLDILOCKS_ELEMENTS, append ONE.
pub open spec fn spec_pad(input: Seq<GoldilocksElement>) -> Seq<GoldilocksElement> {
    input + seq![GoldilocksElement { value: 1 }] + Seq::new(
        pad_zero_count(input.len()),
        |i: int| GoldilocksElement { value: 0 },
    ) + seq![GoldilocksElement { value: 1 }]
}

/// The digest of the padded input.
pub open spec fn spec_hash_pad<P: Permutation>(
    input: Seq<GoldilocksElement>,
) -> PoseidonBN128HashOut {
    spec_hash_no_pad::<P>(spec_pad(input))
}

/// The zero-fill count is the unique one below 9 that closes the group.
proof fn lemma_pad_zero_count(n: nat)
    ensures
        pad_zero_count(n) < 9,
        (n + 2 + pad_zero_count(n)) % 9 == 0,
        forall|t: int| 0 <= t < pad_zero_count(n) ==> #[trigger] ((n + 2 + t) % 9) != 0,
{
    let q = (n + 1) as int / 9;
    let r = (n + 1) as int % 9;
    vstd::arithmetic::div_mod::lemma_fundamental_div_mod((n + 1) as int, 9);
    let z = pad_zero_count(n);
    assert(z == 8 - r);
    assert forall|t: int| 0 <= t < z implies #[trigger] ((n + 2 + t) % 9) != 0 by {
        vstd::arithmetic::div_mod::lemma_mod_multiples_vanish(q, r + 1 + t, 9);
        assert((n + 2 + t) % 9 == (r + 1 + t) % 9);
    }
    vstd::arithmetic::div_mod::lemma_mod_multiples_vanish(q, r + 1 + z, 9);
}

/// The noop short-circuit: input of at most GOLDILOCKS_ELEMENTS elements is
/// packed directly into the digest with no permutation call; longer input
/// takes the full unpadded sponge.
pub open spec fn spec_hash_or_noop<P: Permutation>(
    input: Seq<GoldilocksElement>,
) -> PoseidonBN128HashOut {
    if input.len() <= 3 {
        PoseidonBN128HashOut { value: spec_pack(input) }
    } else {
        spec_hash_no_pad::<P>(input)
    }
}

/// Padding two sequences, one a strict prefix of the other, never yields
/// one padded sequence: the marker-zeros-marker layout separates every
/// length.  (That the two digests then differ needs the permutation's
/// cryptographic properties and is not stated here.)
pub proof fn lemma_pad_injective_prefix(x: Seq<GoldilocksElement>, y: Seq<GoldilocksElement>)
    requires
        x.len() < y.len(),
        x == y.subrange(0, x.len() as int),
    ensures
        spec_pad(x) != spec_pad(y),
{
    let nx = x.len() as int;
    let ny = y.len() as int;
    let px = spec_pad(x);
    let py = spec_pad(y);
    if px.len() == py.len() {
        // y's marker element lands in x's zero-fill region.
        assert(ny <= px.len() - 2);
        assert(px[ny] == (GoldilocksElement { value: 0 }));
        assert(py[ny] == (GoldilocksElement { value: 1 }));
        if px == py {
            assert(px[ny] == py[ny]);
            assert(false);
        }
    } else {
        if px == py {
            assert(px.len() == py.len());
            assert(false);
        }
    }
}

/// The empty input performs no permutation call: its digest wraps the
/// untouched all-zero capacity slot.
pub proof fn lemma_hash_no_pad_empty<P: Permutation>()
    ensures
        spec_hash_no_pad::<P>(Seq::<GoldilocksElement>::empty())
            == (PoseidonBN128HashOut { value: Fr::spec_zero() }),
{
}

} // verus!
