//! Little-endian byte strings as integers: the value function, its
//! inverse, and the facts the byte and decimal codecs rest on.

use vstd::prelude::*;
use vstd::assert_seqs_equal;
use vstd::arithmetic::div_mod::{lemma_fundamental_div_mod, lemma_fundamental_div_mod_converse};
use vstd::arithmetic::mul::lemma_mul_is_associative;

verus! {

/// 256^k.
pub open spec fn pow256(k: nat) -> nat
    decreases k,
{
    if k == 0 {
        1
    } else {
        256 * pow256((k - 1) as nat)
    }
}

/// The integer a little-endian byte string denotes.
pub open spec fn le_val(s: Seq<u8>) -> nat
    decreases s.len(),
{
    if s.len() == 0 {
        0
    } else {
        (s[0] + 256 * le_val(s.subrange(1, s.len() as int))) as nat
    }
}

/// The k-byte little-endian encoding of n (n must fit).
pub open spec fn nat_to_le_bytes(n: nat, k: nat) -> Seq<u8>
    decreases k,
{
    if k == 0 {
        Seq::empty()
    } else {
        seq![(n % 256) as u8] + nat_to_le_bytes(n / 256, (k - 1) as nat)
    }
}

pub proof fn lemma_pow256_increases(a: nat, b: nat)
    requires
        a <= b,
    ensures
        pow256(a) <= pow256(b),
    decreases b,
{
    if a < b {
        lemma_pow256_increases(a, (b - 1) as nat);
        assert(pow256(b) == 256 * pow256((b - 1) as nat));
    }
}

pub proof fn lemma_pow256_adds(a: nat, b: nat)
    ensures
        pow256(a + b) == pow256(a) * pow256(b),
    decreases a,
{
    if a == 0 {
        assert(pow256(0 + b) == 1 * pow256(b)) by {
            vstd::arithmetic::mul::lemma_mul_basics(pow256(b) as int);
        }
    } else {
        lemma_pow256_adds((a - 1) as nat, b);
        assert(pow256(a + b) == 256 * (pow256((a - 1) as nat) * pow256(b)));
        lemma_mul_is_associative(256, pow256((a - 1) as nat) as int, pow256(b) as int);
    }
}

/// 256^32 written out, and the field modulus lies below it: a value of
/// more than 32 minimal little-endian bytes can never be canonical.
pub proof fn lemma_pow256_32()
    ensures
        pow256(32) == 0x1_0000_0000_0000_0000 * 0x1_0000_0000_0000_0000
            * 0x1_0000_0000_0000_0000 * 0x1_0000_0000_0000_0000,
        crate::field::fr_modulus() < pow256(32),
{
    reveal_with_fuel(pow256, 10);
    assert(pow256(8) == 0x1_0000_0000_0000_0000);
    lemma_pow256_adds(8, 8);
    assert(pow256(16) == pow256(8) * pow256(8));
    assert(pow256(16) == 0x1_0000_0000_0000_0000 * pow256(8));
    assert(pow256(16) == 0x1_0000_0000_0000_0000 * 0x1_0000_0000_0000_0000);
    lemma_pow256_adds(16, 16);
    assert(pow256(32) == pow256(16) * pow256(16));
    assert(pow256(32) == (0x1_0000_0000_0000_0000 * 0x1_0000_0000_0000_0000) * pow256(16));
    assert(pow256(32) == (0x1_0000_0000_0000_0000 * 0x1_0000_0000_0000_0000)
        * (0x1_0000_0000_0000_0000 * 0x1_0000_0000_0000_0000));
}

/// A byte string of length k denotes an integer below 256^k.
pub proof fn lemma_le_val_bound(s: Seq<u8>)
    ensures
        le_val(s) < pow256(s.len()),
    decreases s.len(),
{
    if s.len() > 0 {
        lemma_le_val_bound(s.subrange(1, s.len() as int));
    }
}

/// Concatenation splits the denoted integer at the byte boundary.
pub proof fn lemma_le_val_concat(a: Seq<u8>, b: Seq<u8>)
    ensures
        le_val(a + b) == le_val(a) + pow256(a.len()) * le_val(b),
    decreases a.len(),
{
    if a.len() == 0 {
        assert_seqs_equal!(a + b == b);
        assert(pow256(0) == 1);
    } else {
        let t = a.subrange(1, a.len() as int);
        assert_seqs_equal!((a + b).subrange(1, (a + b).len() as int) == t + b);
        lemma_le_val_concat(t, b);
        assert(le_val(a + b) == a[0] + 256 * (le_val(t) + pow256(t.len()) * le_val(b)));
        lemma_mul_is_associative(256, pow256(t.len()) as int, le_val(b) as int);
        assert(pow256(a.len()) == 256 * pow256(t.len()));
    }
}

pub proof fn lemma_nat_to_le_bytes_len(n: nat, k: nat)
    ensures
        nat_to_le_bytes(n, k).len() == k,
    decreases k,
{
    if k > 0 {
        lemma_nat_to_le_bytes_len(n / 256, (k - 1) as nat);
    }
}

/// Encoding then evaluating gives the integer back, when it fits.
pub proof fn lemma_le_val_of_nat_to_le_bytes(n: nat, k: nat)
    requires
        n < pow256(k),
    ensures
        le_val(nat_to_le_bytes(n, k)) == n,
    decreases k,
{
    if k == 0 {
        assert(n == 0);
    } else {
        let s = nat_to_le_bytes(n, k);
        lemma_fundamental_div_mod(n as int, 256);
        assert(n / 256 < pow256((k - 1) as nat));
        lemma_le_val_of_nat_to_le_bytes(n / 256, (k - 1) as nat);
        assert_seqs_equal!(s.subrange(1, s.len() as int) == nat_to_le_bytes(n / 256, (k - 1) as nat));
        assert(s[0] == n % 256);
    }
}

/// Evaluating then re-encoding gives the byte string back.
pub proof fn lemma_nat_to_le_bytes_of_le_val(s: Seq<u8>)
    ensures
        nat_to_le_bytes(le_val(s), s.len()) == s,
    decreases s.len(),
{
    if s.len() > 0 {
        let t = s.subrange(1, s.len() as int);
        lemma_nat_to_le_bytes_of_le_val(t);
        let n = le_val(s);
        lemma_fundamental_div_mod_converse(n as int, 256, le_val(t) as int, s[0] as int);
        assert(n % 256 == s[0]);
        assert(n / 256 == le_val(t));
        assert_seqs_equal!(nat_to_le_bytes(n, s.len()) == s);
    }
}

/// A byte string whose last byte is nonzero denotes at least 256^(len-1).
pub proof fn lemma_le_val_last_nonzero(s: Seq<u8>)
    requires
        s.len() > 0,
        s.last() != 0,
    ensures
        le_val(s) >= pow256((s.len() - 1) as nat),
    decreases s.len(),
{
    if s.len() == 1 {
        assert(le_val(s) == s[0] + 256 * le_val(s.subrange(1, 1)));
    } else {
        let t = s.subrange(1, s.len() as int);
        lemma_le_val_last_nonzero(t);
    }
}

/// Reads `count` bytes of `bytes` starting at `start` as a little-endian
/// integer.
pub fn read_le_u64(bytes: &Vec<u8>, start: usize, count: usize) -> (x: u64)
    requires
        start + count <= bytes@.len(),
        count <= 8,
    ensures
        x as nat == le_val(bytes@.subrange(start as int, (start + count) as int)),
{
    let n = bytes.len();
    let mut x: u64 = 0;
    let mut i: usize = count;
    proof {
        assert_seqs_equal!(bytes@.subrange((start + count) as int, (start + count) as int)
            == Seq::<u8>::empty());
    }
    while i > 0
        invariant
            start + count <= n,
            n == bytes@.len(),
            count <= 8,
            i <= count,
            x as nat == le_val(bytes@.subrange((start + i) as int, (start + count) as int)),
            x < pow256((count - i) as nat),
        decreases i,
    {
        i = i - 1;
        let b = bytes[start + i];
        proof {
            lemma_pow256_increases((count - i - 1) as nat, 7);
            reveal_with_fuel(pow256, 9);
            assert(pow256(7) == 0x100_0000_0000_0000);
            let whole = bytes@.subrange((start + i) as int, (start + count) as int);
            assert_seqs_equal!(whole.subrange(1, whole.len() as int)
                == bytes@.subrange((start + i + 1) as int, (start + count) as int));
            assert(le_val(whole) == whole[0] + 256 * le_val(whole.subrange(1, whole.len() as int)));
        }
        x = x * 256 + (b as u64);
    }
    x
}

} // verus!
