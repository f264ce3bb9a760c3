//! The canonical base-10 text encoding of a digest, for consumption by
//! external verifiers that read scalar-field elements as decimal integers.

use vstd::prelude::*;
use crate::HashError;
use crate::bytes::{
    le_val, lemma_le_val_concat, lemma_le_val_last_nonzero, lemma_le_val_of_nat_to_le_bytes,
    lemma_nat_to_le_bytes_len, lemma_nat_to_le_bytes_of_le_val, lemma_pow256_32,
    lemma_pow256_increases, nat_to_le_bytes, read_le_u64,
};
use crate::digest::{fr_of_le_bytes, lemma_fr_of_le_bytes, PoseidonBN128HashOut};
use crate::field::{fr_modulus, Fr};
use vstd::assert_seqs_equal;

verus! {

/// An ASCII decimal digit.
pub open spec fn is_dec_digit(c: char) -> bool {
    48 <= c as int && c as int <= 57
}

/// The value of an ASCII decimal digit.
pub open spec fn digit_val(c: char) -> nat {
    (c as int - 48) as nat
}

/// The ASCII digit of a value below ten.
pub open spec fn digit_char(d: nat) -> char {
    if d == 0 {
        '0'
    } else if d == 1 {
        '1'
    } else if d == 2 {
        '2'
    } else if d == 3 {
        '3'
    } else if d == 4 {
        '4'
    } else if d == 5 {
        '5'
    } else if d == 6 {
        '6'
    } else if d == 7 {
        '7'
    } else if d == 8 {
        '8'
    } else {
        '9'
    }
}

/// The usual base-10 rendering of an integer: most significant digit
/// first, no sign, no leading zero, a single '0' for zero.
pub open spec fn dec_digits(n: nat) -> Seq<char>
    decreases n,
{
    if n < 10 {
        seq![digit_char(n)]
    } else {
        dec_digits(n / 10).push(digit_char(n % 10))
    }
}

/// The integer a string of ASCII decimal digits denotes.
pub open spec fn dec_val(s: Seq<char>) -> nat
    decreases s.len(),
{
    if s.len() == 0 {
        0
    } else {
        dec_val(s.drop_last()) * 10 + digit_val(s.last())
    }
}

/// Reading a rendered integer back gives the integer, and the rendering is
/// nonempty and all digits.
pub proof fn lemma_dec_round_trip(n: nat)
    ensures
        dec_val(dec_digits(n)) == n,
        dec_digits(n).len() >= 1,
        forall|i: int| 0 <= i < dec_digits(n).len() ==> is_dec_digit(#[trigger] dec_digits(n)[i]),
    decreases n,
{
    if n < 10 {
        let s = dec_digits(n);
        assert(s.drop_last() =~= Seq::<char>::empty());
        assert(dec_val(Seq::<char>::empty()) == 0);
        assert(dec_val(s) == digit_val(digit_char(n)));
    } else {
        lemma_dec_round_trip(n / 10);
        let s = dec_digits(n);
        assert(s.drop_last() =~= dec_digits(n / 10));
        assert(s.last() == digit_char(n % 10));
        assert(digit_val(digit_char(n % 10)) == n % 10);
        vstd::arithmetic::div_mod::lemma_fundamental_div_mod(n as int, 10);
    }
}

/// Relies on num::BigUint::from_bytes_le and BigUint::to_str_radix with
/// radix 10: the little-endian bytes are read as an unsigned big integer
/// and rendered in base 10, most significant digit first, with no sign, no
/// leading zero, and "0" for zero.
#[verifier::external_body]
fn decimal_of_le_bytes(bytes: &Vec<u8>) -> (s: String)
    ensures
        s@ == dec_digits(le_val(bytes@)),
{
    let b = num::BigUint::from_bytes_le(bytes.as_slice());
    b.to_str_radix(10)
}

/// Relies on num::BigUint::parse_bytes with radix 10 and
/// BigUint::to_bytes_le: a nonempty all-digit string parses to its
/// denoted integer, and the integer's little-endian bytes are minimal —
/// a single zero byte for zero, no trailing zero byte otherwise.
#[verifier::external_body]
fn le_bytes_of_decimal(s: &str) -> (r: Vec<u8>)
    requires
        s@.len() > 0,
        forall|i: int| 0 <= i < s@.len() ==> is_dec_digit(#[trigger] s@[i]),
    ensures
        le_val(r@) == dec_val(s@),
        r@.len() > 0,
        r@.len() > 1 ==> r@.last() != 0,
{
    let b = num::BigUint::parse_bytes(s.as_bytes(), 10).unwrap();
    b.to_bytes_le()
}

/// The result of decoding decimal text: empty or non-digit text is
/// invalid; a value at or above the modulus is rejected as non-canonical
/// rather than reduced; anything else yields the digest with that value.
pub open spec fn spec_decode_decimal(t: Seq<char>) -> Result<PoseidonBN128HashOut, HashError> {
    if !(t.len() > 0 && (forall|i: int| 0 <= i < t.len() ==> is_dec_digit(#[trigger] t[i]))) {
        Err(HashError::InvalidDecimalString)
    } else if dec_val(t) < fr_modulus() {
        Ok(PoseidonBN128HashOut { value: fr_of_le_bytes(nat_to_le_bytes(dec_val(t), 32)) })
    } else {
        Err(HashError::NonCanonicalFieldValue)
    }
}

/// The decimal rendering of a digest's canonical integer value.
pub open spec fn spec_encode_decimal(f: Fr) -> Seq<char> {
    dec_digits(f.as_nat())
}

impl PoseidonBN128HashOut {
    /// Renders the digest as the base-10 text of its canonical unsigned
    /// integer value.
    pub fn encode_decimal(&self) -> (s: String)
        ensures
            s@ == spec_encode_decimal(self.value),
    {
        let bytes = self.to_bytes();
        decimal_of_le_bytes(&bytes)
    }

    /// Parses base-10 text into a digest.  Fails on empty text or any
    /// character other than an ASCII digit, and on a value at or above the
    /// field modulus: a non-canonical encoding is rejected, never wrapped.
    pub fn decode_decimal(s: &str) -> (r: Result<Self, HashError>)
        ensures
            r == spec_decode_decimal(s@),
            r matches Ok(d) ==> d.wf() && d.value.as_nat() == dec_val(s@),
    {
        let n = s.unicode_len();
        if n == 0 {
            return Err(HashError::InvalidDecimalString);
        }
        let mut i: usize = 0;
        while i < n
            invariant
                n == s@.len(),
                i <= n,
                forall|t: int| 0 <= t < i ==> is_dec_digit(#[trigger] s@[t]),
            decreases n - i,
        {
            let c = s.get_char(i);
            let u = c as u32;
            if u < 48 || u > 57 {
                return Err(HashError::InvalidDecimalString);
            }
            i = i + 1;
        }
        let mut bytes = le_bytes_of_decimal(s);
        if bytes.len() > 32 {
            proof {
                lemma_le_val_last_nonzero(bytes@);
                lemma_pow256_increases(32, (bytes@.len() - 1) as nat);
                lemma_pow256_32();
            }
            return Err(HashError::NonCanonicalFieldValue);
        }
        while bytes.len() < 32
            invariant
                bytes@.len() <= 32,
                le_val(bytes@) == dec_val(s@),
            decreases 32 - bytes@.len(),
        {
            proof {
                let ghost pre = bytes@;
                lemma_le_val_concat(pre, seq![0u8]);
            }
            let ghost pre = bytes@;
            bytes.push(0);
            proof {
                assert_seqs_equal!(bytes@ == pre + seq![0u8]);
                assert(seq![0u8].subrange(1, 1) =~= Seq::<u8>::empty());
                assert(le_val(Seq::<u8>::empty()) == 0);
                assert(le_val(seq![0u8]) == 0);
            }
        }
        let l0 = read_le_u64(&bytes, 0, 8);
        let l1 = read_le_u64(&bytes, 8, 8);
        let l2 = read_le_u64(&bytes, 16, 8);
        let l3 = read_le_u64(&bytes, 24, 8);
        proof {
            lemma_fr_of_le_bytes(bytes@);
            lemma_nat_to_le_bytes_of_le_val(bytes@);
        }
        match Fr::from_limbs(l0, l1, l2, l3) {
            Some(f) => Ok(PoseidonBN128HashOut { value: f }),
            None => Err(HashError::NonCanonicalFieldValue),
        }
    }
}

/// Round trip: decoding the decimal rendering of any digest gives the
/// digest back.
pub proof fn lemma_decimal_round_trip(d: PoseidonBN128HashOut)
    requires
        d.wf(),
    ensures
        spec_decode_decimal(spec_encode_decimal(d.value)) == Ok::<PoseidonBN128HashOut, HashError>(
            d,
        ),
{
    let v = d.value.as_nat();
    let t = spec_encode_decimal(d.value);
    lemma_dec_round_trip(v);
    assert(dec_val(t) == v);
    lemma_pow256_32();
    lemma_le_val_of_nat_to_le_bytes(v, 32);
    lemma_nat_to_le_bytes_len(v, 32);
    lemma_fr_of_le_bytes(nat_to_le_bytes(v, 32));
    Fr::lemma_as_nat_injective(fr_of_le_bytes(nat_to_le_bytes(v, 32)), d.value);
}

} // verus!
