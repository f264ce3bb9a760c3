use poseidon_bn128::digest::PoseidonBN128HashOut;
use poseidon_bn128::field::{
    Fr, GoldilocksElement, FR_MODULUS_L0, FR_MODULUS_L1, FR_MODULUS_L2, FR_MODULUS_L3,
};
use poseidon_bn128::HashError;

fn digest_from_limbs(l0: u64, l1: u64, l2: u64, l3: u64) -> PoseidonBN128HashOut {
    PoseidonBN128HashOut { value: Fr { l0, l1, l2, l3 } }
}

fn modulus_bytes() -> Vec<u8> {
    let mut v = Vec::new();
    v.extend_from_slice(&FR_MODULUS_L0.to_le_bytes());
    v.extend_from_slice(&FR_MODULUS_L1.to_le_bytes());
    v.extend_from_slice(&FR_MODULUS_L2.to_le_bytes());
    v.extend_from_slice(&FR_MODULUS_L3.to_le_bytes());
    v
}

#[test]
fn bytes_round_trip() {
    let d = digest_from_limbs(0x0123456789ABCDEF, 42, 7, 0x1064_4E72_E131_A029);
    let bytes = d.to_bytes();
    assert_eq!(bytes.len(), 32);
    let back = PoseidonBN128HashOut::from_bytes(&bytes).unwrap();
    assert_eq!(back, d);
}

#[test]
fn bytes_round_trip_zero() {
    let d = PoseidonBN128HashOut::zero();
    let bytes = d.to_bytes();
    assert_eq!(bytes, vec![0u8; 32]);
    assert_eq!(PoseidonBN128HashOut::from_bytes(&bytes).unwrap(), d);
}

#[test]
fn from_bytes_rejects_wrong_length() {
    assert_eq!(
        PoseidonBN128HashOut::from_bytes(&vec![0u8; 31]),
        Err(HashError::MalformedBytes)
    );
    assert_eq!(
        PoseidonBN128HashOut::from_bytes(&vec![0u8; 33]),
        Err(HashError::MalformedBytes)
    );
    assert_eq!(
        PoseidonBN128HashOut::from_bytes(&Vec::new()),
        Err(HashError::MalformedBytes)
    );
}

#[test]
fn from_bytes_rejects_non_canonical() {
    // The modulus itself is the smallest non-canonical value.
    assert_eq!(
        PoseidonBN128HashOut::from_bytes(&modulus_bytes()),
        Err(HashError::MalformedBytes)
    );
    // All-ones is far above the modulus.
    assert_eq!(
        PoseidonBN128HashOut::from_bytes(&vec![0xFFu8; 32]),
        Err(HashError::MalformedBytes)
    );
    // One below the modulus is canonical.
    let mut below = modulus_bytes();
    below[0] -= 1;
    let d = PoseidonBN128HashOut::from_bytes(&below).unwrap();
    assert_eq!(d.value.l0, FR_MODULUS_L0 - 1);
    assert_eq!(d.value.l3, FR_MODULUS_L3);
}

#[test]
fn to_vec_unpacks_seven_byte_chunks() {
    let d = digest_from_limbs(0x0123456789ABCDEF, 0, 0, 0);
    let elems = d.to_vec();
    assert_eq!(elems.len(), 5);
    // First 7 bytes: EF CD AB 89 67 45 23 -> 0x23456789ABCDEF.
    assert_eq!(elems[0].value, 0x23456789ABCDEF);
    // Byte 7 is 0x01, the rest of the chunk is zero.
    assert_eq!(elems[1].value, 1);
    assert_eq!(elems[2].value, 0);
    assert_eq!(elems[3].value, 0);
    assert_eq!(elems[4].value, 0);
}

#[test]
fn to_vec_repack_reproduces_bytes() {
    let d = digest_from_limbs(0xDEADBEEF12345678, 0xFFFF_FFFF_FFFF_FFFF, 3, 0x2222);
    let bytes = d.to_bytes();
    let elems = d.to_vec();
    assert_eq!(elems.len(), 5);
    let mut repacked: Vec<u8> = Vec::new();
    for (i, e) in elems.iter().enumerate() {
        let width = if i == 4 { 4 } else { 7 };
        repacked.extend_from_slice(&e.value.to_le_bytes()[..width]);
    }
    assert_eq!(repacked, bytes);
    // Every unpacked element is below 2^56, hence canonical.
    for e in &elems {
        assert!(e.value < (1u64 << 56));
        assert!(e.value < poseidon_bn128::field::GOLDILOCKS_MODULUS);
    }
}

#[test]
fn decimal_round_trip() {
    let d = digest_from_limbs(0xA5A5_A5A5_5A5A_5A5A, 99, 0, 17);
    let s = d.encode_decimal();
    let back = PoseidonBN128HashOut::decode_decimal(&s).unwrap();
    assert_eq!(back, d);
}

#[test]
fn decimal_zero_digest() {
    let zero = PoseidonBN128HashOut::zero();
    assert_eq!(zero.encode_decimal(), "0");
    assert_eq!(PoseidonBN128HashOut::decode_decimal("0").unwrap(), zero);
}

#[test]
fn decimal_small_values() {
    assert_eq!(
        PoseidonBN128HashOut::decode_decimal("256").unwrap(),
        digest_from_limbs(256, 0, 0, 0)
    );
    assert_eq!(digest_from_limbs(256, 0, 0, 0).encode_decimal(), "256");
    assert_eq!(
        digest_from_limbs(0, 1, 0, 0).encode_decimal(),
        "18446744073709551616"
    );
    assert_eq!(
        PoseidonBN128HashOut::decode_decimal("18446744073709551616").unwrap(),
        digest_from_limbs(0, 1, 0, 0)
    );
}

#[test]
fn decimal_rejects_invalid_text() {
    for s in ["", "12a", "a12", "+5", "-5", "1_0", " 1", "1 "] {
        assert_eq!(
            PoseidonBN128HashOut::decode_decimal(s),
            Err(HashError::InvalidDecimalString),
            "input {:?}",
            s
        );
    }
}

#[test]
fn decimal_rejects_non_canonical() {
    // The field modulus, written in base 10.
    let modulus = "21888242871839275222246405745257275088548364400416034343698204186575808495617";
    assert_eq!(
        PoseidonBN128HashOut::decode_decimal(modulus),
        Err(HashError::NonCanonicalFieldValue)
    );
    // One below the modulus is canonical, and encodes back to itself.
    let below = "21888242871839275222246405745257275088548364400416034343698204186575808495616";
    let d = PoseidonBN128HashOut::decode_decimal(below).unwrap();
    assert_eq!(d.encode_decimal(), below);
    // A much longer number is rejected, not truncated.
    let huge = "115792089237316195423570985008687907853269984665640564039457584007913129639936";
    assert_eq!(
        PoseidonBN128HashOut::decode_decimal(huge),
        Err(HashError::NonCanonicalFieldValue)
    );
}

#[test]
fn goldilocks_element_bounds() {
    let e = GoldilocksElement::new(poseidon_bn128::field::GOLDILOCKS_MODULUS - 1);
    assert_eq!(e.value, 0xFFFF_FFFF_0000_0000);
    assert_eq!(GoldilocksElement::zero().value, 0);
    assert_eq!(GoldilocksElement::one().value, 1);
}

#[test]
fn fr_from_limbs_checks_canonical_form() {
    assert!(Fr::from_limbs(FR_MODULUS_L0, FR_MODULUS_L1, FR_MODULUS_L2, FR_MODULUS_L3).is_none());
    assert!(Fr::from_limbs(u64::MAX, u64::MAX, u64::MAX, u64::MAX).is_none());
    let f = Fr::from_limbs(FR_MODULUS_L0 - 1, FR_MODULUS_L1, FR_MODULUS_L2, FR_MODULUS_L3);
    assert!(f.is_some());
    assert!(Fr::from_limbs(0, 0, 0, 0).is_some());
}
