use poseidon_bn128::digest::PoseidonBN128HashOut;
use poseidon_bn128::field::{Fr, GoldilocksElement};
use poseidon_bn128::permutation::RotationPermutation;
use poseidon_bn128::sponge::{PoseidonBN128Hash, GOLDILOCKS_ELEMENTS, RATE};

fn elems(values: &[u64]) -> Vec<GoldilocksElement> {
    values.iter().map(|&v| GoldilocksElement::new(v)).collect()
}

fn digest_from_limbs(l0: u64, l1: u64, l2: u64, l3: u64) -> PoseidonBN128HashOut {
    PoseidonBN128HashOut { value: Fr { l0, l1, l2, l3 } }
}

#[test]
fn constants() {
    assert_eq!(RATE, 3);
    assert_eq!(GOLDILOCKS_ELEMENTS, 3);
}

#[test]
fn hash_no_pad_empty_is_zero_digest() {
    let d = PoseidonBN128Hash::hash_no_pad(&RotationPermutation, &Vec::new());
    assert_eq!(d, PoseidonBN128HashOut::zero());
}

#[test]
fn hash_no_pad_deterministic() {
    let input = elems(&[5, 6, 7, 8, 9, 10, 11, 12, 13, 14, 15]);
    let a = PoseidonBN128Hash::hash_no_pad(&RotationPermutation, &input);
    let b = PoseidonBN128Hash::hash_no_pad(&RotationPermutation, &input);
    assert_eq!(a, b);
}

#[test]
fn hash_pad_deterministic() {
    let input = elems(&[1, 2, 3, 4, 5]);
    let a = PoseidonBN128Hash::hash_pad(&RotationPermutation, &input);
    let b = PoseidonBN128Hash::hash_pad(&RotationPermutation, &input);
    assert_eq!(a, b);
}

#[test]
fn two_to_one_deterministic() {
    let l = digest_from_limbs(1, 2, 3, 4);
    let r = digest_from_limbs(5, 6, 7, 8);
    let a = PoseidonBN128Hash::two_to_one(&RotationPermutation, l, r);
    let b = PoseidonBN128Hash::two_to_one(&RotationPermutation, l, r);
    assert_eq!(a, b);
}

#[test]
fn hash_pad_separates_prefix_pairs() {
    let x = elems(&[]);
    let y = elems(&[0, 0, 0, 1]);
    let hx = PoseidonBN128Hash::hash_pad(&RotationPermutation, &x);
    let hy = PoseidonBN128Hash::hash_pad(&RotationPermutation, &y);
    assert_ne!(hx, hy);

    let x2 = elems(&[1, 2, 3]);
    let y2 = elems(&[1, 2, 3, 4]);
    let hx2 = PoseidonBN128Hash::hash_pad(&RotationPermutation, &x2);
    let hy2 = PoseidonBN128Hash::hash_pad(&RotationPermutation, &y2);
    assert_ne!(hx2, hy2);
}

#[test]
fn hash_or_noop_boundary() {
    // At exactly GOLDILOCKS_ELEMENTS elements the no-op path packs the
    // values directly: no permutation touches the result.
    let short = elems(&[1, 2, 3]);
    let d = PoseidonBN128Hash::hash_or_noop(&RotationPermutation, &short);
    assert_eq!(d, digest_from_limbs(1, 2, 3, 0));

    // One element more takes the full sponge path.
    let long = elems(&[1, 2, 3, 4]);
    let d2 = PoseidonBN128Hash::hash_or_noop(&RotationPermutation, &long);
    let via_sponge = PoseidonBN128Hash::hash_no_pad(&RotationPermutation, &long);
    assert_eq!(d2, via_sponge);
    assert_ne!(d2, digest_from_limbs(1, 2, 3, 0));
}

#[test]
fn hash_or_noop_short_inputs_pack() {
    let d0 = PoseidonBN128Hash::hash_or_noop(&RotationPermutation, &Vec::new());
    assert_eq!(d0, PoseidonBN128HashOut::zero());
    let d1 = PoseidonBN128Hash::hash_or_noop(&RotationPermutation, &elems(&[77]));
    assert_eq!(d1, digest_from_limbs(77, 0, 0, 0));
}

#[test]
fn packing_three_elements_little_endian() {
    // Packing canonical values 1, 2, 3 gives the three low limbs and a
    // zero top limb, i.e. this exact 32-byte little-endian buffer.
    let d = PoseidonBN128Hash::hash_or_noop(&RotationPermutation, &elems(&[1, 2, 3]));
    let expected: Vec<u8> = vec![
        1, 0, 0, 0, 0, 0, 0, 0, //
        2, 0, 0, 0, 0, 0, 0, 0, //
        3, 0, 0, 0, 0, 0, 0, 0, //
        0, 0, 0, 0, 0, 0, 0, 0,
    ];
    assert_eq!(d.to_bytes(), expected);
}

#[test]
fn two_to_one_is_order_sensitive() {
    let a = digest_from_limbs(10, 0, 0, 0);
    let b = digest_from_limbs(20, 0, 0, 0);
    let ab = PoseidonBN128Hash::two_to_one(&RotationPermutation, a, b);
    let ba = PoseidonBN128Hash::two_to_one(&RotationPermutation, b, a);
    assert_ne!(ab, ba);
    // Equal children give equal parents, trivially.
    let aa1 = PoseidonBN128Hash::two_to_one(&RotationPermutation, a, a);
    let aa2 = PoseidonBN128Hash::two_to_one(&RotationPermutation, a, a);
    assert_eq!(aa1, aa2);
}

#[test]
fn hash_no_pad_groups_by_nine() {
    // 13 elements: two permutation calls; the second group overwrites the
    // first two rate slots and leaves the third.  With the rotation
    // stand-in the digest is a plain function of the packed groups, fixed
    // here as a regression value: the rotation lifts the second round's
    // second rate slot, pack(13), into the capacity slot.
    let input = elems(&[1, 2, 3, 4, 5, 6, 7, 8, 9, 10, 11, 12, 13]);
    let d = PoseidonBN128Hash::hash_no_pad(&RotationPermutation, &input);
    assert_eq!(d, digest_from_limbs(13, 0, 0, 0));

    // 10 elements: the second group fills one rate slot only, and the slot
    // the rotation lifts still holds the zero left there by round one.
    let input10 = elems(&[1, 2, 3, 4, 5, 6, 7, 8, 9, 10]);
    let d10 = PoseidonBN128Hash::hash_no_pad(&RotationPermutation, &input10);
    assert_eq!(d10, PoseidonBN128HashOut::zero());
}

#[test]
fn hash_pad_empty_input_pads_to_one_group() {
    // pad([]) = [1, 0,0,0,0,0,0,0, 1]: one group of nine.
    let d = PoseidonBN128Hash::hash_pad(&RotationPermutation, &elems(&[]));
    // Groups pack to: pack(1,0,0), pack(0,0,0), pack(0,0,1); the rotation
    // stand-in lifts the middle one into the capacity slot.
    assert_eq!(d, PoseidonBN128HashOut::zero());
    // Seven elements pad to [e.., 1, 1]: still one group of nine.
    let d7 = PoseidonBN128Hash::hash_pad(&RotationPermutation, &elems(&[9, 9, 9, 9, 9, 9, 9]));
    assert_eq!(d7, digest_from_limbs(9, 9, 9, 0));
}
