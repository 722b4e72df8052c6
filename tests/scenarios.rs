use crypto_accumulator::accumulator::hash_to_field;
use crypto_accumulator::group::{G1Point, G2Point};
use crypto_accumulator::{
    Accumulator, AccumulatorError, Element, MembershipProof, MembershipWitness,
    NonMembershipWitness, ProofCommitment, Scalar, SecretKey,
};

fn element(x: u64) -> Element {
    Element::from_scalar(Scalar::from_u64(x))
}

fn scalar_bytes(x: u64) -> Vec<u8> {
    Scalar::from_u64(x).to_bytes()
}

/// The order of the scalar field minus five, little-endian.
const ORDER_MINUS_FIVE: [u8; 32] = [
    252, 255, 255, 255, 254, 255, 255, 255, 254, 91, 254, 255, 2, 164, 189, 83, 5, 216, 161, 9, 8,
    216, 57, 51, 72, 125, 157, 41, 83, 167, 237, 115,
];

#[test]
fn membership_witness_verifies_after_add() {
    let sk = SecretKey::new();
    let pk = sk.to_public_key();
    let mut acc = Accumulator::new();
    let e = element(42);
    acc.add(&sk, &e);
    let w = MembershipWitness::generate(&acc, &sk, &e).unwrap();
    assert!(w.verify(&acc, &e, &pk));
}

#[test]
fn membership_witness_rejects_non_member() {
    let sk = SecretKey::new();
    let pk = sk.to_public_key();
    let mut acc = Accumulator::new();
    acc.add(&sk, &element(42));
    let other = element(43);
    let w = MembershipWitness::generate(&acc, &sk, &other).unwrap();
    assert!(!w.verify(&acc, &other, &pk));
}

#[test]
fn non_membership_witness_then_invalidated_by_add() {
    let sk = SecretKey::new();
    let pk = sk.to_public_key();
    let mut acc = Accumulator::new();
    acc.add(&sk, &element(42));
    let other = element(43);
    let n = NonMembershipWitness::generate(&acc, &sk, &other).unwrap();
    assert!(n.verify(&acc, &other, &pk));
    acc.add(&sk, &other);
    assert!(!n.verify(&acc, &other, &pk));
}

#[test]
fn membership_proof_verifies_and_rejects_tampering() {
    let sk = SecretKey::new();
    let pk = sk.to_public_key();
    let mut acc = Accumulator::new();
    let e = element(42);
    acc.add(&sk, &e);
    let w = MembershipWitness::generate(&acc, &sk, &e).unwrap();
    let p = w.create_proof(&acc, &e, &pk);
    assert!(p.verify(&acc, &e, &pk));

    let tampered_elem = Element { value: G1Point::from_scalar(&Scalar::from_u64(43)), x: Scalar::from_u64(42) };
    assert!(!p.verify(&acc, &tampered_elem, &pk));

    let tampered = MembershipProof {
        commitment: ProofCommitment { t1: p.commitment.t1.mul(&Scalar::from_u64(1)), t2: p.commitment.t2.copy() },
        response: p.response.plus(&Scalar::from_u64(1)),
    };
    assert!(!tampered.verify(&acc, &e, &pk));

    assert!(!p.verify(&acc, &element(99), &pk));
}

#[test]
fn accumulator_bytes_round_trip() {
    let sk = SecretKey::new();
    let mut acc = Accumulator::new();
    acc.add(&sk, &element(42));
    let bytes = acc.to_bytes();
    assert_eq!(bytes.len(), 96);
    let back = Accumulator::from_bytes(&bytes).unwrap();
    assert_eq!(back.to_bytes(), bytes);
    assert!(back.value.equals(&acc.value));
}

#[test]
fn insertion_order_is_observable() {
    let sk = SecretKey::from_scalar(Scalar::from_u64(7));
    let (a, b) = (element(11), element(13));
    let mut first = Accumulator::new();
    first.add(&sk, &a);
    first.add(&sk, &b);
    let mut second = Accumulator::new();
    second.add(&sk, &b);
    second.add(&sk, &a);
    assert_ne!(first.to_bytes(), second.to_bytes());
}

#[test]
fn public_key_is_a_function_of_the_secret() {
    let sk = SecretKey::from_scalar(Scalar::from_u64(9));
    let same = SecretKey::from_bytes(&sk.to_bytes()).unwrap();
    let (p, q) = (sk.to_public_key(), same.to_public_key());
    assert_eq!(p.g2.to_bytes(), q.g2.to_bytes());
    assert_eq!(p.alpha.to_bytes(), q.alpha.to_bytes());
    assert_eq!(p.g2.to_bytes(), G2Point::generator().to_bytes());
    assert_eq!(p.alpha.to_bytes(), G2Point::generator().mul(&Scalar::from_u64(9)).to_bytes());
    let other = SecretKey::from_scalar(Scalar::from_u64(10)).to_public_key();
    assert_ne!(p.alpha.to_bytes(), other.alpha.to_bytes());
}

#[test]
fn secret_key_bytes_round_trip() {
    let sk = SecretKey::new();
    let bytes = sk.to_bytes();
    assert_eq!(bytes.len(), 32);
    assert_eq!(SecretKey::from_bytes(&bytes).unwrap().to_bytes(), bytes);
    assert_eq!(SecretKey::from_scalar(Scalar::from_u64(258)).to_bytes()[..3], [2, 1, 0]);
}

#[test]
fn proof_bytes_round_trip() {
    let sk = SecretKey::new();
    let pk = sk.to_public_key();
    let mut acc = Accumulator::new();
    let e = element(42);
    acc.add(&sk, &e);
    let w = MembershipWitness::generate(&acc, &sk, &e).unwrap();
    let p = w.create_proof(&acc, &e, &pk);
    let bytes = p.to_bytes();
    assert_eq!(bytes.len(), 320);
    let back = MembershipProof::from_bytes(&bytes).unwrap();
    assert_eq!(back.to_bytes(), bytes);
    assert!(back.verify(&acc, &e, &pk));
}

#[test]
fn malformed_bytes_are_parse_errors() {
    assert_eq!(Accumulator::from_bytes(&vec![0u8; 10]).err(), Some(AccumulatorError::ParseError));
    assert_eq!(Accumulator::from_bytes(&vec![7u8; 96]).err(), Some(AccumulatorError::ParseError));
    assert_eq!(SecretKey::from_bytes(&[0xffu8; 32]).err(), Some(AccumulatorError::ParseError));
    assert_eq!(SecretKey::from_bytes(&[1u8; 31]).err(), Some(AccumulatorError::ParseError));
    assert_eq!(MembershipProof::from_bytes(&vec![0u8; 319]).err(), Some(AccumulatorError::ParseError));
    assert_eq!(AccumulatorError::ParseError.message(), "malformed bytes");
}

#[test]
fn zero_sum_is_singular_input() {
    let sk = SecretKey::from_scalar(Scalar::from_u64(5));
    let minus_five = Scalar::from_bytes(&ORDER_MINUS_FIVE).unwrap();
    let e = Element::from_scalar(Scalar::from_bytes(&ORDER_MINUS_FIVE).unwrap());
    let acc = Accumulator::new();
    assert_eq!(MembershipWitness::generate(&acc, &sk, &e).err(), Some(AccumulatorError::SingularInput));
    assert_eq!(NonMembershipWitness::generate(&acc, &sk, &e).err(), Some(AccumulatorError::SingularInput));
    assert_eq!(Scalar::from_u64(5).plus(&minus_five).to_bytes(), scalar_bytes(0));
}

#[test]
fn non_membership_witness_fails_for_other_element() {
    let sk = SecretKey::new();
    let pk = sk.to_public_key();
    let mut acc = Accumulator::new();
    acc.add(&sk, &element(42));
    let n = NonMembershipWitness::generate(&acc, &sk, &element(43)).unwrap();
    assert!(!n.verify(&acc, &element(123), &pk));
}

#[test]
fn hash_to_field_reads_digest_big_endian() {
    let expected: Vec<u8> = vec![
        172, 21, 0, 242, 98, 255, 16, 180, 157, 30, 25, 150, 160, 189, 69, 92, 30, 74, 12, 84, 214,
        104, 7, 14, 162, 82, 100, 101, 108, 111, 138, 70,
    ];
    assert_eq!(hash_to_field(&b"abc".to_vec()).to_bytes(), expected);
    let e = Element::from_payload(&b"abc".to_vec());
    assert_eq!(e.x.to_bytes(), expected);
    assert!(e.value.equals(&G1Point::from_scalar(&hash_to_field(&b"abc".to_vec()))));
}

#[test]
fn scalar_arithmetic_is_modular() {
    assert_eq!(Scalar::from_u64(2).plus(&Scalar::from_u64(3)).to_bytes(), scalar_bytes(5));
    assert_eq!(Scalar::from_u64(6).times(&Scalar::from_u64(7)).to_bytes(), scalar_bytes(42));
    let inv = Scalar::from_u64(2).inverse().unwrap();
    assert_eq!(inv.times(&Scalar::from_u64(2)).to_bytes(), scalar_bytes(1));
    assert!(Scalar::from_u64(0).inverse().is_none());
    let minus_five = Scalar::from_bytes(&ORDER_MINUS_FIVE).unwrap();
    assert_eq!(minus_five.plus(&Scalar::from_u64(7)).to_bytes(), scalar_bytes(2));
    // The order plus two.
    let mut wide = ORDER_MINUS_FIVE.to_vec();
    wide[..8].copy_from_slice(&[3, 0, 0, 0, 255, 255, 255, 255]);
    assert_eq!(Scalar::from_le_bytes_mod_order(&wide).to_bytes(), scalar_bytes(2));
    assert_eq!(Scalar::from_be_bytes_mod_order(&vec![1, 0]).to_bytes(), scalar_bytes(256));
}

#[test]
fn group_operations_agree() {
    let g = G1Point::generator();
    let two = Scalar::from_u64(2);
    assert_eq!(&g.to_bytes()[..4], &[0x17, 0xf1, 0xd3, 0xa7]);
    assert_eq!(g.mul(&Scalar::from_u64(1)).to_bytes(), g.to_bytes());
    assert_ne!(g.mul(&two).to_bytes(), g.to_bytes());
    assert!(g.plus(&g).equals(&g.mul(&two)));
    assert!(!g.plus(&g).equals(&g));
    assert!(g.plus(&g.neg()).equals(&G1Point::from_scalar(&Scalar::from_u64(0))));
    let h = G2Point::generator();
    assert_eq!(h.plus(&h).to_bytes(), h.mul(&two).to_bytes());
    assert_eq!(G1Point::from_bytes(&g.to_bytes()).unwrap().to_bytes(), g.to_bytes());
    assert!(G1Point::from_bytes(&vec![1u8; 96]).is_none());
    assert_eq!(G2Point::from_bytes(&h.to_bytes()).unwrap().to_bytes(), h.to_bytes());
}

#[test]
fn add_follows_the_update_rule() {
    let sk = SecretKey::from_scalar(Scalar::from_u64(3));
    let mut acc = Accumulator::new();
    acc.add(&sk, &element(4));
    assert!(acc.value.equals(&G1Point::from_scalar(&Scalar::from_u64(7))));
    acc.add(&sk, &element(5));
    assert!(acc.value.equals(&G1Point::from_scalar(&Scalar::from_u64(26))));
}

#[test]
fn membership_witness_for_earlier_element_fails() {
    let sk = SecretKey::from_scalar(Scalar::from_u64(3));
    let pk = sk.to_public_key();
    let mut acc = Accumulator::new();
    let a = element(4);
    acc.add(&sk, &a);
    acc.add(&sk, &element(5));
    let w = MembershipWitness::generate(&acc, &sk, &a).unwrap();
    assert!(!w.verify(&acc, &a, &pk));
}
