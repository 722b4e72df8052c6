use crypto_accumulator::binding::{
    add_element, export_accumulator, generate_key, get_membership_proof, new_accumulator,
    verify_membership_proof,
};
use crypto_accumulator::{Accumulator, AccumulatorError};

#[test]
fn binding_proof_round_trip() {
    let key = generate_key();
    assert_eq!(key.len(), 32);
    let mut res = new_accumulator(&key).unwrap();
    let empty = export_accumulator(&res);
    assert_eq!(empty, Accumulator::new().to_bytes());
    add_element(&mut res, &b"payload".to_vec());
    let acc_bytes = export_accumulator(&res);
    assert_ne!(acc_bytes, empty);
    let (proof, nonce) = get_membership_proof(&res, &b"payload".to_vec()).unwrap();
    assert_eq!(nonce.len(), 16);
    assert_eq!(verify_membership_proof(&acc_bytes, &proof, &nonce, &b"payload".to_vec()), Ok(true));
    assert_eq!(verify_membership_proof(&acc_bytes, &proof, &nonce, &b"other".to_vec()), Ok(false));
}

#[test]
fn binding_rejects_malformed_input() {
    assert_eq!(new_accumulator(&vec![0xffu8; 32]).err(), Some(AccumulatorError::ParseError));
    let res = new_accumulator(&generate_key()).unwrap();
    let acc_bytes = export_accumulator(&res);
    assert_eq!(
        verify_membership_proof(&vec![1u8; 96], &vec![0u8; 320], &vec![0u8; 16], &b"x".to_vec()),
        Err(AccumulatorError::ParseError)
    );
    assert_eq!(
        verify_membership_proof(&acc_bytes, &vec![0u8; 12], &vec![0u8; 16], &b"x".to_vec()),
        Err(AccumulatorError::ParseError)
    );
}
