//! The operations offered to a host language, on byte strings: keys,
//! accumulators and proofs cross the boundary in their encodings, and
//! elements as payloads that are hashed to scalars.
use crate::accumulator::{add_spec, hash_to_field_spec, Accumulator, Element};
use crate::error::AccumulatorError;
use crate::field::{is_scalar_encoding, le_nat, order};
use crate::group::{g1_encoding, g2_encoding, in_field, G2Point};
use crate::keys::SecretKey;
use crate::witness::MembershipWitness;
use crate::zkproof::{challenge_of, proof_bytes, proof_equation, MembershipProof};
use rand::RngCore;
use vstd::prelude::*;

verus! {

/// Relies on rand's `OsRng::fill_bytes`: 16 bytes from the operating system.
#[verifier::external_body]
fn random_nonce() -> (r: Vec<u8>)
    ensures
        r@.len() == 16,
{
    let mut nonce = vec![0u8; 16];
    rand::rngs::OsRng.fill_bytes(&mut nonce);
    nonce
}

/// An accumulator together with the secret key that updates it.
pub struct AccumulatorResource {
    pub sk: SecretKey,
    pub acc: Accumulator,
}

/// A fresh secret key, in its 32-byte encoding.
pub fn generate_key() -> (r: Vec<u8>)
    ensures
        is_scalar_encoding(r@),
{
    SecretKey::new().to_bytes()
}

/// An empty accumulator under the key with the given encoding; a
/// `ParseError` unless the bytes are a canonical scalar.
pub fn new_accumulator(secret_key_bytes: &Vec<u8>) -> (r: Result<
    AccumulatorResource,
    AccumulatorError,
>)
    ensures
        r is Ok <==> is_scalar_encoding(secret_key_bytes@),
        r matches Ok(res) ==> res.sk.alpha@ == le_nat(secret_key_bytes@) && res.acc.value@ == 1,
        r matches Err(e) ==> e == AccumulatorError::ParseError,
{
    match SecretKey::from_bytes(secret_key_bytes.as_slice()) {
        Ok(sk) => Ok(AccumulatorResource { sk, acc: Accumulator::new() }),
        Err(e) => Err(e),
    }
}

/// The encoding of the accumulator's current value.
pub fn export_accumulator(resource: &AccumulatorResource) -> (r: Vec<u8>)
    ensures
        r@ == g1_encoding(resource.acc.value@),
{
    resource.acc.to_bytes()
}

/// Adds the element of a payload to the accumulator.
pub fn add_element(resource: &mut AccumulatorResource, message: &Vec<u8>)
    ensures
        final(resource).sk.alpha@ == old(resource).sk.alpha@,
        final(resource).acc.value@ == add_spec(
            old(resource).acc.value@,
            hash_to_field_spec(message@),
            old(resource).sk.alpha@,
        ),
{
    let elem = Element::from_payload(message);
    resource.acc.add(&resource.sk, &elem);
}

/// A membership proof for the element of a payload, in its encoding, and a
/// 16-byte random nonce that the caller hands back on verification as an
/// opaque tag (the challenge does not cover it). `SingularInput` exactly
/// when `x + alpha` is zero.
pub fn get_membership_proof(resource: &AccumulatorResource, message: &Vec<u8>) -> (r: Result<
    (Vec<u8>, Vec<u8>),
    AccumulatorError,
>)
    ensures
        r is Err <==> (hash_to_field_spec(message@) + resource.sk.alpha@) % order() == 0,
        r matches Err(e) ==> e == AccumulatorError::SingularInput,
        r matches Ok((p, n)) ==> n@.len() == 16 && exists|t1: int, s: Seq<u8>|
            in_field(t1) && is_scalar_encoding(s) && #[trigger] proof_bytes(t1, 1, s) == p@
                && le_nat(s) == (t1 + challenge_of(
                resource.acc.value@,
                hash_to_field_spec(message@),
                t1,
                1,
            ) * hash_to_field_spec(message@)) % order(),
{
    let nonce = random_nonce();
    let elem = Element::from_payload(message);
    let pk = resource.sk.to_public_key();
    match MembershipWitness::generate(&resource.acc, &resource.sk, &elem) {
        Err(e) => Err(e),
        Ok(witness) => {
            let proof = witness.create_proof(&resource.acc, &elem, &pk);
            let bytes = proof.to_bytes();
            let _ = proof.response.as_bytes();
            proof {
                proof.commitment.t1.lemma_range();
                let s = proof.response.encoding();
                assert(proof_bytes(proof.commitment.t1@, 1, s) == bytes@);
                assert(is_scalar_encoding(s) && le_nat(s) == proof.response@);
            }
            Ok((bytes, nonce))
        },
    }
}

/// Checks a membership proof for the element of a payload against an
/// accumulator, both in their encodings; `ParseError` where the bytes do not
/// parse. The nonce is an opaque tag and takes no part in the check.
pub fn verify_membership_proof(
    acc_bytes: &Vec<u8>,
    proof_bytes_in: &Vec<u8>,
    nonce: &Vec<u8>,
    message: &Vec<u8>,
) -> (r: Result<bool, AccumulatorError>)
    ensures
        r matches Err(e) ==> e == AccumulatorError::ParseError,
        forall|a: int, t1: int, t2: int, s: Seq<u8>|
            in_field(a) && #[trigger] g1_encoding(a) == acc_bytes@ && in_field(t1) && in_field(t2)
                && g1_encoding(t1).len() == 96 && g2_encoding(t2).len() == 192 && is_scalar_encoding(
                s,
            ) && #[trigger] proof_bytes(t1, t2, s) == proof_bytes_in@ ==> r == Ok::<
                bool,
                AccumulatorError,
            >(
                proof_equation(
                    le_nat(s),
                    t1,
                    hash_to_field_spec(message@),
                    challenge_of(a, hash_to_field_spec(message@), t1, t2),
                    1,
                ),
            ),
{
    let acc = match Accumulator::from_bytes(acc_bytes) {
        Ok(a) => a,
        Err(e) => { return Err(e); },
    };
    let proof = match MembershipProof::from_bytes(proof_bytes_in) {
        Ok(p) => p,
        Err(e) => { return Err(e); },
    };
    let elem = Element::from_payload(message);
    let g2 = G2Point::generator();
    Ok(proof.verify_with(&acc, &elem, &g2))
}

} // verus!
