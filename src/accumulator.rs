//! The accumulator value and the elements that it absorbs.
use crate::error::AccumulatorError;
use crate::field::{be_nat, order, Scalar};
use crate::group::{g1_encoding, in_field, is_g1_encoding, G1Point};
use crate::keys::SecretKey;
use sha2::{Digest, Sha256};
use vstd::prelude::*;

verus! {

/// The SHA-256 digest of a byte string.
pub uninterp spec fn sha256_of(b: Seq<u8>) -> Seq<u8>;

/// Relies on sha2's `Sha256::digest`: 32 bytes that depend on the input alone.
#[verifier::external_body]
pub(crate) fn sha256(b: &Vec<u8>) -> (r: Vec<u8>)
    ensures
        r@ == sha256_of(b@),
        r@.len() == 32,
{
    Sha256::digest(&b[..]).to_vec()
}

/// The accumulator after absorbing an element whose point has logarithm `x_pt`:
/// `X + A * alpha`.
pub open spec fn add_spec(a: int, x_pt: int, alpha: int) -> int {
    (x_pt + a * alpha) % order()
}

/// The scalar that a payload is hashed to.
pub open spec fn hash_to_field_spec(message: Seq<u8>) -> int {
    be_nat(sha256_of(message)) % order()
}

/// A constant-size commitment to the elements added so far: one point of G1.
pub struct Accumulator {
    pub value: G1Point,
}

/// An accumulatable value: a scalar `x` and the point that should be `g1 * x`.
pub struct Element {
    pub value: G1Point,
    pub x: Scalar,
}

impl Element {
    /// `value` is `g1 * x`, as the element's two halves should agree.
    pub open spec fn is_consistent(&self) -> bool {
        self.value@ == self.x@
    }

    /// The element `(x, g1 * x)`.
    pub fn from_scalar(x: Scalar) -> (r: Element)
        ensures
            r.x@ == x@,
            r.value@ == x@,
            r.is_consistent(),
    {
        let value = G1Point::from_scalar(&x);
        Element { value, x }
    }

    /// The element of a payload: `x` is its SHA-256 digest, read big-endian,
    /// reduced modulo the order.
    pub fn from_payload(message: &Vec<u8>) -> (r: Element)
        ensures
            r.x@ == hash_to_field_spec(message@),
            r.is_consistent(),
    {
        Element::from_scalar(hash_to_field(message))
    }
}

/// SHA-256 of the payload, read as a big-endian integer, reduced modulo the order.
pub fn hash_to_field(message: &Vec<u8>) -> (r: Scalar)
    ensures
        r@ == hash_to_field_spec(message@),
{
    let digest = sha256(message);
    Scalar::from_be_bytes_mod_order(&digest)
}

impl Accumulator {
    /// The empty accumulator: the generator `g1`.
    pub fn new() -> (r: Accumulator)
        ensures
            r.value@ == 1,
    {
        Accumulator { value: G1Point::generator() }
    }

    /// Absorbs an element: `A <- X + A * alpha`.
    pub fn add(&mut self, sk: &SecretKey, elem: &Element)
        ensures
            final(self).value@ == add_spec(old(self).value@, elem.value@, sk.alpha@),
    {
        let alpha_point = self.value.mul(&sk.alpha);
        self.value = elem.value.plus(&alpha_point);
        proof {
            let m = order();
            let (a, x, s) = (old(self).value@, elem.value@, sk.alpha@);
            vstd::arithmetic::div_mod::lemma_add_mod_noop_right(x, a * s, m);
            old(self).value.lemma_range();
            elem.value.lemma_range();
            vstd::arithmetic::div_mod::lemma_small_mod(x as nat, m as nat);
        }
    }

    /// The canonical uncompressed encoding of the accumulator's point.
    pub fn to_bytes(&self) -> (r: Vec<u8>)
        ensures
            r@ == g1_encoding(self.value@),
    {
        self.value.to_bytes()
    }

    /// Reads an accumulator from its encoding; a `ParseError` unless the bytes
    /// encode a point of G1. Reading what `to_bytes` wrote gives the same point.
    pub fn from_bytes(b: &Vec<u8>) -> (r: Result<Accumulator, AccumulatorError>)
        ensures
            r is Ok <==> is_g1_encoding(b@),
            r matches Ok(a) ==> g1_encoding(a.value@) == b@,
            r matches Err(e) ==> e == AccumulatorError::ParseError,
            forall|k: int| in_field(k) && #[trigger] g1_encoding(k) == b@ ==> (r matches Ok(a) && a.value@ == k),
    {
        match G1Point::from_bytes(b) {
            Some(value) => Ok(Accumulator { value }),
            None => Err(AccumulatorError::ParseError),
        }
    }
}

} // verus!
