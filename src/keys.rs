//! Key material: the secret scalar `alpha` and the public pair `(g2, g2 * alpha)`.
use crate::error::AccumulatorError;
use crate::field::{is_scalar_encoding, le_nat, Scalar};
use crate::group::G2Point;
use vstd::prelude::*;

verus! {

/// The trapdoor of an accumulator: a uniformly random scalar `alpha`.
pub struct SecretKey {
    pub alpha: Scalar,
}

/// The public pair `(g2, g2 * alpha)`.
pub struct PublicKey {
    pub g2: G2Point,
    pub alpha: G2Point,
}

/// The discrete logarithms of the public key that belongs to `alpha`.
pub open spec fn public_key_of(alpha: int) -> (int, int) {
    (1, alpha)
}

impl View for PublicKey {
    type V = (int, int);

    open spec fn view(&self) -> (int, int) {
        (self.g2@, self.alpha@)
    }
}

impl SecretKey {
    /// A key drawn from a secure random source.
    pub fn new() -> (r: SecretKey) {
        SecretKey { alpha: Scalar::random() }
    }

    /// The key with the given scalar.
    pub fn from_scalar(alpha: Scalar) -> (r: SecretKey)
        ensures
            r.alpha@ == alpha@,
    {
        SecretKey { alpha }
    }

    /// The public key `(g2, g2 * alpha)`: a function of `alpha` alone.
    pub fn to_public_key(&self) -> (r: PublicKey)
        ensures
            r@ == public_key_of(self.alpha@),
    {
        let g2 = G2Point::generator();
        let alpha = g2.mul(&self.alpha);
        proof {
            self.alpha.lemma_range();
            vstd::arithmetic::div_mod::lemma_small_mod(self.alpha@ as nat, crate::field::order() as nat);
        }
        PublicKey { g2, alpha }
    }

    /// The 32-byte little-endian encoding of `alpha`.
    pub fn to_bytes(&self) -> (r: Vec<u8>)
        ensures
            r@ == self.alpha.encoding(),
            is_scalar_encoding(r@),
            le_nat(r@) == self.alpha@,
    {
        let b = self.alpha.as_bytes();
        b.clone()
    }

    /// Reads a key from its 32-byte encoding.
    pub fn from_bytes(b: &[u8]) -> (r: Result<SecretKey, AccumulatorError>)
        ensures
            r is Ok <==> is_scalar_encoding(b@),
            r matches Ok(k) ==> k.alpha@ == le_nat(b@) && k.alpha.encoding() == b@,
            r matches Err(e) ==> e == AccumulatorError::ParseError,
    {
        match Scalar::from_bytes(b) {
            Some(alpha) => Ok(SecretKey { alpha }),
            None => Err(AccumulatorError::ParseError),
        }
    }
}

} // verus!
