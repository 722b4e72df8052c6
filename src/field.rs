//! The scalar field Fr of BLS12-381, whose prime order is shared by G1, G2 and GT.
use ark_bls12_381::Fr;
use ark_ff::{BigInteger, Field, PrimeField, UniformRand};
use ark_serialize::CanonicalDeserialize;
use vstd::prelude::*;

verus! {

/// The order r of the scalar field (and of the groups G1, G2, GT).
pub open spec fn order() -> int {
    let w: int = 0x1_0000_0000_0000_0000;
    ((0x73ed_a753_299d_7d48int * w + 0x3339_d808_09a1_d805int) * w + 0x53bd_a402_fffe_5bfeint) * w
        + 0xffff_ffff_0000_0001int
}

/// The integer that a byte string denotes when read little-endian.
pub open spec fn le_nat(b: Seq<u8>) -> int
    decreases b.len(),
{
    if b.len() == 0 {
        0
    } else {
        b[0] as int + 256 * le_nat(b.subrange(1, b.len() as int))
    }
}

/// The integer that a byte string denotes when read big-endian.
pub open spec fn be_nat(b: Seq<u8>) -> int
    decreases b.len(),
{
    if b.len() == 0 {
        0
    } else {
        be_nat(b.drop_last()) * 256 + b.last() as int
    }
}

/// The canonical encoding of a scalar: 32 bytes, little-endian, below the order.
pub open spec fn is_scalar_encoding(b: Seq<u8>) -> bool {
    b.len() == 32 && 0 <= le_nat(b) < order()
}

/// An element of Fr, held as its canonical 32-byte little-endian encoding.
pub struct Scalar {
    bytes: Vec<u8>,
}

impl View for Scalar {
    type V = int;

    closed spec fn view(&self) -> int {
        le_nat(self.bytes@) % order()
    }
}

/// Relies on ark-ff's `From<u64>` for `Fr`: the integer, reduced modulo the order.
#[verifier::external_body]
fn fr_from_u64(v: u64) -> (r: Vec<u8>)
    ensures
        r@.len() == 32,
        le_nat(r@) == v as int % order(),
{
    Fr::from(v).into_bigint().to_bytes_le()
}

/// Relies on ark-ff's `Add` for `Fr`: the sum modulo the order.
#[verifier::external_body]
fn fr_add(a: &Vec<u8>, b: &Vec<u8>) -> (r: Vec<u8>)
    ensures
        r@.len() == 32,
        le_nat(r@) == (le_nat(a@) + le_nat(b@)) % order(),
{
    let x = Fr::from_le_bytes_mod_order(a);
    let y = Fr::from_le_bytes_mod_order(b);
    (x + y).into_bigint().to_bytes_le()
}

/// Relies on ark-ff's `Mul` for `Fr`: the product modulo the order.
#[verifier::external_body]
fn fr_mul(a: &Vec<u8>, b: &Vec<u8>) -> (r: Vec<u8>)
    ensures
        r@.len() == 32,
        le_nat(r@) == (le_nat(a@) * le_nat(b@)) % order(),
{
    let x = Fr::from_le_bytes_mod_order(a);
    let y = Fr::from_le_bytes_mod_order(b);
    (x * y).into_bigint().to_bytes_le()
}

/// Relies on ark-ff's `Field::inverse` for `Fr`: none for zero, else the
/// multiplicative inverse modulo the order.
#[verifier::external_body]
fn fr_inverse(a: &Vec<u8>) -> (r: Option<Vec<u8>>)
    ensures
        r is None <==> le_nat(a@) % order() == 0,
        r matches Some(v) ==> is_scalar_encoding(v@) && (le_nat(a@) * le_nat(v@)) % order() == 1,
{
    Fr::from_le_bytes_mod_order(a).inverse().map(|v| v.into_bigint().to_bytes_le())
}

/// Relies on ark-ff's `UniformRand` for `Fr`, drawn from rand's `thread_rng`:
/// some element of the field.
#[verifier::external_body]
fn fr_random() -> (r: Vec<u8>)
    ensures
        is_scalar_encoding(r@),
{
    Fr::rand(&mut rand::thread_rng()).into_bigint().to_bytes_le()
}

/// Relies on ark-ff's `PrimeField::from_le_bytes_mod_order`: the little-endian
/// integer reduced modulo the order.
#[verifier::external_body]
fn fr_from_le_bytes_mod_order(b: &Vec<u8>) -> (r: Vec<u8>)
    ensures
        r@.len() == 32,
        le_nat(r@) == le_nat(b@) % order(),
{
    Fr::from_le_bytes_mod_order(b).into_bigint().to_bytes_le()
}

/// Relies on ark-ff's `PrimeField::from_be_bytes_mod_order`: the big-endian
/// integer reduced modulo the order.
#[verifier::external_body]
fn fr_from_be_bytes_mod_order(b: &Vec<u8>) -> (r: Vec<u8>)
    ensures
        r@.len() == 32,
        le_nat(r@) == be_nat(b@) % order(),
{
    Fr::from_be_bytes_mod_order(b).into_bigint().to_bytes_le()
}

/// Relies on ark-serialize's `CanonicalDeserialize` for `Fr`: 32 bytes are
/// accepted exactly when their little-endian integer is below the order.
#[verifier::external_body]
fn fr_decodes(b: &Vec<u8>) -> (r: bool)
    ensures
        b@.len() == 32 ==> (r <==> is_scalar_encoding(b@)),
{
    Fr::deserialize_compressed(&b[..]).is_ok()
}

impl Scalar {
    #[verifier::type_invariant]
    closed spec fn inv(self) -> bool {
        is_scalar_encoding(self.bytes@)
    }

    /// The canonical encoding of this scalar.
    pub closed spec fn encoding(&self) -> Seq<u8> {
        self.bytes@
    }

    /// Reduction modulo the order lands in `[0, order())`.
    pub proof fn lemma_reduced(x: int)
        ensures
            0 <= x % order() < order(),
    {
        vstd::arithmetic::div_mod::lemma_mod_bound(x, order());
    }

    /// A scalar lies in `[0, order())`.
    pub proof fn lemma_range(&self)
        ensures
            0 <= self@ < order(),
    {
        Scalar::lemma_reduced(le_nat(self.bytes@));
    }

    /// The encoding is canonical and denotes the scalar's value.
    fn lemma_encoding(&self)
        ensures
            is_scalar_encoding(self.encoding()),
            le_nat(self.encoding()) == self@,
    {
        proof {
            use_type_invariant(self);
            vstd::arithmetic::div_mod::lemma_small_mod(le_nat(self.bytes@) as nat, order() as nat);
        }
    }

    fn from_reduced(b: Vec<u8>) -> (r: Scalar)
        requires
            b@.len() == 32,
            0 <= le_nat(b@) < order(),
        ensures
            r@ == le_nat(b@),
            r.encoding() == b@,
    {
        proof {
            vstd::arithmetic::div_mod::lemma_small_mod(le_nat(b@) as nat, order() as nat);
        }
        Scalar { bytes: b }
    }

    /// The scalar `v` (every `u64` is below the order).
    pub fn from_u64(v: u64) -> (r: Scalar)
        ensures
            r@ == v as int,
    {
        let b = fr_from_u64(v);
        proof {
            vstd::arithmetic::div_mod::lemma_small_mod(v as nat, order() as nat);
        }
        Scalar::from_reduced(b)
    }

    /// A scalar drawn uniformly from a secure random source.
    pub fn random() -> (r: Scalar) {
        Scalar::from_reduced(fr_random())
    }

    /// The sum modulo the order.
    pub fn plus(&self, other: &Scalar) -> (r: Scalar)
        ensures
            r@ == (self@ + other@) % order(),
    {
        self.lemma_encoding();
        other.lemma_encoding();
        let b = fr_add(&self.bytes, &other.bytes);
        Scalar::from_reduced(b)
    }

    /// The product modulo the order.
    pub fn times(&self, other: &Scalar) -> (r: Scalar)
        ensures
            r@ == (self@ * other@) % order(),
    {
        self.lemma_encoding();
        other.lemma_encoding();
        let b = fr_mul(&self.bytes, &other.bytes);
        Scalar::from_reduced(b)
    }

    /// The multiplicative inverse; `None` exactly for zero.
    pub fn inverse(&self) -> (r: Option<Scalar>)
        ensures
            r is None <==> self@ == 0,
            r matches Some(v) ==> (self@ * v@) % order() == 1,
    {
        self.lemma_encoding();
        match fr_inverse(&self.bytes) {
            None => None,
            Some(v) => Some(Scalar::from_reduced(v)),
        }
    }

    /// A little-endian integer reduced modulo the order.
    pub fn from_le_bytes_mod_order(b: &Vec<u8>) -> (r: Scalar)
        ensures
            r@ == le_nat(b@) % order(),
    {
        Scalar::from_reduced(fr_from_le_bytes_mod_order(b))
    }

    /// A big-endian integer reduced modulo the order.
    pub fn from_be_bytes_mod_order(b: &Vec<u8>) -> (r: Scalar)
        ensures
            r@ == be_nat(b@) % order(),
    {
        Scalar::from_reduced(fr_from_be_bytes_mod_order(b))
    }

    /// The encoding, borrowed.
    pub fn as_bytes(&self) -> (r: &Vec<u8>)
        ensures
            r@ == self.encoding(),
            is_scalar_encoding(r@),
            le_nat(r@) == self@,
    {
        self.lemma_encoding();
        &self.bytes
    }

    /// The 32-byte little-endian encoding.
    pub fn to_bytes(&self) -> (r: Vec<u8>)
        ensures
            r@ == self.encoding(),
            is_scalar_encoding(r@),
            le_nat(r@) == self@,
    {
        self.lemma_encoding();
        self.bytes.clone()
    }

    /// Reads a 32-byte little-endian encoding; `None` unless it is canonical.
    pub fn from_bytes(b: &[u8]) -> (r: Option<Scalar>)
        ensures
            r is Some <==> is_scalar_encoding(b@),
            r matches Some(s) ==> s.encoding() == b@ && s@ == le_nat(b@),
    {
        if b.len() != 32 {
            return None;
        }
        let mut v: Vec<u8> = Vec::new();
        let mut i: usize = 0;
        while i < b.len()
            invariant
                i <= b@.len(),
                v@ == b@.subrange(0, i as int),
            decreases b@.len() - i,
        {
            v.push(b[i]);
            i = i + 1;
        }
        assert(v@ == b@);
        if fr_decodes(&v) {
            Some(Scalar::from_reduced(v))
        } else {
            None
        }
    }
}

} // verus!
