//! The groups G1, G2 and GT of BLS12-381 and the pairing between them.
//!
//! Each group has prime order `order()` and is generated by its distinguished
//! generator, so a point is modelled by its discrete logarithm: an integer in
//! `[0, order())`. A value holds the curve library's canonical uncompressed
//! encoding of the point, tied to that logarithm by its type invariant.
use crate::field::{le_nat, order, Scalar};
use ark_bls12_381::{Bls12_381, Fr, G1Affine, G1Projective, G2Affine, G2Projective};
use ark_ec::pairing::{Pairing, PairingOutput};
use ark_ec::Group;
use ark_ff::PrimeField;
use ark_serialize::{CanonicalDeserialize, CanonicalSerialize, Valid};
use vstd::prelude::*;

verus! {

/// `k` is a discrete logarithm in canonical range.
pub open spec fn in_field(k: int) -> bool {
    0 <= k < order()
}

/// The canonical uncompressed encoding of the G1 point `g1 * k`.
pub uninterp spec fn g1_encoding(k: int) -> Seq<u8>;

/// The canonical uncompressed encoding of the G2 point `g2 * k`.
pub uninterp spec fn g2_encoding(k: int) -> Seq<u8>;

/// The canonical encoding of the target-group element `e(g1, g2) * k`.
pub uninterp spec fn gt_encoding(k: int) -> Seq<u8>;

/// `b` is the canonical encoding of some point of G1.
pub open spec fn is_g1_encoding(b: Seq<u8>) -> bool {
    exists|k: int| #[trigger] in_field(k) && g1_encoding(k) == b
}

/// Relies on ark-ec's `Group::generator` for the BLS12-381 G1 group.
#[verifier::external_body]
fn g1_generator() -> (r: Vec<u8>)
    ensures
        r@ == g1_encoding(1),
        r@.len() == 96,
{
    let mut out = Vec::new();
    G1Projective::generator().serialize_uncompressed(&mut out).unwrap();
    out
}

/// Relies on ark-ec's scalar multiplication `G1Projective * Fr`.
#[verifier::external_body]
fn g1_mul(p: &Vec<u8>, s: &Vec<u8>) -> (r: Vec<u8>)
    requires
        exists|k: int| in_field(k) && #[trigger] g1_encoding(k) == p@,
    ensures
        r@.len() == 96,
        forall|k: int|
            in_field(k) && #[trigger] g1_encoding(k) == p@ ==> r@ == g1_encoding(
                (k * le_nat(s@)) % order(),
            ),
{
    let a = G1Projective::deserialize_uncompressed_unchecked(&p[..]).unwrap();
    let mut out = Vec::new();
    (a * Fr::from_le_bytes_mod_order(s)).serialize_uncompressed(&mut out).unwrap();
    out
}

/// Relies on ark-ec's point addition `G1Projective + G1Projective`.
#[verifier::external_body]
fn g1_add(p: &Vec<u8>, q: &Vec<u8>) -> (r: Vec<u8>)
    requires
        exists|k: int| in_field(k) && #[trigger] g1_encoding(k) == p@,
        exists|k: int| in_field(k) && #[trigger] g1_encoding(k) == q@,
    ensures
        r@.len() == 96,
        forall|j: int, k: int|
            in_field(j) && in_field(k) && #[trigger] g1_encoding(j) == p@ && #[trigger] g1_encoding(k)
                == q@ ==> r@ == g1_encoding((j + k) % order()),
{
    let a = G1Projective::deserialize_uncompressed_unchecked(&p[..]).unwrap();
    let b = G1Projective::deserialize_uncompressed_unchecked(&q[..]).unwrap();
    let mut out = Vec::new();
    (a + b).serialize_uncompressed(&mut out).unwrap();
    out
}

/// Relies on ark-ec's point negation `-G1Projective`.
#[verifier::external_body]
fn g1_neg(p: &Vec<u8>) -> (r: Vec<u8>)
    requires
        exists|k: int| in_field(k) && #[trigger] g1_encoding(k) == p@,
    ensures
        r@.len() == 96,
        forall|k: int|
            in_field(k) && #[trigger] g1_encoding(k) == p@ ==> r@ == g1_encoding(
                (order() - k) % order(),
            ),
{
    let a = G1Projective::deserialize_uncompressed_unchecked(&p[..]).unwrap();
    let mut out = Vec::new();
    (-a).serialize_uncompressed(&mut out).unwrap();
    out
}

/// Relies on ark-ec's `PartialEq` for `G1Projective`: points are equal exactly
/// when their discrete logarithms are.
#[verifier::external_body]
fn g1_eq(p: &Vec<u8>, q: &Vec<u8>) -> (r: bool)
    requires
        exists|k: int| in_field(k) && #[trigger] g1_encoding(k) == p@,
        exists|k: int| in_field(k) && #[trigger] g1_encoding(k) == q@,
    ensures
        forall|j: int, k: int|
            in_field(j) && in_field(k) && #[trigger] g1_encoding(j) == p@ && #[trigger] g1_encoding(k)
                == q@ ==> (r <==> j == k),
{
    let a = G1Projective::deserialize_uncompressed_unchecked(&p[..]).unwrap();
    let b = G1Projective::deserialize_uncompressed_unchecked(&q[..]).unwrap();
    a == b
}

/// Relies on ark-serialize's `deserialize_uncompressed_unchecked` for G1, on
/// `Valid::check` (on the curve and in the prime-order subgroup) and on
/// `serialize_uncompressed`: the canonical encoding of the point read, which
/// is that of a unique logarithm.
#[verifier::external_body]
fn g1_decode(b: &Vec<u8>) -> (r: Option<Vec<u8>>)
    ensures
        r matches Some(c) ==> is_g1_encoding(c@) && c@.len() == 96,
        r matches Some(c) ==> forall|j: int|
            in_field(j) && #[trigger] g1_encoding(j) == c@ ==> forall|k: int|
                in_field(k) && #[trigger] g1_encoding(k) == c@ ==> j == k,
        is_g1_encoding(b@) ==> r is Some && r.unwrap()@ == b@,
{
    let a = G1Affine::deserialize_uncompressed_unchecked(&b[..]).ok()?;
    a.check().ok()?;
    let mut out = Vec::new();
    a.serialize_uncompressed(&mut out).unwrap();
    Some(out)
}

/// `b` is the canonical encoding of some point of G2.
pub open spec fn is_g2_encoding(b: Seq<u8>) -> bool {
    exists|k: int| #[trigger] in_field(k) && g2_encoding(k) == b
}

/// Relies on ark-serialize's `deserialize_uncompressed_unchecked` for G2, on
/// `Valid::check` (on the curve and in the prime-order subgroup) and on
/// `serialize_uncompressed`: the canonical encoding of the point read, which
/// is that of a unique logarithm.
#[verifier::external_body]
fn g2_decode(b: &Vec<u8>) -> (r: Option<Vec<u8>>)
    ensures
        r matches Some(c) ==> is_g2_encoding(c@) && c@.len() == 192,
        r matches Some(c) ==> forall|j: int|
            in_field(j) && #[trigger] g2_encoding(j) == c@ ==> forall|k: int|
                in_field(k) && #[trigger] g2_encoding(k) == c@ ==> j == k,
        is_g2_encoding(b@) ==> r is Some && r.unwrap()@ == b@,
{
    let a = G2Affine::deserialize_uncompressed_unchecked(&b[..]).ok()?;
    a.check().ok()?;
    let mut out = Vec::new();
    a.serialize_uncompressed(&mut out).unwrap();
    Some(out)
}

/// Relies on ark-ec's `Group::generator` for the BLS12-381 G2 group.
#[verifier::external_body]
fn g2_generator() -> (r: Vec<u8>)
    ensures
        r@ == g2_encoding(1),
        r@.len() == 192,
{
    let mut out = Vec::new();
    G2Projective::generator().serialize_uncompressed(&mut out).unwrap();
    out
}

/// Relies on ark-ec's scalar multiplication `G2Projective * Fr`.
#[verifier::external_body]
fn g2_mul(p: &Vec<u8>, s: &Vec<u8>) -> (r: Vec<u8>)
    requires
        exists|k: int| in_field(k) && #[trigger] g2_encoding(k) == p@,
    ensures
        r@.len() == 192,
        forall|k: int|
            in_field(k) && #[trigger] g2_encoding(k) == p@ ==> r@ == g2_encoding(
                (k * le_nat(s@)) % order(),
            ),
{
    let a = G2Projective::deserialize_uncompressed_unchecked(&p[..]).unwrap();
    let mut out = Vec::new();
    (a * Fr::from_le_bytes_mod_order(s)).serialize_uncompressed(&mut out).unwrap();
    out
}

/// Relies on ark-ec's point addition `G2Projective + G2Projective`.
#[verifier::external_body]
fn g2_add(p: &Vec<u8>, q: &Vec<u8>) -> (r: Vec<u8>)
    requires
        exists|k: int| in_field(k) && #[trigger] g2_encoding(k) == p@,
        exists|k: int| in_field(k) && #[trigger] g2_encoding(k) == q@,
    ensures
        r@.len() == 192,
        forall|j: int, k: int|
            in_field(j) && in_field(k) && #[trigger] g2_encoding(j) == p@ && #[trigger] g2_encoding(k)
                == q@ ==> r@ == g2_encoding((j + k) % order()),
{
    let a = G2Projective::deserialize_uncompressed_unchecked(&p[..]).unwrap();
    let b = G2Projective::deserialize_uncompressed_unchecked(&q[..]).unwrap();
    let mut out = Vec::new();
    (a + b).serialize_uncompressed(&mut out).unwrap();
    out
}

/// Relies on ark-ec's `Pairing::pairing` for BLS12-381: bilinear and
/// non-degenerate, so `e(g1 * j, g2 * k) = e(g1, g2) * (j * k)`.
#[verifier::external_body]
fn gt_pairing(p: &Vec<u8>, q: &Vec<u8>) -> (r: Vec<u8>)
    requires
        exists|k: int| in_field(k) && #[trigger] g1_encoding(k) == p@,
        exists|k: int| in_field(k) && #[trigger] g2_encoding(k) == q@,
    ensures
        forall|j: int, k: int|
            in_field(j) && in_field(k) && #[trigger] g1_encoding(j) == p@ && #[trigger] g2_encoding(k)
                == q@ ==> r@ == gt_encoding((j * k) % order()),
{
    let a = G1Projective::deserialize_uncompressed_unchecked(&p[..]).unwrap();
    let b = G2Projective::deserialize_uncompressed_unchecked(&q[..]).unwrap();
    let mut out = Vec::new();
    Bls12_381::pairing(a, b).serialize_uncompressed(&mut out).unwrap();
    out
}

/// Relies on ark-ec's group operation `PairingOutput + PairingOutput`.
#[verifier::external_body]
fn gt_add(p: &Vec<u8>, q: &Vec<u8>) -> (r: Vec<u8>)
    requires
        exists|k: int| in_field(k) && #[trigger] gt_encoding(k) == p@,
        exists|k: int| in_field(k) && #[trigger] gt_encoding(k) == q@,
    ensures
        forall|j: int, k: int|
            in_field(j) && in_field(k) && #[trigger] gt_encoding(j) == p@ && #[trigger] gt_encoding(k)
                == q@ ==> r@ == gt_encoding((j + k) % order()),
{
    let a = PairingOutput::<Bls12_381>::deserialize_uncompressed_unchecked(&p[..]).unwrap();
    let b = PairingOutput::<Bls12_381>::deserialize_uncompressed_unchecked(&q[..]).unwrap();
    let mut out = Vec::new();
    (a + b).serialize_uncompressed(&mut out).unwrap();
    out
}

/// Relies on ark-ec's `PartialEq` for `PairingOutput`: elements are equal
/// exactly when their logarithms are.
#[verifier::external_body]
fn gt_eq(p: &Vec<u8>, q: &Vec<u8>) -> (r: bool)
    requires
        exists|k: int| in_field(k) && #[trigger] gt_encoding(k) == p@,
        exists|k: int| in_field(k) && #[trigger] gt_encoding(k) == q@,
    ensures
        forall|j: int, k: int|
            in_field(j) && in_field(k) && #[trigger] gt_encoding(j) == p@ && #[trigger] gt_encoding(k)
                == q@ ==> (r <==> j == k),
{
    let a = PairingOutput::<Bls12_381>::deserialize_uncompressed_unchecked(&p[..]).unwrap();
    let b = PairingOutput::<Bls12_381>::deserialize_uncompressed_unchecked(&q[..]).unwrap();
    a == b
}

/// A point of G1.
pub struct G1Point {
    bytes: Vec<u8>,
    log: Ghost<int>,
}

impl View for G1Point {
    type V = int;

    /// The point's discrete logarithm to the base `g1`.
    closed spec fn view(&self) -> int {
        self.log@ % order()
    }
}

impl G1Point {
    #[verifier::type_invariant]
    closed spec fn inv(self) -> bool {
        in_field(self.log@) && self.bytes@ == g1_encoding(self.log@) && self.bytes@.len() == 96
    }

    /// The canonical uncompressed encoding of the point.
    pub closed spec fn encoding(&self) -> Seq<u8> {
        self.bytes@
    }

    /// A point's logarithm lies in `[0, order())`.
    pub proof fn lemma_range(&self)
        ensures
            in_field(self@),
    {
        Scalar::lemma_reduced(self.log@);
    }

    fn lemma_encoding(&self)
        ensures
            in_field(self@),
            self.log@ == self@,
            self.bytes@ == g1_encoding(self@),
            self.bytes@.len() == 96,
    {
        proof {
            use_type_invariant(self);
            vstd::arithmetic::div_mod::lemma_small_mod(self.log@ as nat, order() as nat);
        }
    }

    fn from_log(bytes: Vec<u8>, k: Ghost<int>) -> (r: G1Point)
        requires
            in_field(k@),
            bytes@ == g1_encoding(k@),
            bytes@.len() == 96,
        ensures
            r@ == k@,
            r.encoding() == bytes@,
    {
        proof {
            vstd::arithmetic::div_mod::lemma_small_mod(k@ as nat, order() as nat);
        }
        G1Point { bytes, log: k }
    }

    /// The generator `g1`.
    pub fn generator() -> (r: G1Point)
        ensures
            r@ == 1,
    {
        G1Point::from_log(g1_generator(), Ghost(1))
    }

    /// The point `g1 * s`.
    pub fn from_scalar(s: &Scalar) -> (r: G1Point)
        ensures
            r@ == s@,
    {
        let g = G1Point::generator();
        let r = g.mul(s);
        proof {
            s.lemma_range();
            vstd::arithmetic::div_mod::lemma_small_mod(s@ as nat, order() as nat);
        }
        r
    }

    /// Scalar multiplication.
    pub fn mul(&self, s: &Scalar) -> (r: G1Point)
        ensures
            r@ == (self@ * s@) % order(),
    {
        self.lemma_encoding();
        let sb = s.as_bytes();
        let b = g1_mul(&self.bytes, sb);
        let ghost k = (self@ * s@) % order();
        proof {
            Scalar::lemma_reduced(self@ * s@);
        }
        G1Point::from_log(b, Ghost(k))
    }

    /// The group operation.
    pub fn plus(&self, other: &G1Point) -> (r: G1Point)
        ensures
            r@ == (self@ + other@) % order(),
    {
        self.lemma_encoding();
        other.lemma_encoding();
        let b = g1_add(&self.bytes, &other.bytes);
        let ghost k = (self@ + other@) % order();
        proof {
            Scalar::lemma_reduced(self@ + other@);
        }
        G1Point::from_log(b, Ghost(k))
    }

    /// The inverse in the group.
    pub fn neg(&self) -> (r: G1Point)
        ensures
            r@ == (order() - self@) % order(),
    {
        self.lemma_encoding();
        let b = g1_neg(&self.bytes);
        let ghost k = (order() - self@) % order();
        proof {
            Scalar::lemma_reduced(order() - self@);
        }
        G1Point::from_log(b, Ghost(k))
    }

    /// Whether two points are the same.
    pub fn equals(&self, other: &G1Point) -> (r: bool)
        ensures
            r == (self@ == other@),
    {
        self.lemma_encoding();
        other.lemma_encoding();
        g1_eq(&self.bytes, &other.bytes)
    }

    /// The canonical uncompressed encoding.
    pub fn to_bytes(&self) -> (r: Vec<u8>)
        ensures
            r@ == self.encoding(),
            r@ == g1_encoding(self@),
            r@.len() == 96,
    {
        self.lemma_encoding();
        self.bytes.clone()
    }

    /// Reads a canonical uncompressed encoding; `None` unless `b` encodes a
    /// point of G1.
    pub fn from_bytes(b: &Vec<u8>) -> (r: Option<G1Point>)
        ensures
            r is Some <==> is_g1_encoding(b@),
            r matches Some(p) ==> p.encoding() == b@ && g1_encoding(p@) == b@,
            forall|k: int| in_field(k) && #[trigger] g1_encoding(k) == b@ ==> (r matches Some(p) && p@ == k),
    {
        match g1_decode(b) {
            None => None,
            Some(c) => {
                if vec_eq(&c, b) {
                    let ghost k = choose|k: int| in_field(k) && g1_encoding(k) == c@;
                    Some(G1Point::from_log(c, Ghost(k)))
                } else {
                    None
                }
            },
        }
    }
}

/// Whether two byte strings are equal.
fn vec_eq(a: &Vec<u8>, b: &Vec<u8>) -> (r: bool)
    ensures
        r == (a@ == b@),
{
    if a.len() != b.len() {
        return false;
    }
    let mut i: usize = 0;
    while i < a.len()
        invariant
            i <= a@.len(),
            a@.len() == b@.len(),
            forall|j: int| 0 <= j < i ==> a@[j] == b@[j],
        decreases a@.len() - i,
    {
        if a[i] != b[i] {
            return false;
        }
        i = i + 1;
    }
    assert(a@ =~= b@);
    true
}

/// A point of G2.
pub struct G2Point {
    bytes: Vec<u8>,
    log: Ghost<int>,
}

impl View for G2Point {
    type V = int;

    /// The point's discrete logarithm to the base `g2`.
    closed spec fn view(&self) -> int {
        self.log@ % order()
    }
}

impl G2Point {
    #[verifier::type_invariant]
    closed spec fn inv(self) -> bool {
        in_field(self.log@) && self.bytes@ == g2_encoding(self.log@) && self.bytes@.len() == 192
    }

    /// The canonical uncompressed encoding of the point.
    pub closed spec fn encoding(&self) -> Seq<u8> {
        self.bytes@
    }

    /// A point's logarithm lies in `[0, order())`.
    pub proof fn lemma_range(&self)
        ensures
            in_field(self@),
    {
        Scalar::lemma_reduced(self.log@);
    }

    fn lemma_encoding(&self)
        ensures
            in_field(self@),
            self.log@ == self@,
            self.bytes@ == g2_encoding(self@),
            self.bytes@.len() == 192,
    {
        proof {
            use_type_invariant(self);
            vstd::arithmetic::div_mod::lemma_small_mod(self.log@ as nat, order() as nat);
        }
    }

    fn from_log(bytes: Vec<u8>, k: Ghost<int>) -> (r: G2Point)
        requires
            in_field(k@),
            bytes@ == g2_encoding(k@),
            bytes@.len() == 192,
        ensures
            r@ == k@,
            r.encoding() == bytes@,
    {
        proof {
            vstd::arithmetic::div_mod::lemma_small_mod(k@ as nat, order() as nat);
        }
        G2Point { bytes, log: k }
    }

    /// The generator `g2`.
    pub fn generator() -> (r: G2Point)
        ensures
            r@ == 1,
    {
        G2Point::from_log(g2_generator(), Ghost(1))
    }

    /// Scalar multiplication.
    pub fn mul(&self, s: &Scalar) -> (r: G2Point)
        ensures
            r@ == (self@ * s@) % order(),
    {
        self.lemma_encoding();
        let sb = s.as_bytes();
        let b = g2_mul(&self.bytes, sb);
        let ghost k = (self@ * s@) % order();
        proof {
            Scalar::lemma_reduced(self@ * s@);
        }
        G2Point::from_log(b, Ghost(k))
    }

    /// The group operation.
    pub fn plus(&self, other: &G2Point) -> (r: G2Point)
        ensures
            r@ == (self@ + other@) % order(),
    {
        self.lemma_encoding();
        other.lemma_encoding();
        let b = g2_add(&self.bytes, &other.bytes);
        let ghost k = (self@ + other@) % order();
        proof {
            Scalar::lemma_reduced(self@ + other@);
        }
        G2Point::from_log(b, Ghost(k))
    }

    /// Reads a canonical uncompressed encoding; `None` unless `b` encodes a
    /// point of G2.
    pub fn from_bytes(b: &Vec<u8>) -> (r: Option<G2Point>)
        ensures
            r is Some <==> is_g2_encoding(b@),
            r matches Some(p) ==> p.encoding() == b@ && g2_encoding(p@) == b@,
            forall|k: int| in_field(k) && #[trigger] g2_encoding(k) == b@ ==> (r matches Some(p) && p@ == k),
    {
        match g2_decode(b) {
            None => None,
            Some(c) => {
                if vec_eq(&c, b) {
                    let ghost k = choose|k: int| in_field(k) && g2_encoding(k) == c@;
                    Some(G2Point::from_log(c, Ghost(k)))
                } else {
                    None
                }
            },
        }
    }

    /// A copy of the point.
    pub fn copy(&self) -> (r: G2Point)
        ensures
            r@ == self@,
            r.encoding() == self.encoding(),
    {
        self.lemma_encoding();
        G2Point::from_log(self.bytes.clone(), Ghost(self@))
    }

    /// The canonical uncompressed encoding.
    pub fn to_bytes(&self) -> (r: Vec<u8>)
        ensures
            r@ == self.encoding(),
            r@ == g2_encoding(self@),
            r@.len() == 192,
    {
        self.lemma_encoding();
        self.bytes.clone()
    }
}

/// An element of the target group GT.
pub struct GtElement {
    bytes: Vec<u8>,
    log: Ghost<int>,
}

impl View for GtElement {
    type V = int;

    /// The element's discrete logarithm to the base `e(g1, g2)`.
    closed spec fn view(&self) -> int {
        self.log@ % order()
    }
}

impl GtElement {
    #[verifier::type_invariant]
    closed spec fn inv(self) -> bool {
        in_field(self.log@) && self.bytes@ == gt_encoding(self.log@)
    }

    fn lemma_encoding(&self)
        ensures
            in_field(self@),
            self.log@ == self@,
            self.bytes@ == gt_encoding(self@),
    {
        proof {
            use_type_invariant(self);
            vstd::arithmetic::div_mod::lemma_small_mod(self.log@ as nat, order() as nat);
        }
    }

    fn from_log(bytes: Vec<u8>, k: Ghost<int>) -> (r: GtElement)
        requires
            in_field(k@),
            bytes@ == gt_encoding(k@),
        ensures
            r@ == k@,
    {
        proof {
            vstd::arithmetic::div_mod::lemma_small_mod(k@ as nat, order() as nat);
        }
        GtElement { bytes, log: k }
    }

    /// The pairing `e(p, q)`.
    pub fn pairing(p: &G1Point, q: &G2Point) -> (r: GtElement)
        ensures
            r@ == (p@ * q@) % order(),
    {
        p.lemma_encoding();
        q.lemma_encoding();
        let b = gt_pairing(&p.bytes, &q.bytes);
        let ghost k = (p@ * q@) % order();
        proof {
            Scalar::lemma_reduced(p@ * q@);
        }
        GtElement::from_log(b, Ghost(k))
    }

    /// The group operation.
    pub fn plus(&self, other: &GtElement) -> (r: GtElement)
        ensures
            r@ == (self@ + other@) % order(),
    {
        self.lemma_encoding();
        other.lemma_encoding();
        let b = gt_add(&self.bytes, &other.bytes);
        let ghost k = (self@ + other@) % order();
        proof {
            Scalar::lemma_reduced(self@ + other@);
        }
        GtElement::from_log(b, Ghost(k))
    }

    /// Whether two elements are the same.
    pub fn equals(&self, other: &GtElement) -> (r: bool)
        ensures
            r == (self@ == other@),
    {
        self.lemma_encoding();
        other.lemma_encoding();
        gt_eq(&self.bytes, &other.bytes)
    }
}

} // verus!
