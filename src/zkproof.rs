//! A zero-knowledge proof of membership: a sigma protocol made
//! non-interactive by the Fiat-Shamir transform.
use crate::accumulator::{sha256_of, sha256, Accumulator, Element};
use crate::error::AccumulatorError;
use crate::field::{is_scalar_encoding, le_nat, order, Scalar};
use crate::group::{g1_encoding, g2_encoding, in_field, G1Point, G2Point, GtElement};
use crate::keys::PublicKey;
use crate::witness::MembershipWitness;
use vstd::prelude::*;

verus! {

/// The Fiat-Shamir challenge: SHA-256 over the encodings of `A`, `X`, `T1`
/// and `T2`, read little-endian, reduced modulo the order.
pub open spec fn challenge_of(a: int, x_pt: int, t1: int, t2: int) -> int {
    le_nat(sha256_of(g1_encoding(a) + g1_encoding(x_pt) + g1_encoding(t1) + g2_encoding(t2)))
        % order()
}

/// The verification equation `e(g1 * s, g2) = e(T1, g2) + e(X * c, g2)`, read
/// on discrete logarithms, where `g` is the logarithm of the key's `g2`.
pub open spec fn proof_equation(s: int, t1: int, x_pt: int, c: int, g: int) -> bool {
    (s * g) % order() == (t1 * g + x_pt * c * g) % order()
}

/// The commitment of a proof: `T1 = g1 * r` and `T2`, which carries `g2`.
pub struct ProofCommitment {
    pub t1: G1Point,
    pub t2: G2Point,
}

/// A membership proof `(T1, T2, s)`.
pub struct MembershipProof {
    pub commitment: ProofCommitment,
    pub response: Scalar,
}

impl View for MembershipProof {
    type V = (int, int, int);

    open spec fn view(&self) -> (int, int, int) {
        (self.commitment.t1@, self.commitment.t2@, self.response@)
    }
}

/// The serialised proof: `T1 || T2 || s`.
pub open spec fn proof_bytes(t1: int, t2: int, s: Seq<u8>) -> Seq<u8> {
    g1_encoding(t1) + g2_encoding(t2) + s
}

/// The challenge for a statement and a commitment.
pub fn challenge(acc: &Accumulator, elem: &Element, t1: &G1Point, t2: &G2Point) -> (r: Scalar)
    ensures
        r@ == challenge_of(acc.value@, elem.value@, t1@, t2@),
{
    let mut data = acc.value.to_bytes();
    let mut b = elem.value.to_bytes();
    data.append(&mut b);
    let mut b = t1.to_bytes();
    data.append(&mut b);
    let mut b = t2.to_bytes();
    data.append(&mut b);
    let digest = sha256(&data);
    Scalar::from_le_bytes_mod_order(&digest)
}

/// The bytes `b[lo..hi]`.
fn sub_vec(b: &Vec<u8>, lo: usize, hi: usize) -> (r: Vec<u8>)
    requires
        lo <= hi <= b@.len(),
    ensures
        r@ == b@.subrange(lo as int, hi as int),
{
    let mut r: Vec<u8> = Vec::new();
    let mut i: usize = lo;
    while i < hi
        invariant
            lo <= i <= hi <= b@.len(),
            r@ == b@.subrange(lo as int, i as int),
        decreases hi - i,
    {
        r.push(b[i]);
        i = i + 1;
    }
    r
}

impl MembershipWitness {
    /// Proves knowledge of `x` for the statement `(A, X)`: draws `r`, commits
    /// `T1 = g1 * r`, `T2 = g2`, and answers `s = r + c * x` for the challenge
    /// `c`. The witness itself only binds issuance to its holder.
    pub fn create_proof(&self, acc: &Accumulator, elem: &Element, pk: &PublicKey) -> (r:
        MembershipProof)
        ensures
            r.commitment.t2@ == pk.g2@,
            r.response@ == (r.commitment.t1@ + challenge_of(
                acc.value@,
                elem.value@,
                r.commitment.t1@,
                r.commitment.t2@,
            ) * elem.x@) % order(),
    {
        let r = Scalar::random();
        let t1 = G1Point::from_scalar(&r);
        let t2 = pk.g2.copy();
        let c = challenge(acc, elem, &t1, &t2);
        let response = r.plus(&c.times(&elem.x));
        proof {
            vstd::arithmetic::div_mod::lemma_add_mod_noop_right(r@, c@ * elem.x@, order());
        }
        MembershipProof { commitment: ProofCommitment { t1, t2 }, response }
    }
}

impl MembershipProof {
    /// The encoding that `to_bytes` writes.
    pub open spec fn to_bytes_spec(&self) -> Seq<u8> {
        proof_bytes(self.commitment.t1@, self.commitment.t2@, self.response.encoding())
    }

    /// Recomputes the challenge `c` and checks
    /// `e(g1 * s, g2) = e(T1, g2) + e(X * c, g2)`.
    pub fn verify(&self, acc: &Accumulator, elem: &Element, pk: &PublicKey) -> (r: bool)
        ensures
            r == proof_equation(
                self.response@,
                self.commitment.t1@,
                elem.value@,
                challenge_of(acc.value@, elem.value@, self.commitment.t1@, self.commitment.t2@),
                pk.g2@,
            ),
    {
        self.verify_with(acc, elem, &pk.g2)
    }

    /// The check of `verify`, with `g2` the only part of the public key that
    /// it reads.
    pub fn verify_with(&self, acc: &Accumulator, elem: &Element, g2: &G2Point) -> (r: bool)
        ensures
            r == proof_equation(
                self.response@,
                self.commitment.t1@,
                elem.value@,
                challenge_of(acc.value@, elem.value@, self.commitment.t1@, self.commitment.t2@),
                g2@,
            ),
    {
        let c = challenge(acc, elem, &self.commitment.t1, &self.commitment.t2);
        let response_point = G1Point::from_scalar(&self.response);
        let lhs = GtElement::pairing(&response_point, g2);
        let pairing1 = GtElement::pairing(&self.commitment.t1, g2);
        let elem_challenge = elem.value.mul(&c);
        let pairing2 = GtElement::pairing(&elem_challenge, g2);
        let rhs = pairing1.plus(&pairing2);
        proof {
            let m = order();
            let (t1, x, g) = (self.commitment.t1@, elem.value@, g2@);
            vstd::arithmetic::div_mod::lemma_mul_mod_noop_left(x * c@, g, m);
            vstd::arithmetic::div_mod::lemma_add_mod_noop(t1 * g, x * c@ * g, m);
        }
        lhs.equals(&rhs)
    }

    /// The encoding `T1 || T2 || s`: 96, 192 and 32 bytes.
    pub fn to_bytes(&self) -> (r: Vec<u8>)
        ensures
            r@ == proof_bytes(self.commitment.t1@, self.commitment.t2@, self.response.encoding()),
            r@.len() == 320,
            g1_encoding(self.commitment.t1@).len() == 96,
            g2_encoding(self.commitment.t2@).len() == 192,
    {
        let mut out = self.commitment.t1.to_bytes();
        let mut b = self.commitment.t2.to_bytes();
        out.append(&mut b);
        let mut b = self.response.to_bytes();
        out.append(&mut b);
        out
    }

    /// Reads a proof from `T1 || T2 || s`; a `ParseError` unless each part is a
    /// canonical encoding. Reading what `to_bytes` wrote gives the same proof.
    pub fn from_bytes(b: &Vec<u8>) -> (r: Result<MembershipProof, AccumulatorError>)
        ensures
            r matches Err(e) ==> e == AccumulatorError::ParseError,
            r matches Ok(p) ==> p.to_bytes_spec() == b@,
            forall|t1: int, t2: int, s: Seq<u8>|
                in_field(t1) && in_field(t2) && g1_encoding(t1).len() == 96 && g2_encoding(t2).len()
                    == 192 && is_scalar_encoding(s) && #[trigger] proof_bytes(
                    t1,
                    t2,
                    s,
                ) == b@ ==> (r matches Ok(p) && p@ == (t1, t2, le_nat(s))),
    {
        if b.len() != 320 {
            proof {
                assert forall|t1: int, t2: int, s: Seq<u8>|
                    in_field(t1) && in_field(t2) && g1_encoding(t1).len() == 96
                        && g2_encoding(t2).len() == 192 && is_scalar_encoding(s)
                        && #[trigger] proof_bytes(t1, t2, s) == b@ implies false by {
                    assert(proof_bytes(t1, t2, s).len() == 320);
                }
            }
            return Err(AccumulatorError::ParseError);
        }
        let t1_bytes = sub_vec(b, 0, 96);
        let t2_bytes = sub_vec(b, 96, 288);
        let s_bytes = sub_vec(b, 288, 320);
        let t1 = G1Point::from_bytes(&t1_bytes);
        let t2 = G2Point::from_bytes(&t2_bytes);
        let response = Scalar::from_bytes(s_bytes.as_slice());
        proof {
            assert(b@ =~= t1_bytes@ + t2_bytes@ + s_bytes@);
            assert forall|t1v: int, t2v: int, sv: Seq<u8>|
                in_field(t1v) && in_field(t2v) && g1_encoding(t1v).len() == 96
                    && g2_encoding(t2v).len() == 192 && is_scalar_encoding(sv)
                    && #[trigger] proof_bytes(t1v, t2v, sv) == b@ implies (t1 matches Some(p)
                    && p@ == t1v) && (t2 matches Some(q) && q@ == t2v) && (response matches Some(
                x,
            ) && x@ == le_nat(sv)) by {
                assert(g1_encoding(t1v) =~= t1_bytes@);
                assert(g2_encoding(t2v) =~= t2_bytes@);
                assert(sv =~= s_bytes@);
            }
        }
        match (t1, t2, response) {
            (Some(t1), Some(t2), Some(response)) => Ok(
                MembershipProof { commitment: ProofCommitment { t1, t2 }, response },
            ),
            _ => Err(AccumulatorError::ParseError),
        }
    }
}

} // verus!
