//! Membership and non-membership witnesses: issued with the secret key,
//! checked with the public key by a pairing equation.
use crate::accumulator::{Accumulator, Element};
use crate::error::AccumulatorError;
use crate::field::{order, Scalar};
use crate::group::{G1Point, GtElement};
use crate::keys::{PublicKey, SecretKey};
use vstd::prelude::*;

verus! {

/// `i` is the inverse of `s` modulo the order.
pub open spec fn is_inverse(s: int, i: int) -> bool {
    0 <= i < order() && (s * i) % order() == 1
}

/// `w` is `A * (x + alpha)^-1`.
pub open spec fn is_membership_witness(w: int, a: int, x: int, alpha: int) -> bool {
    exists|i: int| #[trigger] is_inverse(x + alpha, i) && w == (a * i) % order()
}

/// The membership equation `e(W, pk.alpha) + e(X, pk.g2) = e(A, pk.g2)`, read
/// on discrete logarithms.
pub open spec fn membership_equation(w: int, a: int, x_pt: int, pk: (int, int)) -> bool {
    (w * pk.1 + x_pt * pk.0) % order() == (a * pk.0) % order()
}

/// `A = g1 * v + d * (x + alpha)`.
pub open spec fn is_non_membership_witness(d: int, v: int, a: int, x: int, alpha: int) -> bool {
    (v + d * (x + alpha)) % order() == a
}

/// The non-membership equation
/// `e(A, pk.g2) = e(g1 * v, pk.g2) + e(d, pk.alpha + pk.g2 * x)`,
/// read on discrete logarithms.
pub open spec fn non_membership_equation(d: int, v: int, a: int, x: int, pk: (int, int)) -> bool {
    (a * pk.0) % order() == (v * pk.0 + d * (pk.1 + pk.0 * x)) % order()
}

/// A witness that an element was accumulated: `W = A * (x + alpha)^-1`.
pub struct MembershipWitness {
    pub value: G1Point,
}

/// A witness that an element was not accumulated: `(d, v)` with
/// `A = g1 * v + d * (x + alpha)`.
pub struct NonMembershipWitness {
    pub d: G1Point,
    pub v: Scalar,
}

proof fn lemma_mod_mul_both(x: int, y: int)
    ensures
        ((x % order()) * (y % order())) % order() == (x * y) % order(),
        ((x % order()) * y) % order() == (x * y) % order(),
        (x * (y % order())) % order() == (x * y) % order(),
{
    vstd::arithmetic::div_mod::lemma_mul_mod_noop_general(x, y, order());
}

proof fn lemma_mod_add_both(x: int, y: int)
    ensures
        ((x % order()) + (y % order())) % order() == (x + y) % order(),
        ((x % order()) + y) % order() == (x + y) % order(),
        (x + (y % order())) % order() == (x + y) % order(),
{
    vstd::arithmetic::div_mod::lemma_add_mod_noop(x, y, order());
    vstd::arithmetic::div_mod::lemma_add_mod_noop_right(x, y, order());
    vstd::arithmetic::div_mod::lemma_add_mod_noop_right(y, x, order());
}

impl MembershipWitness {
    /// Issues `W = A * (x + alpha)^-1`; `SingularInput` exactly when
    /// `x + alpha` is zero. Membership is not checked here: for an element
    /// that was not accumulated the witness fails verification.
    pub fn generate(acc: &Accumulator, sk: &SecretKey, elem: &Element) -> (r: Result<
        MembershipWitness,
        AccumulatorError,
    >)
        ensures
            r is Err <==> (elem.x@ + sk.alpha@) % order() == 0,
            r matches Err(e) ==> e == AccumulatorError::SingularInput,
            r matches Ok(w) ==> is_membership_witness(w.value@, acc.value@, elem.x@, sk.alpha@),
    {
        let sum = elem.x.plus(&sk.alpha);
        match sum.inverse() {
            None => Err(AccumulatorError::SingularInput),
            Some(inv) => {
                let witness = acc.value.mul(&inv);
                proof {
                    inv.lemma_range();
                    lemma_mod_mul_both(elem.x@ + sk.alpha@, inv@);
                    assert(is_inverse(elem.x@ + sk.alpha@, inv@));
                }
                Ok(MembershipWitness { value: witness })
            },
        }
    }

    /// Checks `e(W, pk.alpha) + e(X, pk.g2) = e(A, pk.g2)`.
    pub fn verify(&self, acc: &Accumulator, elem: &Element, pk: &PublicKey) -> (r: bool)
        ensures
            r == membership_equation(self.value@, acc.value@, elem.value@, pk@),
    {
        let pairing1 = GtElement::pairing(&self.value, &pk.alpha);
        let pairing2 = GtElement::pairing(&elem.value, &pk.g2);
        let lhs = pairing1.plus(&pairing2);
        let rhs = GtElement::pairing(&acc.value, &pk.g2);
        proof {
            lemma_mod_add_both(self.value@ * pk.alpha@, elem.value@ * pk.g2@);
            acc.value.lemma_range();
            pk.g2.lemma_range();
            let m = order();
            let t = (acc.value@ * pk.g2@) % m;
            Scalar::lemma_reduced(acc.value@ * pk.g2@);
            vstd::arithmetic::div_mod::lemma_small_mod(t as nat, m as nat);
            Scalar::lemma_reduced(self.value@ * pk.alpha@ + elem.value@ * pk.g2@);
            let u = (self.value@ * pk.alpha@ + elem.value@ * pk.g2@) % m;
            vstd::arithmetic::div_mod::lemma_small_mod(u as nat, m as nat);
        }
        lhs.equals(&rhs)
    }
}

impl NonMembershipWitness {
    /// Issues `(d, v)` with `v` random and `d = (A - g1 * v) * (x + alpha)^-1`,
    /// re-checking `A = g1 * v + d * (x + alpha)`; `SingularInput` exactly
    /// when `x + alpha` is zero. The re-check is proved never to fail.
    pub fn generate(acc: &Accumulator, sk: &SecretKey, elem: &Element) -> (r: Result<
        NonMembershipWitness,
        AccumulatorError,
    >)
        ensures
            r is Err <==> (elem.x@ + sk.alpha@) % order() == 0,
            r matches Err(e) ==> e == AccumulatorError::SingularInput,
            r matches Ok(n) ==> is_non_membership_witness(
                n.d@,
                n.v@,
                acc.value@,
                elem.x@,
                sk.alpha@,
            ),
    {
        let sum = elem.x.plus(&sk.alpha);
        let v = Scalar::random();
        let g_v = G1Point::from_scalar(&v);
        let g_v_inv = g_v.neg();
        let temp = acc.value.plus(&g_v_inv);
        let sum_inv = match sum.inverse() {
            None => { return Err(AccumulatorError::SingularInput); },
            Some(i) => i,
        };
        let d = temp.mul(&sum_inv);
        let d_pow_sum = d.mul(&sum);
        let result = g_v.plus(&d_pow_sum);
        proof {
            acc.value.lemma_range();
            v.lemma_range();
            lemma_non_membership_issue(acc.value@, v@, elem.x@ + sk.alpha@, sum@, sum_inv@);
        }
        if !result.equals(&acc.value) {
            return Err(AccumulatorError::InvariantViolation);
        }
        proof {
            lemma_mod_mul_both(d@, elem.x@ + sk.alpha@);
            lemma_mod_add_both(v@, d@ * (elem.x@ + sk.alpha@));
        }
        Ok(NonMembershipWitness { d, v })
    }

    /// Checks `e(A, pk.g2) = e(g1 * v, pk.g2) + e(d, pk.alpha + pk.g2 * x)`.
    pub fn verify(&self, acc: &Accumulator, elem: &Element, pk: &PublicKey) -> (r: bool)
        ensures
            r == non_membership_equation(self.d@, self.v@, acc.value@, elem.x@, pk@),
    {
        let g2_y = pk.g2.mul(&elem.x);
        let alpha_plus_y = pk.alpha.plus(&g2_y);
        let lhs = GtElement::pairing(&acc.value, &pk.g2);
        let g1_v = G1Point::from_scalar(&self.v);
        let pairing1 = GtElement::pairing(&g1_v, &pk.g2);
        let pairing2 = GtElement::pairing(&self.d, &alpha_plus_y);
        let rhs = pairing1.plus(&pairing2);
        proof {
            let (g, pa, x, v, d) = (pk.g2@, pk.alpha@, elem.x@, self.v@, self.d@);
            lemma_mod_add_both(pa, g * x);
            lemma_mod_mul_both(d, pa + g * x);
            lemma_mod_add_both(v * g, d * (pa + g * x));
            assert(g * x == x * g) by (nonlinear_arith);
        }
        lhs.equals(&rhs)
    }
}

/// The issuer's re-check: with `d = (A - v) * i` and `i` the inverse of the
/// sum `s`, `v + d * s` is `A` again.
proof fn lemma_non_membership_issue(a: int, v: int, s_raw: int, s: int, i: int)
    requires
        0 <= a < order(),
        0 <= v < order(),
        s == s_raw % order(),
        (s * i) % order() == 1,
    ensures
        ((v + ((((a + (order() - v) % order()) % order()) * i) % order() * s) % order()) % order()) == a,
{
    let m = order();
    let diff = (a + (m - v) % m) % m;
    lemma_mod_add_both(a, m - v);
    assert(diff == (a + m - v) % m);
    let d = (diff * i) % m;
    // d * s == diff * i * s == diff (mod m)
    lemma_mod_mul_both(diff * i, s);
    assert((diff * i) * s == diff * (s * i)) by (nonlinear_arith);
    lemma_mod_mul_both(diff, s * i);
    assert(diff * 1 == diff);
    Scalar::lemma_reduced(a + m - v);
    vstd::arithmetic::div_mod::lemma_small_mod(diff as nat, m as nat);
    assert((d * s) % m == diff);
    lemma_mod_add_both(v, d * s);
    lemma_mod_add_both(v, a + m - v);
    assert(v + (a + m - v) == a + m);
    vstd::arithmetic::div_mod::lemma_mod_add_multiples_vanish(a, m);
    vstd::arithmetic::div_mod::lemma_small_mod(a as nat, m as nat);
}

} // verus!
