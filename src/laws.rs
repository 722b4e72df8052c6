//! Laws of the accumulator, stated on discrete logarithms and proved from
//! the contracts of the operations.
//!
//! The order `order()` is prime, but that is not something the prover can
//! establish; where a law needs a nonzero scalar to be invertible, it takes
//! the inverse as an argument.
use crate::accumulator::add_spec;
use crate::field::order;
use crate::group::in_field;
use crate::keys::public_key_of;
use crate::witness::{
    is_inverse, is_membership_witness, is_non_membership_witness, membership_equation,
    non_membership_equation,
};
use crate::zkproof::proof_equation;
use vstd::prelude::*;

verus! {

proof fn lemma_cong_mul(p: int, q: int, k: int)
    requires
        p % order() == q % order(),
    ensures
        (p * k) % order() == (q * k) % order(),
{
    vstd::arithmetic::div_mod::lemma_mul_mod_noop_left(p, k, order());
    vstd::arithmetic::div_mod::lemma_mul_mod_noop_left(q, k, order());
}

proof fn lemma_cong_diff(p: int, q: int)
    ensures
        p % order() == q % order() <==> (p - q) % order() == 0,
{
    let m = order();
    vstd::arithmetic::div_mod::lemma_sub_mod_noop(p, q, m);
    vstd::arithmetic::div_mod::lemma_mod_bound(p, m);
    vstd::arithmetic::div_mod::lemma_mod_bound(q, m);
    let t = p % m - q % m;
    vstd::arithmetic::div_mod::lemma_small_mod(0, m as nat);
    if t > 0 {
        vstd::arithmetic::div_mod::lemma_small_mod(t as nat, m as nat);
    } else if t < 0 {
        vstd::arithmetic::div_mod::lemma_mod_add_multiples_vanish(t, m);
        vstd::arithmetic::div_mod::lemma_small_mod((t + m) as nat, m as nat);
    }
}

proof fn lemma_in_field_mod(k: int)
    requires
        in_field(k),
    ensures
        k % order() == k,
{
    vstd::arithmetic::div_mod::lemma_small_mod(k as nat, order() as nat);
}

/// Membership soundness: an element added to a fresh accumulator is shown a
/// member by the witness issued for it, under the public key of the same
/// secret. (For an accumulator that already held elements the equation
/// holds only when the current value is `g1 * (x + alpha)`.)
pub proof fn lemma_membership_soundness(alpha: int, x: int, w: int)
    requires
        in_field(alpha),
        in_field(x),
        (x + alpha) % order() != 0,
        is_membership_witness(w, add_spec(1, x, alpha), x, alpha),
    ensures
        membership_equation(w, add_spec(1, x, alpha), x, public_key_of(alpha)),
{
    let m = order();
    let a = add_spec(1, x, alpha);
    let i = choose|i: int| #[trigger] is_inverse(x + alpha, i) && w == (a * i) % m;
    assert(a == (x + alpha) % m);
    vstd::arithmetic::div_mod::lemma_mod_twice(x + alpha, m);
    lemma_cong_mul(x + alpha, a, i);
    assert(w == 1);
    assert(w * alpha + x * 1 == x + alpha);
    assert(a * 1 == a);
    vstd::arithmetic::div_mod::lemma_mod_twice(x + alpha, m);
}

/// A membership witness issued for an element that the accumulator's value
/// does not account for fails: unless `A = g1 * (x + alpha)`, the witness
/// `A * (x + alpha)^-1` does not satisfy the membership equation, for every
/// invertible (that is, nonzero) `x`.
pub proof fn lemma_membership_rejects_non_members(alpha: int, x: int, x_inv: int, a: int, w: int)
    requires
        in_field(alpha),
        in_field(x),
        in_field(a),
        is_inverse(x, x_inv),
        is_membership_witness(w, a, x, alpha),
        a != (x + alpha) % order(),
    ensures
        !membership_equation(w, a, x, public_key_of(alpha)),
{
    let m = order();
    let i = choose|i: int| #[trigger] is_inverse(x + alpha, i) && w == (a * i) % m;
    vstd::arithmetic::div_mod::lemma_mod_bound(a * i, m);
    // w * (x + alpha) == a
    lemma_in_field_mod(a);
    vstd::arithmetic::div_mod::lemma_mul_mod_noop_left(a * i, x + alpha, m);
    assert((a * i) * (x + alpha) == a * ((x + alpha) * i)) by (nonlinear_arith);
    vstd::arithmetic::div_mod::lemma_mul_mod_noop_right(a, (x + alpha) * i, m);
    assert((w * (x + alpha)) % m == a);
    if membership_equation(w, a, x, public_key_of(alpha)) {
        assert(w * alpha + x * 1 == w * alpha + x);
        assert(a * 1 == a);
        assert((w * alpha + x) % m == a);
        assert(w * (x + alpha) == w * x + w * alpha) by (nonlinear_arith);
        lemma_cong_diff(w * x + w * alpha, w * alpha + x);
        assert((w * x + w * alpha) - (w * alpha + x) == (w - 1) * x) by (nonlinear_arith);
        assert(((w - 1) * x) % m == 0);
        lemma_cong_mul((w - 1) * x, 0, x_inv);
        assert(0 * x_inv == 0);
        vstd::arithmetic::div_mod::lemma_small_mod(0, m as nat);
        assert((w - 1) * x * x_inv == (w - 1) * (x * x_inv)) by (nonlinear_arith);
        vstd::arithmetic::div_mod::lemma_mul_mod_noop_right(w - 1, x * x_inv, m);
        assert(((w - 1) * 1) % m == 0);
        assert((w - 1) * 1 == w - 1);
        lemma_cong_diff(w, 1);
        lemma_in_field_mod(1);
        lemma_in_field_mod(w);
        assert(w == 1);
        assert(w * (x + alpha) == x + alpha) by (nonlinear_arith)
            requires
                w == 1,
        ;
    }
}

/// Non-membership soundness: a non-membership witness issued for an element
/// satisfies the non-membership equation under the public key of the same
/// secret.
pub proof fn lemma_non_membership_soundness(alpha: int, x: int, a: int, d: int, v: int)
    requires
        in_field(a),
        is_non_membership_witness(d, v, a, x, alpha),
    ensures
        non_membership_equation(d, v, a, x, public_key_of(alpha)),
{
    lemma_in_field_mod(a);
    assert(a * 1 == a);
    assert(v * 1 + d * (alpha + 1 * x) == v + d * (x + alpha)) by (nonlinear_arith);
}

/// Non-membership invalidation: once the element is added, a non-membership
/// witness issued before fails, whenever the addition changed the
/// accumulator.
pub proof fn lemma_non_membership_invalidated_by_add(alpha: int, x: int, a: int, d: int, v: int)
    requires
        in_field(a),
        is_non_membership_witness(d, v, a, x, alpha),
        add_spec(a, x, alpha) != a,
    ensures
        !non_membership_equation(d, v, add_spec(a, x, alpha), x, public_key_of(alpha)),
{
    let m = order();
    let a2 = add_spec(a, x, alpha);
    vstd::arithmetic::div_mod::lemma_mod_bound(x + a * alpha, m);
    lemma_in_field_mod(a2);
    assert(a2 * 1 == a2);
    assert(v * 1 + d * (alpha + 1 * x) == v + d * (x + alpha)) by (nonlinear_arith);
}

/// Proof soundness: the response `s = r + c * x` to the challenge `c`, with
/// `T1 = g1 * r` and the element's point `X = g1 * x`, satisfies the
/// verification equation under a public key whose `g2` is the generator,
/// whatever witness the prover held.
pub proof fn lemma_proof_soundness(t1: int, x: int, c: int)
    ensures
        proof_equation((t1 + c * x) % order(), t1, x, c, 1),
{
    let m = order();
    vstd::arithmetic::div_mod::lemma_mod_twice(t1 + c * x, m);
    assert(((t1 + c * x) % m) * 1 == (t1 + c * x) % m);
    assert(t1 * 1 + x * c * 1 == t1 + c * x) by (nonlinear_arith);
}

/// Proof binding, for the parts that the challenge does not cover: a proof
/// that verifies fails once its response `s` is changed by a nonzero amount.
pub proof fn lemma_proof_rejects_altered_response(s: int, t1: int, x: int, c: int, delta: int)
    requires
        in_field(s),
        proof_equation(s, t1, x, c, 1),
        delta % order() != 0,
    ensures
        !proof_equation((s + delta) % order(), t1, x, c, 1),
{
    let m = order();
    vstd::arithmetic::div_mod::lemma_mod_twice(s + delta, m);
    assert(((s + delta) % m) * 1 == (s + delta) % m);
    assert(s * 1 == s);
    lemma_in_field_mod(s);
    lemma_cong_diff(s + delta, s);
    assert(s + delta - s == delta);
}

/// Proof binding, with the challenge held fixed: a proof that verifies fails
/// once its commitment `T1` is changed by a nonzero amount.
pub proof fn lemma_proof_rejects_altered_commitment(s: int, t1: int, x: int, c: int, delta: int)
    requires
        proof_equation(s, t1, x, c, 1),
        delta % order() != 0,
    ensures
        !proof_equation(s, t1 + delta, x, c, 1),
{
    let m = order();
    assert(t1 * 1 + x * c * 1 == t1 + x * c) by (nonlinear_arith);
    assert((t1 + delta) * 1 + x * c * 1 == (t1 + x * c) + delta) by (nonlinear_arith);
    lemma_cong_diff((t1 + x * c) + delta, t1 + x * c);
    assert((t1 + x * c) + delta - (t1 + x * c) == delta);
}

/// Proof binding, with the challenge held fixed: a proof that verifies fails
/// once the element's point `X` is changed by a nonzero amount, for a nonzero
/// (invertible) challenge.
pub proof fn lemma_proof_rejects_altered_element(
    s: int,
    t1: int,
    x: int,
    c: int,
    c_inv: int,
    delta: int,
)
    requires
        proof_equation(s, t1, x, c, 1),
        is_inverse(c, c_inv),
        delta % order() != 0,
    ensures
        !proof_equation(s, t1, x + delta, c, 1),
{
    let m = order();
    assert(t1 * 1 + x * c * 1 == t1 + x * c) by (nonlinear_arith);
    assert(t1 * 1 + (x + delta) * c * 1 == (t1 + x * c) + delta * c) by (nonlinear_arith);
    if proof_equation(s, t1, x + delta, c, 1) {
        lemma_cong_diff((t1 + x * c) + delta * c, t1 + x * c);
        assert((t1 + x * c) + delta * c - (t1 + x * c) == delta * c);
        lemma_cong_mul(delta * c, 0, c_inv);
        assert(0 * c_inv == 0);
        vstd::arithmetic::div_mod::lemma_small_mod(0, m as nat);
        assert(delta * c * c_inv == delta * (c * c_inv)) by (nonlinear_arith);
        vstd::arithmetic::div_mod::lemma_mul_mod_noop_right(delta, c * c_inv, m);
        assert(delta * 1 == delta);
    }
}

/// Order sensitivity: adding two distinct elements to a fresh accumulator in
/// the two orders gives different values, unless `alpha` is one. (Nonzero
/// scalars are invertible; the inverses are taken as arguments.)
pub proof fn lemma_order_sensitivity(alpha: int, a: int, b: int, diff_inv: int, key_inv: int)
    requires
        in_field(alpha),
        in_field(a),
        in_field(b),
        is_inverse(a - b, diff_inv),
        is_inverse(1 - alpha, key_inv),
    ensures
        add_spec(add_spec(1, a, alpha), b, alpha) != add_spec(add_spec(1, b, alpha), a, alpha),
{
    let m = order();
    let ab = add_spec(add_spec(1, a, alpha), b, alpha);
    let ba = add_spec(add_spec(1, b, alpha), a, alpha);
    // ab == b + a * alpha + alpha * alpha, ba == a + b * alpha + alpha * alpha (mod m)
    vstd::arithmetic::div_mod::lemma_mod_twice(a + 1 * alpha, m);
    lemma_cong_mul(a + 1 * alpha, (a + 1 * alpha) % m, alpha);
    vstd::arithmetic::div_mod::lemma_add_mod_noop_right(b, ((a + 1 * alpha) % m) * alpha, m);
    vstd::arithmetic::div_mod::lemma_add_mod_noop_right(b, (a + 1 * alpha) * alpha, m);
    vstd::arithmetic::div_mod::lemma_mod_twice(b + 1 * alpha, m);
    lemma_cong_mul(b + 1 * alpha, (b + 1 * alpha) % m, alpha);
    vstd::arithmetic::div_mod::lemma_add_mod_noop_right(a, ((b + 1 * alpha) % m) * alpha, m);
    vstd::arithmetic::div_mod::lemma_add_mod_noop_right(a, (b + 1 * alpha) * alpha, m);
    assert(ab == (b + (a + 1 * alpha) * alpha) % m);
    assert(ba == (a + (b + 1 * alpha) * alpha) % m);
    if ab == ba {
        lemma_cong_diff(b + (a + 1 * alpha) * alpha, a + (b + 1 * alpha) * alpha);
        assert((b + (a + 1 * alpha) * alpha) - (a + (b + 1 * alpha) * alpha) == (a - b) * (alpha
            - 1)) by (nonlinear_arith);
        // (a - b) * (alpha - 1) == 0, so (a - b) * (1 - alpha) == 0
        assert((a - b) * (1 - alpha) == 0 - (a - b) * (alpha - 1)) by (nonlinear_arith);
        lemma_cong_diff(0, (a - b) * (alpha - 1));
        assert(((a - b) * (1 - alpha)) % m == 0);
        lemma_cong_mul((a - b) * (1 - alpha), 0, key_inv);
        assert(0 * key_inv == 0);
        vstd::arithmetic::div_mod::lemma_small_mod(0, m as nat);
        assert((a - b) * (1 - alpha) * key_inv == (a - b) * ((1 - alpha) * key_inv))
            by (nonlinear_arith);
        vstd::arithmetic::div_mod::lemma_mul_mod_noop_right(a - b, (1 - alpha) * key_inv, m);
        assert(((a - b) * 1) % m == 0);
        lemma_cong_mul(a - b, 0, diff_inv);
        assert(0 * diff_inv == 0);
        vstd::arithmetic::div_mod::lemma_small_mod(0, m as nat);
        assert(((a - b) * diff_inv) % m == 0);
    }
}

} // verus!
