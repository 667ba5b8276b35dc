//! Congruence modulo the group's order: the arithmetic behind the laws of
//! the protocols.

use vstd::prelude::*;
use vstd::arithmetic::div_mod::{
    lemma_add_mod_noop, lemma_mod_twice, lemma_mul_mod_noop_general, lemma_small_mod,
};
use vstd::arithmetic::power2::{lemma2_to64, lemma_pow2_strictly_increases};
use crate::scalar::{group_order, lemma_group_order_positive};

verus! {

/// Whether `a` and `b` leave the same remainder modulo the group's order.
pub open spec fn congruent(a: int, b: int) -> bool {
    a % (group_order() as int) == b % (group_order() as int)
}

/// A number is congruent to its remainder.
pub proof fn lemma_remainder_congruent(a: int)
    ensures
        congruent(a % (group_order() as int), a),
{
    lemma_group_order_positive();
    lemma_mod_twice(a, group_order() as int);
}

/// Sums of congruent numbers are congruent.
pub proof fn lemma_congruent_add(a: int, a2: int, b: int, b2: int)
    requires
        congruent(a, a2),
        congruent(b, b2),
    ensures
        congruent(a + b, a2 + b2),
{
    lemma_group_order_positive();
    let m = group_order() as int;
    lemma_add_mod_noop(a, b, m);
    lemma_add_mod_noop(a2, b2, m);
}

/// Products of congruent numbers are congruent.
pub proof fn lemma_congruent_mul(a: int, a2: int, b: int, b2: int)
    requires
        congruent(a, a2),
        congruent(b, b2),
    ensures
        congruent(a * b, a2 * b2),
{
    lemma_group_order_positive();
    let m = group_order() as int;
    lemma_mul_mod_noop_general(a, b, m);
    lemma_mul_mod_noop_general(a2, b2, m);
}

/// Congruent numbers below the group's order are equal.
pub proof fn lemma_congruent_small(a: int, b: int)
    requires
        congruent(a, b),
        0 <= a < group_order(),
        0 <= b < group_order(),
    ensures
        a == b,
{
    lemma_small_mod(a as nat, group_order());
    lemma_small_mod(b as nat, group_order());
}

/// The remainder of a sum, from numbers congruent to the terms.
pub proof fn lemma_sum_reduced(a: int, a2: int, b: int, b2: int)
    requires
        congruent(a, a2),
        congruent(b, b2),
    ensures
        congruent((a + b) % (group_order() as int), a2 + b2),
{
    lemma_congruent_add(a, a2, b, b2);
    lemma_remainder_congruent(a + b);
}

/// The remainder of a product, from numbers congruent to the factors.
pub proof fn lemma_product_reduced(a: int, a2: int, b: int, b2: int)
    requires
        congruent(a, a2),
        congruent(b, b2),
    ensures
        congruent((a * b) % (group_order() as int), a2 * b2),
{
    lemma_congruent_mul(a, a2, b, b2);
    lemma_remainder_congruent(a * b);
}

/// Two remainders that are congruent to one number are equal.
pub proof fn lemma_remainders_equal(u: int, v: int, w: int)
    requires
        congruent(u % (group_order() as int), w),
        congruent(v % (group_order() as int), w),
    ensures
        u % (group_order() as int) == v % (group_order() as int),
{
    lemma_group_order_positive();
    lemma_mod_twice(u, group_order() as int);
    lemma_mod_twice(v, group_order() as int);
}

/// Whether `inverse` is the inverse of `a` modulo the group's order: their
/// product leaves the remainder one.
pub open spec fn is_inverse(inverse: nat, a: nat) -> bool {
    (inverse * a) % group_order() == 1
}

/// A common factor that has an inverse cancels from a congruence.
pub proof fn lemma_cancel_factor(u: int, v: int, a: nat, inverse: nat)
    requires
        congruent(u * a, v * a),
        is_inverse(inverse, a),
    ensures
        congruent(u, v),
{
    lemma_group_order_positive();
    let m = group_order() as int;
    let k = inverse as int * a as int;
    assert(1int % m == 1) by {
        lemma2_to64();
        lemma_pow2_strictly_increases(1, 252);
        lemma_small_mod(1, group_order());
    }
    assert(congruent(k, 1));
    lemma_congruent_mul(u * a, v * a, inverse as int, inverse as int);
    assert(u * a * inverse == u * k) by (nonlinear_arith)
        requires
            k == inverse as int * a as int,
    ;
    assert(v * a * inverse == v * k) by (nonlinear_arith)
        requires
            k == inverse as int * a as int,
    ;
    lemma_congruent_mul(u, u, k, 1);
    lemma_congruent_mul(v, v, k, 1);
    assert(u * 1 == u && v * 1 == v);
}

/// A common term cancels from a congruence.
pub proof fn lemma_cancel_term(u: int, v: int, t: int)
    requires
        congruent(u + t, v + t),
    ensures
        congruent(u, v),
{
    lemma_congruent_add(u + t, v + t, -t, -t);
}

} // verus!
