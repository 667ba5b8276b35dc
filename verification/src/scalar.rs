//! The scalar field of the group: the integers modulo the group's order.

use vstd::prelude::*;
use vstd::arithmetic::power2::{
    lemma2_to64, lemma2_to64_rest, lemma_pow2_adds, lemma_pow2_pos,
    lemma_pow2_strictly_increases, lemma_pow2_unfold, pow2,
};
use crate::bytes::{bytes_equal, le_value, lemma_le_value_injective, lemma_le_value_last};

verus! {

/// The order of the group, a prime a little above 2^252.
pub open spec fn group_order() -> nat {
    pow2(252) + 27742317777372353535851937790883648493
}

/// The group's order is positive, so reduction modulo it is defined.
pub proof fn lemma_group_order_positive()
    ensures
        group_order() > 0,
{
    lemma_pow2_pos(252);
}

/// The group's order is below 2^253.
pub proof fn lemma_group_order_bound()
    ensures
        group_order() < pow2(253),
{
    lemma2_to64();
    lemma2_to64_rest();
    lemma_pow2_adds(64, 61);
    assert(pow2(125) == pow2(64) * pow2(61));
    assert(27742317777372353535851937790883648493 < 0x10000000000000000int * 0x2000000000000000int)
        by (nonlinear_arith);
    assert(27742317777372353535851937790883648493 < pow2(125));
    lemma_pow2_strictly_increases(125, 252);
    lemma_pow2_unfold(253);
}

/// The sum of two scalars.
pub open spec fn scalar_add(a: nat, b: nat) -> nat {
    (a + b) % group_order()
}

/// The product of two scalars.
pub open spec fn scalar_mul(a: nat, b: nat) -> nat {
    (a * b) % group_order()
}

/// An element of the scalar field, held as its canonical encoding: the 32
/// bytes, least significant first, of the one representative below the
/// group's order.
#[derive(Clone, Copy, Debug, PartialEq, Eq)]
pub struct Scalar {
    bytes: [u8; 32],
}

impl View for Scalar {
    type V = Seq<u8>;

    closed spec fn view(&self) -> Seq<u8> {
        self.bytes@
    }
}

impl Scalar {
    /// Every scalar is reduced.
    #[verifier::type_invariant]
    pub open spec fn is_reduced(self) -> bool {
        self.value() < group_order()
    }

    /// The representative that the encoding spells.
    pub open spec fn value(self) -> nat {
        le_value(self@)
    }

    /// The canonical encoding.
    pub fn to_bytes(&self) -> (out: [u8; 32])
        ensures
            out@ == self@,
    {
        self.bytes
    }

    /// An encoding is 32 bytes long.
    pub proof fn lemma_encoding_length(self)
        ensures
            self@.len() == 32,
    {
    }

    /// The three highest bits of a reduced scalar's encoding are clear.
    pub proof fn lemma_top_bits_clear(self)
        requires
            self.value() < group_order(),
        ensures
            self@.len() == 32,
            self@[31] < 32,
    {
        lemma_le_value_last(self@);
        lemma_group_order_bound();
        lemma_pow2_adds(5, 248);
        lemma2_to64();
        let top = self@[31] as nat;
        assert(top < 32) by (nonlinear_arith)
            requires
                top * pow2(248) < 32 * pow2(248),
        ;
    }

    /// Decodes a canonical encoding: the 32 bytes of a number below the
    /// group's order. Anything else is refused.
    pub fn from_bytes(bytes: [u8; 32]) -> (out: Option<Scalar>)
        ensures
            out.is_some() == (le_value(bytes@) < group_order()),
            out matches Some(s) ==> s@ == bytes@,
    {
        decode(bytes)
    }

    /// Reduces a 512-bit number, given least significant byte first, modulo
    /// the group's order.
    pub fn from_bytes_mod_order_wide(bytes: &[u8; 64]) -> (out: Scalar)
        ensures
            out.value() == le_value(bytes@) % group_order(),
    {
        reduce_wide(bytes)
    }

    /// Draws a scalar from the thread's random number generator.
    pub fn random() -> (out: Scalar)
        ensures
            out.value() < group_order(),
    {
        let out = draw();
        proof {
            use_type_invariant(&out);
        }
        out
    }

    /// The sum of two scalars.
    pub fn add(&self, other: &Scalar) -> (out: Scalar)
        ensures
            out.value() == scalar_add(self.value(), other.value()),
    {
        proof {
            use_type_invariant(self);
            use_type_invariant(other);
        }
        sum(self, other)
    }

    /// The product of two scalars.
    pub fn mul(&self, other: &Scalar) -> (out: Scalar)
        ensures
            out.value() == scalar_mul(self.value(), other.value()),
    {
        proof {
            use_type_invariant(self);
            use_type_invariant(other);
        }
        product(self, other)
    }

    /// Whether two scalars are the same number. Reads every byte of both.
    pub fn equals(&self, other: &Scalar) -> (same: bool)
        ensures
            same == (self.value() == other.value()),
            same == (self@ == other@),
    {
        proof {
            if self.value() == other.value() {
                lemma_le_value_injective(self@, other@);
            }
        }
        bytes_equal(&self.bytes, &other.bytes)
    }
}

/// Trusted: `curve25519_dalek::Scalar::from_canonical_bytes` accepts exactly
/// the encodings of numbers below the group's order, and the scalar it gives
/// has the bytes it was given.
#[verifier::external_body]
fn decode(bytes: [u8; 32]) -> (out: Option<Scalar>)
    ensures
        out.is_some() == (le_value(bytes@) < group_order()),
        out matches Some(s) ==> s@ == bytes@,
{
    let decoded: Option<curve25519_dalek::Scalar> =
        curve25519_dalek::Scalar::from_canonical_bytes(bytes).into();
    decoded.map(|s| Scalar { bytes: s.to_bytes() })
}

/// Trusted: `curve25519_dalek::Scalar::from_bytes_mod_order_wide` reads the
/// 64 bytes as a number, least significant byte first, and reduces it modulo
/// the group's order; `to_bytes` gives the canonical encoding of the result.
#[verifier::external_body]
fn reduce_wide(bytes: &[u8; 64]) -> (out: Scalar)
    ensures
        out.value() == le_value(bytes@) % group_order(),
{
    Scalar { bytes: curve25519_dalek::Scalar::from_bytes_mod_order_wide(bytes).to_bytes() }
}

/// Trusted: `curve25519_dalek::Scalar::random` on `rand::thread_rng` gives
/// a reduced scalar. Nothing else is claimed of the outcome.
#[verifier::external_body]
fn draw() -> (out: Scalar)
    ensures
        out.value() < group_order(),
{
    Scalar { bytes: curve25519_dalek::Scalar::random(&mut rand::thread_rng()).to_bytes() }
}

/// Trusted: `+` on `curve25519_dalek::Scalar` adds modulo the group's order,
/// and gives a reduced scalar. Both arguments decode, being reduced.
#[verifier::external_body]
fn sum(a: &Scalar, b: &Scalar) -> (out: Scalar)
    requires
        a.value() < group_order(),
        b.value() < group_order(),
    ensures
        out.value() == scalar_add(a.value(), b.value()),
{
    let x = curve25519_dalek::Scalar::from_canonical_bytes(a.bytes).unwrap();
    let y = curve25519_dalek::Scalar::from_canonical_bytes(b.bytes).unwrap();
    Scalar { bytes: (x + y).to_bytes() }
}

/// Trusted: `*` on `curve25519_dalek::Scalar` multiplies modulo the group's
/// order, and gives a reduced scalar. Both arguments decode, being reduced.
#[verifier::external_body]
fn product(a: &Scalar, b: &Scalar) -> (out: Scalar)
    requires
        a.value() < group_order(),
        b.value() < group_order(),
    ensures
        out.value() == scalar_mul(a.value(), b.value()),
{
    let x = curve25519_dalek::Scalar::from_canonical_bytes(a.bytes).unwrap();
    let y = curve25519_dalek::Scalar::from_canonical_bytes(b.bytes).unwrap();
    Scalar { bytes: (x * y).to_bytes() }
}

} // verus!
