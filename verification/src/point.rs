//! The group: a cyclic group of prime order, written additively.
//!
//! Every element is a multiple of the base point, and the multiplier is the
//! element's index: a number below the group's order. Adding elements adds
//! their indices, and multiplying an element by a scalar multiplies its
//! index, both modulo the order. The contracts of this library speak of
//! elements through their indices.

use vstd::prelude::*;
use crate::bytes::bytes_equal;
use crate::modular::{lemma_product_reduced, lemma_remainders_equal, lemma_sum_reduced};
use crate::scalar::{group_order, Scalar};

verus! {

/// The index of the group element that `encoding` is the canonical encoding
/// of: the number `k` below the group's order for which the element is `k`
/// times the base point.
pub uninterp spec fn ristretto_index(encoding: Seq<u8>) -> nat;

/// The canonical encoding of `index` times the base point.
pub uninterp spec fn ristretto_encoding(index: nat) -> Seq<u8>;

/// Whether `encoding` is the canonical encoding of a group element.
pub open spec fn is_point_encoding(encoding: Seq<u8>) -> bool {
    &&& encoding.len() == 32
    &&& ristretto_index(encoding) < group_order()
    &&& ristretto_encoding(ristretto_index(encoding)) == encoding
}

/// The index of the sum of two elements.
pub open spec fn point_add(p: nat, q: nat) -> nat {
    (p + q) % group_order()
}

/// The index of an element multiplied by a scalar.
pub open spec fn point_mul(s: nat, p: nat) -> nat {
    (s * p) % group_order()
}

/// A group element as a contract speaks of it: its canonical encoding and
/// its index.
pub struct PointSpec {
    /// The canonical encoding.
    pub encoding: Seq<u8>,
    /// The index.
    pub index: nat,
}

/// The group element with the index `index`.
pub open spec fn point_at(index: nat) -> PointSpec {
    PointSpec { encoding: ristretto_encoding(index), index }
}

/// A group element, held as its canonical 32-byte encoding.
#[derive(Clone, Copy, Debug, PartialEq, Eq)]
pub struct Point {
    bytes: [u8; 32],
}

impl View for Point {
    type V = Seq<u8>;

    closed spec fn view(&self) -> Seq<u8> {
        self.bytes@
    }
}

impl Point {
    /// Every point holds the canonical encoding of a group element.
    #[verifier::type_invariant]
    pub open spec fn is_canonical(self) -> bool {
        is_point_encoding(self@)
    }

    /// The element's index.
    pub open spec fn index(self) -> nat {
        ristretto_index(self@)
    }

    /// The element as a contract speaks of it.
    pub open spec fn model(self) -> PointSpec {
        PointSpec { encoding: self@, index: self.index() }
    }

    /// Whether this is the element with the index `index`.
    pub open spec fn is_at(self, index: nat) -> bool {
        self.model() == point_at(index)
    }

    /// The canonical encoding.
    pub fn to_bytes(&self) -> (out: [u8; 32])
        ensures
            out@ == self@,
    {
        self.bytes
    }

    /// An encoding is 32 bytes long.
    pub proof fn lemma_encoding_length(self)
        ensures
            self@.len() == 32,
    {
    }

    /// Decodes the canonical encoding of a group element. Anything else is
    /// refused.
    pub fn from_bytes(bytes: [u8; 32]) -> (out: Option<Point>)
        ensures
            out.is_some() == is_point_encoding(bytes@),
            out matches Some(p) ==> p@ == bytes@,
    {
        decompress(bytes)
    }

    /// The base point, the generator that indices count from.
    pub fn basepoint() -> (out: Point)
        ensures
            out.is_at(1),
    {
        generator()
    }

    /// The sum of two elements.
    pub fn add(&self, other: &Point) -> (out: Point)
        ensures
            out.is_at(point_add(self.index(), other.index())),
    {
        proof {
            use_type_invariant(self);
            use_type_invariant(other);
        }
        sum(self, other)
    }

    /// This element multiplied by a scalar.
    pub fn mul(&self, scalar: &Scalar) -> (out: Point)
        ensures
            out.is_at(point_mul(scalar.value(), self.index())),
    {
        proof {
            use_type_invariant(self);
            use_type_invariant(scalar);
        }
        multiple(self, scalar)
    }

    /// Whether this is the identity, the element with the index zero. It is
    /// the one element that is its own double.
    pub fn is_identity(&self) -> (out: bool)
        ensures
            out == (self.index() == 0),
    {
        let double = self.add(self);
        proof {
            use_type_invariant(self);
            lemma_own_double(self.index());
        }
        double.equals(self)
    }

    /// Whether two points are the same group element.
    pub fn equals(&self, other: &Point) -> (same: bool)
        ensures
            same == (self.index() == other.index()),
            same == (self@ == other@),
    {
        proof {
            use_type_invariant(self);
            use_type_invariant(other);
        }
        bytes_equal(&self.bytes, &other.bytes)
    }
}

/// Trusted: `CompressedRistretto::decompress` of curve25519-dalek gives a
/// point exactly for the canonical encodings of group elements, and that
/// point compresses to the bytes it was decoded from.
#[verifier::external_body]
fn decompress(bytes: [u8; 32]) -> (out: Option<Point>)
    ensures
        out.is_some() == is_point_encoding(bytes@),
        out matches Some(p) ==> p@ == bytes@,
{
    curve25519_dalek::ristretto::CompressedRistretto(bytes).decompress().map(
        |p| Point { bytes: p.compress().to_bytes() },
    )
}

/// Trusted: `RISTRETTO_BASEPOINT_POINT` of curve25519-dalek is the
/// generator of the group, so its index is one, and `compress` gives its
/// canonical encoding.
#[verifier::external_body]
fn generator() -> (out: Point)
    ensures
        ristretto_index(out@) == 1,
        out@ == ristretto_encoding(1),
        is_point_encoding(out@),
{
    Point { bytes: curve25519_dalek::constants::RISTRETTO_BASEPOINT_POINT.compress().to_bytes() }
}

/// Trusted: `+` on `RistrettoPoint` is the group operation, so the indices
/// add modulo the group's order, and `compress` gives the canonical encoding
/// of the sum. Both arguments decode, being canonical.
#[verifier::external_body]
fn sum(a: &Point, b: &Point) -> (out: Point)
    requires
        is_point_encoding(a@),
        is_point_encoding(b@),
    ensures
        ristretto_index(out@) == point_add(ristretto_index(a@), ristretto_index(b@)),
        is_point_encoding(out@),
{
    let p = curve25519_dalek::ristretto::CompressedRistretto(a.bytes).decompress().unwrap();
    let q = curve25519_dalek::ristretto::CompressedRistretto(b.bytes).decompress().unwrap();
    Point { bytes: (p + q).compress().to_bytes() }
}

/// Trusted: `*` of a `Scalar` and a `RistrettoPoint` adds the point to
/// itself that many times, so the index is multiplied modulo the group's
/// order, and `compress` gives the canonical encoding of the result. Both
/// arguments decode, being canonical.
#[verifier::external_body]
fn multiple(p: &Point, scalar: &Scalar) -> (out: Point)
    requires
        is_point_encoding(p@),
        scalar.value() < group_order(),
    ensures
        ristretto_index(out@) == point_mul(scalar.value(), ristretto_index(p@)),
        is_point_encoding(out@),
{
    let q = curve25519_dalek::ristretto::CompressedRistretto(p.bytes).decompress().unwrap();
    let s = curve25519_dalek::Scalar::from_canonical_bytes(scalar.to_bytes()).unwrap();
    Point { bytes: (s * q).compress().to_bytes() }
}

/// Multiplying by a scalar distributes over the sum of two elements.
pub proof fn lemma_point_mul_distributes(s: nat, p: nat, q: nat)
    ensures
        point_mul(s, point_add(p, q)) == point_add(point_mul(s, p), point_mul(s, q)),
{
    let (si, pi, qi) = (s as int, p as int, q as int);
    lemma_sum_reduced(pi, pi, qi, qi);
    lemma_product_reduced(si, si, point_add(p, q) as int, pi + qi);
    lemma_product_reduced(si, si, pi, pi);
    lemma_product_reduced(si, si, qi, qi);
    lemma_sum_reduced(point_mul(s, p) as int, si * pi, point_mul(s, q) as int, si * qi);
    assert(si * (pi + qi) == si * pi + si * qi) by (nonlinear_arith);
    lemma_remainders_equal(
        si * point_add(p, q) as int,
        point_mul(s, p) as int + point_mul(s, q) as int,
        si * (pi + qi),
    );
}

/// Multiplying by two scalars in turn gives the same element in either
/// order.
pub proof fn lemma_point_mul_commutes(s: nat, t: nat, p: nat)
    ensures
        point_mul(s, point_mul(t, p)) == point_mul(t, point_mul(s, p)),
{
    let (si, ti, pi) = (s as int, t as int, p as int);
    lemma_product_reduced(ti, ti, pi, pi);
    lemma_product_reduced(si, si, point_mul(t, p) as int, ti * pi);
    lemma_product_reduced(si, si, pi, pi);
    lemma_product_reduced(ti, ti, point_mul(s, p) as int, si * pi);
    assert(si * (ti * pi) == ti * (si * pi)) by (nonlinear_arith);
    lemma_remainders_equal(
        si * point_mul(t, p) as int,
        ti * point_mul(s, p) as int,
        si * (ti * pi),
    );
}

/// Points with the same encoding are the same point.
pub proof fn lemma_same_encoding(p: Point, q: Point)
    requires
        p@ == q@,
    ensures
        p == q,
{
    assert(p.bytes =~= q.bytes);
}

/// Of the indices below the group's order, zero alone is its own double.
pub proof fn lemma_own_double(k: nat)
    requires
        k < group_order(),
    ensures
        (point_add(k, k) == k) == (k == 0),
{
    let m = group_order() as int;
    let d = (k + k) as int;
    vstd::arithmetic::div_mod::lemma_fundamental_div_mod(d, m);
    if k == 0 {
        vstd::arithmetic::div_mod::lemma_small_mod(0, group_order());
    } else if d % m == k {
        let q = d / m;
        assert(k == m * q);
        assert(false) by (nonlinear_arith)
            requires
                k == m * q,
                0 < k < m,
        ;
    }
}

} // verus!
