//! Secret and public keys.

use vstd::prelude::*;
use crate::bytes::{le_value, take_32};
use crate::point::{point_at, point_mul, Point, PointSpec};
use crate::proofs::dlog_eq::{
    prove_pair, verify_pair, ProverPair, Publics, Secrets, Statement, Verifier, VerifierPair,
};
use crate::scalar::{group_order, Scalar};
use crate::transport::{Label, Message};

verus! {

/// The 64 bytes that a seed expands to: the canonical encoding of the secret
/// scalar, then the seed for nonces.
pub uninterp spec fn expanded_secret_key(seed: Seq<u8>) -> Seq<u8>;

/// Expands a seed to the bytes of a secret key.
///
/// Trusted: `MiniSecretKey::expand` of schnorrkel, in the uniform mode,
/// derives the key from the seed alone, and `SecretKey::to_bytes` puts the
/// canonical encoding of its scalar first.
#[verifier::external_body]
fn expand_seed(seed: &[u8; 32]) -> (out: [u8; 64])
    ensures
        out@ == expanded_secret_key(seed@),
        le_value(out@.subrange(0, 32)) < group_order(),
{
    schnorrkel::MiniSecretKey::from_bytes(seed).unwrap().expand(
        schnorrkel::ExpansionMode::Uniform,
    ).to_bytes()
}

/// The secret scalar that a seed expands to.
pub open spec fn secret_of_seed(seed: Seq<u8>) -> nat {
    le_value(expanded_secret_key(seed).subrange(0, 32))
}

/// Expands a seed to its secret scalar.
fn scalar_of_seed(seed: &[u8; 32]) -> (x: Scalar)
    ensures
        x.value() == secret_of_seed(seed@),
{
    let expanded: [u8; 64] = expand_seed(seed);
    let first: [u8; 32] = take_32(expanded.as_slice(), 0);
    Scalar::from_bytes(first).unwrap()
}

/// The secret part of a user's master key: the scalar that its seed expands
/// to. The seed for nonces that comes with it is not kept, since a signature
/// draws its nonce afresh.
pub struct UserSecretKey {
    key: Scalar,
}

/// The public part of a user's master key.
#[derive(Clone, Copy, Debug, PartialEq, Eq)]
pub struct UserPublicKey {
    key: Point,
}

/// The secret part of an organization's credential key.
pub struct OrgSecretKey {
    key1: Scalar,
    key2: Scalar,
}

/// The public part of an organization's credential key.
#[derive(Clone, Copy, Debug, PartialEq, Eq)]
pub struct OrgPublicKey {
    key1: Point,
    key2: Point,
}

impl UserSecretKey {
    /// The secret scalar.
    pub closed spec fn secret(self) -> Scalar {
        self.key
    }

    /// Generates a user secret key from 32 random bytes.
    pub fn random(seed: [u8; 32]) -> (out: UserSecretKey)
        ensures
            out.secret().value() == secret_of_seed(seed@),
    {
        UserSecretKey { key: scalar_of_seed(&seed) }
    }

    /// The secret scalar.
    pub fn exponent(&self) -> (x: Scalar)
        ensures
            x == self.secret(),
    {
        self.key
    }

    /// Gets the public part of this key: the base point multiplied by the
    /// secret scalar.
    pub fn to_public(&self) -> (out: UserPublicKey)
        ensures
            out.at().is_at(self.secret().value()),
    {
        UserPublicKey { key: public_point(&self.key) }
    }
}

/// The base point multiplied by `x`: the point whose index is `x`.
pub(crate) fn public_point(x: &Scalar) -> (out: Point)
    ensures
        out.is_at(x.value()),
        out.index() == point_mul(x.value(), 1),
{
    let g = Point::basepoint();
    let out = g.mul(x);
    proof {
        use_type_invariant(x);
        use_type_invariant(&out);
        assert(x.value() * 1 == x.value()) by (nonlinear_arith);
        vstd::arithmetic::div_mod::lemma_small_mod(x.value(), group_order());
    }
    out
}

impl UserPublicKey {
    /// The point of this key.
    pub closed spec fn at(self) -> Point {
        self.key
    }

    /// Gets this public key's point.
    pub fn point(&self) -> (out: Point)
        ensures
            out == self.at(),
    {
        self.key
    }

    /// The public key that holds `point`.
    pub fn from_point(point: Point) -> (out: UserPublicKey)
        ensures
            out.at() == point,
    {
        UserPublicKey { key: point }
    }
}

/// The statement of a proof of ownership of the public point `public`: one
/// secret takes the base point to it, stated twice.
pub open spec fn ownership_statement(public: PointSpec) -> Statement {
    Statement { g1: point_at(1), h1: public, g2: point_at(1), h2: public }
}

impl OrgSecretKey {
    /// The secret scalars.
    pub closed spec fn secrets(self) -> (Scalar, Scalar) {
        (self.key1, self.key2)
    }

    /// Generates an organization secret key from twice 32 random bytes.
    pub fn random(seed1: [u8; 32], seed2: [u8; 32]) -> (out: OrgSecretKey)
        ensures
            out.secrets().0.value() == secret_of_seed(seed1@),
            out.secrets().1.value() == secret_of_seed(seed2@),
    {
        OrgSecretKey { key1: scalar_of_seed(&seed1), key2: scalar_of_seed(&seed2) }
    }

    /// The secret scalars.
    pub fn exponents(&self) -> (x: (Scalar, Scalar))
        ensures
            x == self.secrets(),
    {
        (self.key1, self.key2)
    }

    /// Gets the public part of this key: the base point multiplied by each
    /// of the secret scalars.
    pub fn to_public(&self) -> (out: OrgPublicKey)
        ensures
            out.at().0.is_at(self.secrets().0.value()),
            out.at().1.is_at(self.secrets().1.value()),
    {
        OrgPublicKey { key1: public_point(&self.key1), key2: public_point(&self.key2) }
    }

    /// Whether `pair` and `send` are what a proof of ownership of this key
    /// starts with, for the scalars `r1` and `r2`: a proof for each half, with
    /// the base point as both bases and the half's public point as both
    /// points, and the first proof's commitment sent.
    pub open spec fn proves_ownership(
        self,
        r1: Scalar,
        r2: Scalar,
        pair: ProverPair,
        send: Seq<Message>,
    ) -> bool {
        &&& pair matches ProverPair::First { prover, publics, secrets, r }
        &&& prover.r == r1
        &&& prover.x == self.secrets().0
        &&& send.len() == 2
        &&& send[0].holds_point(Label::A, point_mul(r1.value(), 1))
        &&& send[1].holds_point(Label::B, point_mul(r1.value(), 1))
        &&& publics.statement() == ownership_statement(point_at(self.secrets().1.value()))
        &&& secrets.x == self.secrets().1
        &&& r == r2
    }

    /// Starts to prove ownership of this key to a user, one proof for each
    /// half, committing with the scalars `r1` and `r2`.
    pub fn prove_ownership_with(&self, r1: Scalar, r2: Scalar) -> (out: (ProverPair, Vec<Message>))
        ensures
            self.proves_ownership(r1, r2, out.0, out.1@),
    {
        let base = Point::basepoint();
        let public = self.to_public();
        proof {
            use_type_invariant(&base);
            use_type_invariant(&public.key1);
            use_type_invariant(&public.key2);
        }
        let first = (
            Publics { g1: base, h1: public.key1, g2: base, h2: public.key1 },
            Secrets { x: self.key1 },
            r1,
        );
        let second = (
            Publics { g1: base, h1: public.key2, g2: base, h2: public.key2 },
            Secrets { x: self.key2 },
            r2,
        );
        prove_pair(first, second)
    }

    /// Starts to prove ownership of this key to a user, committing with
    /// fresh random scalars.
    pub fn prove_ownership(&self) -> (out: (ProverPair, Vec<Message>))
        ensures
            exists|r1: Scalar, r2: Scalar| self.proves_ownership(r1, r2, out.0, out.1@),
    {
        self.prove_ownership_with(Scalar::random(), Scalar::random())
    }
}

impl OrgPublicKey {
    /// The points of this key.
    pub closed spec fn at(self) -> (Point, Point) {
        (self.key1, self.key2)
    }

    /// Gets this public key's points.
    pub fn points(&self) -> (out: (Point, Point))
        ensures
            out == self.at(),
    {
        (self.key1, self.key2)
    }

    /// The public key that holds the two points.
    pub fn from_points(key1: Point, key2: Point) -> (out: OrgPublicKey)
        ensures
            out.at() == (key1, key2),
    {
        OrgPublicKey { key1, key2 }
    }

    /// Whether `pair` is what a verification of ownership of this key starts
    /// with, for the challenges `c1` and `c2`: a proof for each half, with the
    /// base point as both bases and the half's public point as both points.
    pub open spec fn verifies_ownership(self, c1: Scalar, c2: Scalar, pair: VerifierPair) -> bool {
        &&& pair matches VerifierPair::First {
            verifier: Verifier::AwaitA { publics: first, c: first_c },
            publics: second,
            c: second_c,
        }
        &&& first_c == c1
        &&& second_c == c2
        &&& first.statement() == ownership_statement(self.at().0.model())
        &&& second.statement() == ownership_statement(self.at().1.model())
    }

    /// Starts to verify an organization's ownership of this key, one proof
    /// for each half, with the challenges `c1` and `c2`.
    pub fn verify_ownership_with(&self, c1: Scalar, c2: Scalar) -> (out: VerifierPair)
        ensures
            self.verifies_ownership(c1, c2, out),
    {
        let base = Point::basepoint();
        proof {
            use_type_invariant(&base);
        }
        verify_pair(
            (Publics { g1: base, h1: self.key1, g2: base, h2: self.key1 }, c1),
            (Publics { g1: base, h1: self.key2, g2: base, h2: self.key2 }, c2),
        )
    }

    /// Starts to verify an organization's ownership of this key, with fresh
    /// random challenges.
    pub fn verify_ownership(&self) -> (out: VerifierPair)
        ensures
            exists|c1: Scalar, c2: Scalar| self.verifies_ownership(c1, c2, out),
    {
        self.verify_ownership_with(Scalar::random(), Scalar::random())
    }
}

} // verus!
