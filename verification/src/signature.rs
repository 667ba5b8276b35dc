//! Signing with a pseudonym: a Schnorr signature whose base is the
//! pseudonym's `a` and whose public key is its `b`.
//!
//! The transcript that is signed absorbs what a signature of the schnorrkel
//! crate absorbs, under the same labels, and a signature is encoded as
//! schnorrkel encodes its own. With the base point as the base, a signature
//! is one of schnorrkel's, and each verifies the other's.
//!
//! The scalar of the commitment is drawn from the thread's random number
//! generator, and from nothing else: it is not derived from the transcript
//! and from a nonce seed kept with the key. A signer whose generator repeats
//! itself gives its secret away.

use vstd::prelude::*;
use crate::bytes::{append_32, le_value, take_32};
use crate::error::Error;
use crate::hash::{absorbed, append_message, challenge_bytes_of, TranscriptProtocol};
use crate::key::UserSecretKey;
use crate::nym::Nym;
use crate::point::{is_point_encoding, point_mul, Point};
use crate::proofs::dlog_eq::{lemma_honest_prover_accepted, relation_holds, response};
use crate::scalar::{group_order, Scalar};
use merlin::Transcript as Sponge;

verus! {

/// A signature made with a pseudonym: the commitment and the response of
/// a proof of knowledge of the secret that takes the pseudonym's `a` to its
/// `b`, challenged by the transcript that was signed.
#[derive(Clone, Copy, Debug, PartialEq, Eq)]
#[allow(non_snake_case)]
pub struct Signature {
    /// The commitment.
    pub R: Point,
    /// The response.
    pub s: Scalar,
}

/// The encoding of a response with the mark of a signature on it: the
/// highest bit of the last byte, which is clear in every scalar, is set.
pub open spec fn marked(s: Seq<u8>) -> Seq<u8> {
    s.update(31, s[31] | 0x80)
}

/// Whether `bytes` is the encoding of a signature: twice 32 bytes, the
/// first of which encode a point and the second, marked, a scalar.
pub open spec fn is_signature_encoding(bytes: Seq<u8>) -> bool {
    &&& bytes.len() == 64
    &&& is_point_encoding(bytes.subrange(0, 32))
    &&& bytes[63] & 0x80 != 0
    &&& le_value(bytes.subrange(32, 64).update(31, bytes[63] & 0x7f)) < group_order()
}

impl Signature {
    /// The encoding of this signature: the encodings of `R` and `s`, in
    /// this order, with the mark on.
    pub open spec fn encoding(self) -> Seq<u8> {
        self.R@ + marked(self.s@)
    }

    /// Encodes this signature.
    pub fn to_bytes(&self) -> (out: Vec<u8>)
        ensures
            out@ == self.encoding(),
            is_signature_encoding(out@),
    {
        let mut response: [u8; 32] = self.s.to_bytes();
        let last: u8 = response[31];
        response[31] = last | 0x80;
        let mut out: Vec<u8> = Vec::new();
        append_32(&mut out, &self.R.to_bytes());
        append_32(&mut out, &response);
        proof {
            use_type_invariant(&self.R);
            use_type_invariant(&self.s);
            self.R.lemma_encoding_length();
            self.s.lemma_top_bits_clear();
            assert(response@ =~= marked(self.s@));
            assert((last | 0x80) & 0x80 != 0 && (last | 0x80) & 0x7f == last) by (bit_vector)
                requires
                    last < 32,
            ;
            assert(out@.subrange(0, 32) =~= self.R@);
            assert(out@.subrange(32, 64).update(31, out@[63] & 0x7f) =~= self.s@);
        }
        out
    }

    /// Decodes a signature. Bytes that are not the encoding of a signature
    /// are refused.
    pub fn from_bytes(bytes: &[u8]) -> (out: Option<Signature>)
        ensures
            out is Some == is_signature_encoding(bytes@),
            out matches Some(sig) ==> sig.encoding() == bytes@,
    {
        if bytes.len() != 64 {
            return None;
        }
        let last: u8 = bytes[63];
        if last & 0x80 == 0 {
            return None;
        }
        let mut response: [u8; 32] = take_32(bytes, 32);
        response[31] = last & 0x7f;
        proof {
            assert(response@ =~= bytes@.subrange(32, 64).update(31, bytes@[63] & 0x7f));
        }
        match (Point::from_bytes(take_32(bytes, 0)), Scalar::from_bytes(response)) {
            (Some(commitment), Some(s)) => {
                let sig = Signature { R: commitment, s };
                proof {
                    assert((last & 0x7f) | 0x80 == last) by (bit_vector)
                        requires
                            last & 0x80 != 0,
                    ;
                    assert(marked(sig.s@) =~= bytes@.subrange(32, 64));
                    assert(sig.encoding() =~= bytes@);
                }
                Some(sig)
            },
            _ => None,
        }
    }
}

/// The label `proto-name`.
pub open spec fn proto_name_label() -> Seq<u8> {
    seq![0x70u8, 0x72u8, 0x6fu8, 0x74u8, 0x6fu8, 0x2du8, 0x6eu8, 0x61u8, 0x6du8, 0x65u8]
}

/// The name of the signature protocol: `Schnorr-sig`.
pub open spec fn signature_protocol() -> Seq<u8> {
    seq![0x53u8, 0x63u8, 0x68u8, 0x6eu8, 0x6fu8, 0x72u8, 0x72u8, 0x2du8, 0x73u8, 0x69u8, 0x67u8]
}

/// The label `sign:pk`.
pub open spec fn public_key_label() -> Seq<u8> {
    seq![0x73u8, 0x69u8, 0x67u8, 0x6eu8, 0x3au8, 0x70u8, 0x6bu8]
}

/// The label `sign:R`.
pub open spec fn commitment_label() -> Seq<u8> {
    seq![0x73u8, 0x69u8, 0x67u8, 0x6eu8, 0x3au8, 0x52u8]
}

/// The label `sign:c`.
pub open spec fn challenge_label() -> Seq<u8> {
    seq![0x73u8, 0x69u8, 0x67u8, 0x6eu8, 0x3au8, 0x63u8]
}

fn proto_name_bytes() -> (out: &'static [u8])
    ensures
        out@ == proto_name_label(),
{
    let l: &'static [u8; 10] = &[
        0x70u8, 0x72u8, 0x6fu8, 0x74u8, 0x6fu8, 0x2du8, 0x6eu8, 0x61u8, 0x6du8, 0x65u8,
    ];
    assert(l@ =~= proto_name_label());
    l
}

fn signature_protocol_bytes() -> (out: &'static [u8])
    ensures
        out@ == signature_protocol(),
{
    let l: &'static [u8; 11] = &[
        0x53u8, 0x63u8, 0x68u8, 0x6eu8, 0x6fu8, 0x72u8, 0x72u8, 0x2du8, 0x73u8, 0x69u8, 0x67u8,
    ];
    assert(l@ =~= signature_protocol());
    l
}

fn public_key_bytes() -> (out: &'static [u8])
    ensures
        out@ == public_key_label(),
{
    let l: &'static [u8; 7] = &[0x73u8, 0x69u8, 0x67u8, 0x6eu8, 0x3au8, 0x70u8, 0x6bu8];
    assert(l@ =~= public_key_label());
    l
}

fn commitment_bytes() -> (out: &'static [u8])
    ensures
        out@ == commitment_label(),
{
    let l: &'static [u8; 6] = &[0x73u8, 0x69u8, 0x67u8, 0x6eu8, 0x3au8, 0x52u8];
    assert(l@ =~= commitment_label());
    l
}

fn challenge_bytes_label() -> (out: &'static [u8])
    ensures
        out@ == challenge_label(),
{
    let l: &'static [u8; 6] = &[0x73u8, 0x69u8, 0x67u8, 0x6eu8, 0x3au8, 0x63u8];
    assert(l@ =~= challenge_label());
    l
}

/// The challenge of a signature: drawn from the transcript that is signed,
/// after it has absorbed the protocol's name, the pseudonym's `b` as the
/// public key, and the commitment.
pub open spec fn signing_challenge(
    log: Seq<(Seq<u8>, Seq<u8>)>,
    public: Point,
    commitment: Point,
) -> nat {
    le_value(
        challenge_bytes_of(
            log.push((proto_name_label(), signature_protocol())).push(
                (public_key_label(), public@),
            ).push((commitment_label(), commitment@)),
            challenge_label(),
        ),
    ) % group_order()
}

/// Draws the challenge of a signature.
fn signing_challenge_for(t: Sponge, public: &Point, commitment: &Point) -> (k: Scalar)
    ensures
        k.value() == signing_challenge(absorbed(t), *public, *commitment),
{
    let mut sponge = t;
    append_message(&mut sponge, proto_name_bytes(), signature_protocol_bytes());
    sponge.commit(public_key_bytes(), public);
    sponge.commit(commitment_bytes(), commitment);
    proof {
        assert(sponge.log() =~= absorbed(t).push(
            (proto_name_label(), signature_protocol()),
        ).push((public_key_label(), public@)).push((commitment_label(), commitment@)));
    }
    sponge.challenge(challenge_bytes_label())
}

impl UserSecretKey {
    /// Whether `sig` is the signature of the transcript with the log `log`
    /// under `nym`, made with the scalar `r`: the commitment is `r * a`, and
    /// the response is `r + k * x` for the challenge `k` of the transcript.
    pub open spec fn signs(
        self,
        log: Seq<(Seq<u8>, Seq<u8>)>,
        nym: Nym,
        r: Scalar,
        sig: Signature,
    ) -> bool {
        &&& sig.R.is_at(point_mul(r.value(), nym.a().index()))
        &&& sig.s.value() == response(
            r.value(),
            signing_challenge(log, nym.b(), sig.R),
            self.secret().value(),
        )
    }

    /// Signs a transcript with a pseudonym generated with this key, with
    /// the scalar `r` for the commitment.
    pub fn sign_with(&self, t: Sponge, nym: &Nym, r: Scalar) -> (sig: Signature)
        ensures
            self.signs(absorbed(t), *nym, r, sig),
    {
        let commitment = nym.a().mul(&r);
        let k = signing_challenge_for(t, &nym.b(), &commitment);
        let s = r.add(&k.mul(&self.exponent()));
        Signature { R: commitment, s }
    }

    /// Signs a transcript with a pseudonym generated with this key.
    pub fn sign(&self, t: Sponge, nym: &Nym) -> (sig: Signature)
        ensures
            exists|r: Scalar| self.signs(absorbed(t), *nym, r, sig),
    {
        self.sign_with(t, nym, Scalar::random())
    }
}

impl Nym {
    /// Whether `sig` is a valid signature of the transcript with the log
    /// `log` under this pseudonym: `s * a = R + k * b` for the challenge `k`
    /// of the transcript.
    pub open spec fn is_signed(self, log: Seq<(Seq<u8>, Seq<u8>)>, sig: Signature) -> bool {
        relation_holds(
            self.a().index(),
            self.b().index(),
            sig.R.index(),
            signing_challenge(log, self.b(), sig.R),
            sig.s.value(),
        )
    }

    /// Verifies a transcript signed with this pseudonym.
    pub fn verify(&self, t: Sponge, sig: &Signature) -> (out: Result<(), Error>)
        ensures
            out is Ok == self.is_signed(absorbed(t), *sig),
            out matches Err(e) ==> e is BadSignature,
    {
        let k = signing_challenge_for(t, &self.b(), &sig.R);
        let lhs = self.a().mul(&sig.s);
        let rhs = sig.R.add(&self.b().mul(&k));
        if lhs.equals(&rhs) {
            Ok(())
        } else {
            Err(Error::BadSignature)
        }
    }
}

/// A signature made with the holder's secret verifies. Where the
/// pseudonym is `(a, x * a)`, the commitment is `r * a` and the response is
/// `r + k * x`, the equation of the signature holds, whatever the challenge
/// `k` is.
pub proof fn lemma_signature_verifies(a: nat, x: nat, r: nat, k: nat)
    ensures
        relation_holds(a, point_mul(x, a), point_mul(r, a), k, response(r, k, x)),
{
    lemma_honest_prover_accepted(a, a, x, r, k);
}

} // verus!
