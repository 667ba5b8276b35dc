//! Zero-knowledge proof of equality of discrete logarithms.
//!
//! Given four points `g1`, `h1`, `g2`, `h2`, the prover shows that it knows
//! one scalar `x` with `h1 = x * g1` and `h2 = x * g2`. The prover commits to
//! `a = r * g1` and `b = r * g2` for a fresh `r`, the verifier answers with a
//! challenge `c`, and the prover responds with `y = r + c * x`. The verifier
//! accepts if `y * g1 = a + c * h1` and `y * g2 = b + c * h2`.

use vstd::prelude::*;
use crate::bytes::{append_32, le_value, take_32};
use crate::error::Error;
use crate::modular::{
    congruent, is_inverse, lemma_cancel_factor, lemma_cancel_term, lemma_congruent_small,
    lemma_product_reduced, lemma_remainder_congruent, lemma_remainders_equal, lemma_sum_reduced,
};
use crate::hash::{
    challenge_bytes_of, domain_separator_label, new_transcript, TranscriptProtocol,
};
use crate::point::{is_point_encoding, point_add, point_mul, Point, PointSpec};
use crate::scalar::{group_order, scalar_add, scalar_mul, Scalar};
use crate::transport::{Label, Message, Session, Step};

verus! {

/// Public parameters.
#[derive(Clone, Copy, Debug, PartialEq, Eq)]
pub struct Publics {
    /// First point's base.
    pub g1: Point,
    /// First point.
    pub h1: Point,
    /// Second point's base.
    pub g2: Point,
    /// Second point.
    pub h2: Point,
}

/// Secret parameters.
#[derive(Clone, Copy)]
pub struct Secrets {
    /// Discrete logarithm.
    pub x: Scalar,
}

/// A non-interactive proof: the commitment, the challenge derived from it
/// and from the public parameters, and the response.
#[derive(Clone, Copy, Debug, PartialEq, Eq)]
pub struct Transcript {
    /// Commitment under the first base.
    pub a: Point,
    /// Commitment under the second base.
    pub b: Point,
    /// Challenge.
    pub c: Scalar,
    /// Response.
    pub y: Scalar,
}

/// The verifier's equation for one base: `y * g = commitment + c * h`, over
/// the points' indices.
pub open spec fn relation_holds(g: nat, h: nat, commitment: nat, c: nat, y: nat) -> bool {
    point_mul(y, g) == point_add(commitment, point_mul(c, h))
}

/// The prover's response `r + c * x`.
pub open spec fn response(r: nat, c: nat, x: nat) -> nat {
    scalar_add(r, scalar_mul(c, x))
}

/// The name of the challenge derivation:
/// `nym/0.1/dlog-eq-proof/non-interactive-challenge`.
pub open spec fn protocol_label() -> Seq<u8> {
    seq![
        0x6eu8, 0x79u8, 0x6du8, 0x2fu8, 0x30u8, 0x2eu8, 0x31u8, 0x2fu8, 0x64u8, 0x6cu8, 0x6fu8,
        0x67u8, 0x2du8, 0x65u8, 0x71u8, 0x2du8, 0x70u8, 0x72u8, 0x6fu8, 0x6fu8, 0x66u8, 0x2fu8,
        0x6eu8, 0x6fu8, 0x6eu8, 0x2du8, 0x69u8, 0x6eu8, 0x74u8, 0x65u8, 0x72u8, 0x61u8, 0x63u8,
        0x74u8, 0x69u8, 0x76u8, 0x65u8, 0x2du8, 0x63u8, 0x68u8, 0x61u8, 0x6cu8, 0x6cu8, 0x65u8,
        0x6eu8, 0x67u8, 0x65u8,
    ]
}

/// The label `g1`.
pub open spec fn g1_label() -> Seq<u8> {
    seq![0x67u8, 0x31u8]
}

/// The label `h1`.
pub open spec fn h1_label() -> Seq<u8> {
    seq![0x68u8, 0x31u8]
}

/// The label `g2`.
pub open spec fn g2_label() -> Seq<u8> {
    seq![0x67u8, 0x32u8]
}

/// The label `h2`.
pub open spec fn h2_label() -> Seq<u8> {
    seq![0x68u8, 0x32u8]
}

fn protocol_label_bytes() -> (out: &'static [u8])
    ensures
        out@ == protocol_label(),
{
    let l: &'static [u8; 47] = &[
        0x6eu8, 0x79u8, 0x6du8, 0x2fu8, 0x30u8, 0x2eu8, 0x31u8, 0x2fu8, 0x64u8, 0x6cu8, 0x6fu8,
        0x67u8, 0x2du8, 0x65u8, 0x71u8, 0x2du8, 0x70u8, 0x72u8, 0x6fu8, 0x6fu8, 0x66u8, 0x2fu8,
        0x6eu8, 0x6fu8, 0x6eu8, 0x2du8, 0x69u8, 0x6eu8, 0x74u8, 0x65u8, 0x72u8, 0x61u8, 0x63u8,
        0x74u8, 0x69u8, 0x76u8, 0x65u8, 0x2du8, 0x63u8, 0x68u8, 0x61u8, 0x6cu8, 0x6cu8, 0x65u8,
        0x6eu8, 0x67u8, 0x65u8,
    ];
    assert(l@ =~= protocol_label());
    l
}

fn g1_label_bytes() -> (out: &'static [u8])
    ensures
        out@ == g1_label(),
{
    let l: &'static [u8; 2] = &[0x67u8, 0x31u8];
    assert(l@ =~= g1_label());
    l
}

fn h1_label_bytes() -> (out: &'static [u8])
    ensures
        out@ == h1_label(),
{
    let l: &'static [u8; 2] = &[0x68u8, 0x31u8];
    assert(l@ =~= h1_label());
    l
}

fn g2_label_bytes() -> (out: &'static [u8])
    ensures
        out@ == g2_label(),
{
    let l: &'static [u8; 2] = &[0x67u8, 0x32u8];
    assert(l@ =~= g2_label());
    l
}

fn h2_label_bytes() -> (out: &'static [u8])
    ensures
        out@ == h2_label(),
{
    let l: &'static [u8; 2] = &[0x68u8, 0x32u8];
    assert(l@ =~= h2_label());
    l
}

/// A statement as a contract speaks of it: the four points of the public
/// parameters.
pub struct Statement {
    /// First point's base.
    pub g1: PointSpec,
    /// First point.
    pub h1: PointSpec,
    /// Second point's base.
    pub g2: PointSpec,
    /// Second point.
    pub h2: PointSpec,
}

impl Statement {
    /// Whether a verifier accepts the commitment of the indices `a` and `b`,
    /// the challenge `c` and the response `y`: both equations hold.
    pub open spec fn accepts(self, a: nat, b: nat, c: nat, y: nat) -> bool {
        &&& relation_holds(self.g1.index, self.h1.index, a, c, y)
        &&& relation_holds(self.g2.index, self.h2.index, b, c, y)
    }

    /// What a transcript absorbs before the challenge for the commitment
    /// encoded as `a` and `b` is drawn: the protocol's name, then `g1`, `h1`,
    /// `g2`, `h2`, `a` and `b`, each under its own label.
    pub open spec fn challenge_entries(self, a: Seq<u8>, b: Seq<u8>) -> Seq<(Seq<u8>, Seq<u8>)> {
        seq![
            (domain_separator_label(), protocol_label()),
            (g1_label(), self.g1.encoding),
            (h1_label(), self.h1.encoding),
            (g2_label(), self.g2.encoding),
            (h2_label(), self.h2.encoding),
            (Label::A.wire(), a),
            (Label::B.wire(), b),
        ]
    }

    /// The non-interactive challenge for the commitment encoded as `a` and
    /// `b`: the challenge bytes drawn under the label `c`, reduced to
    /// a scalar.
    pub open spec fn challenge(self, a: Seq<u8>, b: Seq<u8>) -> nat {
        le_value(challenge_bytes_of(self.challenge_entries(a, b), Label::C.wire()))
            % group_order()
    }
}

impl Publics {
    /// The statement of these public parameters.
    pub open spec fn statement(self) -> Statement {
        Statement {
            g1: self.g1.model(),
            h1: self.h1.model(),
            g2: self.g2.model(),
            h2: self.h2.model(),
        }
    }

    /// Whether a verifier accepts the commitment `(a, b)`, the challenge `c`
    /// and the response `y`: both equations hold.
    pub open spec fn accepts(self, a: Point, b: Point, c: Scalar, y: Scalar) -> bool {
        self.statement().accepts(a.index(), b.index(), c.value(), y.value())
    }

    /// What a transcript absorbs before the challenge for the commitment
    /// `(a, b)` is drawn.
    pub open spec fn challenge_entries(self, a: Point, b: Point) -> Seq<(Seq<u8>, Seq<u8>)> {
        self.statement().challenge_entries(a@, b@)
    }

    /// The non-interactive challenge for the commitment `(a, b)`.
    pub open spec fn challenge(self, a: Point, b: Point) -> nat {
        self.statement().challenge(a@, b@)
    }

    /// Checks both of the verifier's equations. Both are evaluated, whatever
    /// the first one gave.
    pub fn check(&self, a: &Point, b: &Point, c: &Scalar, y: &Scalar) -> (ok: bool)
        ensures
            ok == self.accepts(*a, *b, *c, *y),
    {
        let a_ok = relation_check(&self.g1, &self.h1, a, c, y);
        let b_ok = relation_check(&self.g2, &self.h2, b, c, y);
        a_ok && b_ok
    }
}

/// Checks the verifier's equation for one base.
fn relation_check(g: &Point, h: &Point, commitment: &Point, c: &Scalar, y: &Scalar) -> (ok: bool)
    ensures
        ok == relation_holds(g.index(), h.index(), commitment.index(), c.value(), y.value()),
{
    let lhs = g.mul(y);
    let rhs = commitment.add(&h.mul(c));
    lhs.equals(&rhs)
}

/// Generates a non-interactive challenge for a proof of equality of discrete
/// logarithms. The challenge is a function of the public parameters and of
/// the commitment alone.
pub fn non_interactive_challenge_for(publics: Publics, a: Point, b: Point) -> (c: Scalar)
    ensures
        c.value() == publics.challenge(a, b),
{
    let mut h = new_transcript(protocol_label_bytes());
    h.commit(g1_label_bytes(), &publics.g1);
    h.commit(h1_label_bytes(), &publics.h1);
    h.commit(g2_label_bytes(), &publics.g2);
    h.commit(h2_label_bytes(), &publics.h2);
    h.commit(Label::A.as_bytes(), &a);
    h.commit(Label::B.as_bytes(), &b);
    proof {
        assert(h.log() =~= publics.challenge_entries(a, b));
    }
    h.challenge(Label::C.as_bytes())
}

impl Transcript {
    /// Whether this transcript is a valid proof for `publics`: its challenge
    /// is the one derived from `publics` and its commitment, and both of the
    /// verifier's equations hold.
    pub open spec fn proves(self, publics: Publics) -> bool {
        self.proves_statement(publics.statement())
    }

    /// Whether this transcript is a valid proof of `statement`: its
    /// challenge is the one derived from the statement and the commitment,
    /// and both of the verifier's equations hold.
    pub open spec fn proves_statement(self, statement: Statement) -> bool {
        &&& self.c.value() == statement.challenge(self.a@, self.b@)
        &&& statement.accepts(self.a.index(), self.b.index(), self.c.value(), self.y.value())
    }

    /// Verifies this transcript.
    pub fn verify(&self, publics: Publics) -> (out: Result<(), Error>)
        ensures
            out is Ok == self.proves(publics),
            out matches Err(e) ==> e is BadProof,
    {
        let expected = non_interactive_challenge_for(publics, self.a, self.b);
        let c_ok = self.c.equals(&expected);
        let eq_ok = publics.check(&self.a, &self.b, &self.c, &self.y);
        if c_ok && eq_ok {
            Ok(())
        } else {
            Err(Error::BadProof)
        }
    }
}

/// Whether `bytes` is the encoding of a non-interactive proof: four times 32
/// bytes, which encode two points and two scalars.
pub open spec fn is_transcript_encoding(bytes: Seq<u8>) -> bool {
    &&& bytes.len() == 128
    &&& is_point_encoding(bytes.subrange(0, 32))
    &&& is_point_encoding(bytes.subrange(32, 64))
    &&& le_value(bytes.subrange(64, 96)) < group_order()
    &&& le_value(bytes.subrange(96, 128)) < group_order()
}

impl Transcript {
    /// The encoding of this proof: the encodings of `a`, `b`, `c` and `y`,
    /// in this order.
    pub open spec fn encoding(self) -> Seq<u8> {
        self.a@ + self.b@ + self.c@ + self.y@
    }

    /// Encodes this proof.
    pub fn to_bytes(&self) -> (out: Vec<u8>)
        ensures
            out@ == self.encoding(),
            is_transcript_encoding(out@),
    {
        let mut out: Vec<u8> = Vec::new();
        append_32(&mut out, &self.a.to_bytes());
        append_32(&mut out, &self.b.to_bytes());
        append_32(&mut out, &self.c.to_bytes());
        append_32(&mut out, &self.y.to_bytes());
        proof {
            use_type_invariant(&self.a);
            use_type_invariant(&self.b);
            use_type_invariant(&self.c);
            use_type_invariant(&self.y);
            self.a.lemma_encoding_length();
            self.b.lemma_encoding_length();
            self.c.lemma_encoding_length();
            self.y.lemma_encoding_length();
            assert(out@ =~= self.encoding());
            assert(out@.subrange(0, 32) =~= self.a@);
            assert(out@.subrange(32, 64) =~= self.b@);
            assert(out@.subrange(64, 96) =~= self.c@);
            assert(out@.subrange(96, 128) =~= self.y@);
        }
        out
    }

    /// Decodes a proof. Bytes that are not the encoding of a proof are
    /// refused.
    pub fn from_bytes(bytes: &[u8]) -> (out: Option<Transcript>)
        ensures
            out is Some == is_transcript_encoding(bytes@),
            out matches Some(t) ==> t.encoding() == bytes@,
    {
        if bytes.len() != 128 {
            return None;
        }
        let a = Point::from_bytes(take_32(bytes, 0));
        let b = Point::from_bytes(take_32(bytes, 32));
        let c = Scalar::from_bytes(take_32(bytes, 64));
        let y = Scalar::from_bytes(take_32(bytes, 96));
        match (a, b, c, y) {
            (Some(a), Some(b), Some(c), Some(y)) => {
                let t = Transcript { a, b, c, y };
                proof {
                    assert(t.encoding() =~= bytes@);
                }
                Some(t)
            },
            _ => None,
        }
    }
}

/// The prover's side of the protocol, after it has sent its commitment: it
/// awaits the challenge.
pub struct Prover {
    /// The scalar that the commitment was made with.
    pub r: Scalar,
    /// The discrete logarithm.
    pub x: Scalar,
}

impl Prover {
    /// Whether `out` is this prover's response to `msg`. A challenge is
    /// answered with `r + c * x`; any other message is refused.
    pub open spec fn responds(self, msg: Message, out: Result<Message, Error>) -> bool {
        match out {
            Ok(y) => {
                &&& msg.is_scalar(Label::C)
                &&& y.holds_scalar(
                    Label::Y,
                    response(self.r.value(), le_value(msg.value@), self.x.value()),
                )
            },
            Err(e) => !msg.is_scalar(Label::C) && e is BadProof,
        }
    }

    /// Answers the challenge.
    pub fn respond(&self, msg: &Message) -> (out: Result<Message, Error>)
        ensures
            self.responds(*msg, out),
    {
        match msg.scalar(Label::C) {
            Ok(c) => {
                let y = self.r.add(&c.mul(&self.x));
                Ok(Message::of_scalar(Label::Y, &y))
            },
            Err(e) => Err(e),
        }
    }
}

impl Session for Prover {
    type Output = ();

    /// The label of the message that is awaited: the challenge.
    open spec fn awaits(self) -> Label {
        Label::C
    }

    /// Whether `out` is this prover's answer to `msg`. A challenge is
    /// answered with the response, and the session ends; any other message
    /// is refused.
    open spec fn answers(self, msg: Message, out: Step<Prover, ()>) -> bool {
        match out {
            Step::Accept(_, send) => send@.len() == 1 && self.responds(msg, Ok(send@[0])),
            Step::Reject(e) => self.responds(msg, Err(e)),
            Step::Continue(_, _) => false,
        }
    }

    /// The label of the message that this prover awaits.
    fn awaiting(&self) -> (label: Label) {
        Label::C
    }

    /// Takes the message that arrived.
    fn receive(self, msg: Message) -> (out: Step<Prover, ()>) {
        match self.respond(&msg) {
            Ok(y) => {
                let mut send: Vec<Message> = Vec::new();
                send.push(y);
                Step::Accept((), send)
            },
            Err(e) => Step::Reject(e),
        }
    }
}

/// Whether `prover` and `send` are what a prover starts with for `publics`
/// and `secrets` when it commits with `r`: it sends `a = r * g1` and
/// `b = r * g2`.
pub open spec fn commits(
    publics: Publics,
    secrets: Secrets,
    r: Scalar,
    prover: Prover,
    send: Seq<Message>,
) -> bool {
    &&& prover.r == r
    &&& prover.x == secrets.x
    &&& send.len() == 2
    &&& send[0].holds_point(Label::A, point_mul(r.value(), publics.g1.index()))
    &&& send[1].holds_point(Label::B, point_mul(r.value(), publics.g2.index()))
}

/// Starts the protocol as the prover, committing with the scalar `r`.
pub fn prove_with(publics: Publics, secrets: Secrets, r: Scalar) -> (out: (Prover, Vec<Message>))
    ensures
        commits(publics, secrets, r, out.0, out.1@),
{
    let a = publics.g1.mul(&r);
    let b = publics.g2.mul(&r);
    let mut send: Vec<Message> = Vec::new();
    send.push(Message::of_point(Label::A, &a));
    send.push(Message::of_point(Label::B, &b));
    (Prover { r, x: secrets.x }, send)
}

/// Starts the protocol as the prover, committing with a fresh random scalar.
pub fn prove(publics: Publics, secrets: Secrets) -> (out: (Prover, Vec<Message>))
    ensures
        commits(publics, secrets, out.0.r, out.0, out.1@),
{
    prove_with(publics, secrets, Scalar::random())
}

/// The verifier's side of the protocol.
pub enum Verifier {
    /// Awaits the first half of the commitment.
    AwaitA {
        /// Public parameters.
        publics: Publics,
        /// The challenge that will be sent.
        c: Scalar,
    },
    /// Awaits the second half of the commitment.
    AwaitB {
        /// Public parameters.
        publics: Publics,
        /// The challenge that will be sent.
        c: Scalar,
        /// First half of the commitment.
        a: Point,
    },
    /// Has sent the challenge and awaits the response.
    AwaitY {
        /// Public parameters.
        publics: Publics,
        /// The challenge.
        c: Scalar,
        /// First half of the commitment.
        a: Point,
        /// Second half of the commitment.
        b: Point,
    },
}

impl Session for Verifier {
    type Output = ();

    /// The label of the message that this verifier awaits.
    open spec fn awaits(self) -> Label {
        match self {
            Verifier::AwaitA { .. } => Label::A,
            Verifier::AwaitB { .. } => Label::B,
            Verifier::AwaitY { .. } => Label::Y,
        }
    }

    /// Whether `out` is this verifier's answer to `msg`. The two halves of
    /// the commitment are taken one after the other, and the second is
    /// answered with the challenge. The response ends the session: accepted
    /// if both equations hold, refused if not. A message that is not what
    /// is awaited is refused.
    open spec fn answers(self, msg: Message, out: Step<Verifier, ()>) -> bool {
        match self {
            Verifier::AwaitA { publics, c } => match out {
                Step::Continue(next, send) => {
                    &&& msg.is_point(Label::A)
                    &&& send@.len() == 0
                    &&& next matches Verifier::AwaitB { publics: p, c: c1, a }
                    &&& p == publics
                    &&& c1 == c
                    &&& a@ == msg.value@
                },
                Step::Reject(e) => !msg.is_point(Label::A) && e is BadProof,
                Step::Accept(_, _) => false,
            },
            Verifier::AwaitB { publics, c, a } => match out {
                Step::Continue(next, send) => {
                    &&& msg.is_point(Label::B)
                    &&& send@.len() == 1
                    &&& send@[0].holds_scalar(Label::C, c.value())
                    &&& next matches Verifier::AwaitY { publics: p, c: c1, a: a1, b }
                    &&& p == publics
                    &&& c1 == c
                    &&& a1 == a
                    &&& b@ == msg.value@
                },
                Step::Reject(e) => !msg.is_point(Label::B) && e is BadProof,
                Step::Accept(_, _) => false,
            },
            Verifier::AwaitY { publics, c, a, b } => {
                let accepted = msg.is_scalar(Label::Y) && verdict(publics, a, b, c, msg.value@);
                match out {
                    Step::Accept(_, send) => accepted && send@.len() == 0,
                    Step::Reject(e) => !accepted && e is BadProof,
                    Step::Continue(_, _) => false,
                }
            },
        }
    }

    /// The label of the message that this verifier awaits.
    fn awaiting(&self) -> (label: Label)
    {
        match self {
            Verifier::AwaitA { .. } => Label::A,
            Verifier::AwaitB { .. } => Label::B,
            Verifier::AwaitY { .. } => Label::Y,
        }
    }

    /// Takes the message that arrived.
    fn receive(self, msg: Message) -> (out: Step<Verifier, ()>)
    {
        match self {
            Verifier::AwaitA { publics, c } => match msg.point(Label::A) {
                Ok(a) => Step::Continue(Verifier::AwaitB { publics, c, a }, Vec::new()),
                Err(e) => Step::Reject(e),
            },
            Verifier::AwaitB { publics, c, a } => match msg.point(Label::B) {
                Ok(b) => {
                    let mut send: Vec<Message> = Vec::new();
                    send.push(Message::of_scalar(Label::C, &c));
                    Step::Continue(Verifier::AwaitY { publics, c, a, b }, send)
                },
                Err(e) => Step::Reject(e),
            },
            Verifier::AwaitY { publics, c, a, b } => match msg.scalar(Label::Y) {
                Ok(y) => {
                    if publics.check(&a, &b, &c, &y) {
                        Step::Accept((), Vec::new())
                    } else {
                        Step::Reject(Error::BadProof)
                    }
                },
                Err(e) => Step::Reject(e),
            },
        }
    }
}

/// Whether both of the verifier's equations hold for the response encoded
/// as `y`.
pub open spec fn verdict(publics: Publics, a: Point, b: Point, c: Scalar, y: Seq<u8>) -> bool {
    &&& relation_holds(publics.g1.index(), publics.h1.index(), a.index(), c.value(), le_value(y))
    &&& relation_holds(publics.g2.index(), publics.h2.index(), b.index(), c.value(), le_value(y))
}

/// Starts the protocol as the verifier, with the challenge `c`.
pub fn verify_with(publics: Publics, c: Scalar) -> (out: Verifier)
    ensures
        out == (Verifier::AwaitA { publics, c }),
{
    Verifier::AwaitA { publics, c }
}

/// Starts the protocol as the verifier, with a fresh random challenge.
pub fn verify(publics: Publics) -> (out: Verifier)
    ensures
        out matches Verifier::AwaitA { publics: p, c } && p == publics,
{
    verify_with(publics, Scalar::random())
}

/// Two proofs in a row, as the prover: the second starts when the first has
/// been answered.
pub enum ProverPair {
    /// The first proof awaits its challenge.
    First {
        /// The first proof.
        prover: Prover,
        /// Public parameters of the second proof.
        publics: Publics,
        /// Secret parameters of the second proof.
        secrets: Secrets,
        /// The scalar that the second proof will commit with.
        r: Scalar,
    },
    /// The second proof awaits its challenge.
    Second {
        /// The second proof.
        prover: Prover,
    },
}

impl Session for ProverPair {
    type Output = ();

    /// The label of the message that is awaited: the challenge.
    open spec fn awaits(self) -> Label {
        Label::C
    }

    /// Whether `out` is the answer to `msg`. The first challenge is answered
    /// with the first proof's response and the second proof's commitment;
    /// the second challenge with the second proof's response, which ends the
    /// session. Any other message is refused.
    open spec fn answers(self, msg: Message, out: Step<ProverPair, ()>) -> bool {
        match self {
            ProverPair::First { prover, publics, secrets, r } => match out {
                Step::Continue(next, send) => {
                    &&& msg.is_scalar(Label::C)
                    &&& send@.len() == 3
                    &&& send@[0].holds_scalar(
                        Label::Y,
                        response(prover.r.value(), le_value(msg.value@), prover.x.value()),
                    )
                    &&& next matches ProverPair::Second { prover: second }
                    &&& commits(publics, secrets, r, second, send@.subrange(1, 3))
                },
                Step::Reject(e) => !msg.is_scalar(Label::C) && e is BadProof,
                Step::Accept(_, _) => false,
            },
            ProverPair::Second { prover } => match out {
                Step::Accept(_, send) => prover.answers(msg, Step::Accept((), send)),
                Step::Reject(e) => prover.answers(msg, Step::Reject(e)),
                Step::Continue(_, _) => false,
            },
        }
    }

    /// The label of the message that is awaited.
    fn awaiting(&self) -> (label: Label)
    {
        Label::C
    }

    /// Takes the message that arrived.
    fn receive(self, msg: Message) -> (out: Step<ProverPair, ()>) {
        match self {
            ProverPair::First { prover, publics, secrets, r } => match prover.respond(&msg) {
                Ok(y) => {
                    let (second, start) = prove_with(publics, secrets, r);
                    let mut send: Vec<Message> = Vec::new();
                    send.push(y);
                    send.push(start[0]);
                    send.push(start[1]);
                    proof {
                        assert(send@.subrange(1, 3) =~= start@);
                    }
                    Step::Continue(ProverPair::Second { prover: second }, send)
                },
                Err(e) => Step::Reject(e),
            },
            ProverPair::Second { prover } => match prover.respond(&msg) {
                Ok(y) => {
                    let mut send: Vec<Message> = Vec::new();
                    send.push(y);
                    Step::Accept((), send)
                },
                Err(e) => Step::Reject(e),
            },
        }
    }
}

/// Whether `pair` and `send` are what a prover of two proofs starts with:
/// the first proof's commitment is sent, and the second proof waits.
pub open spec fn commits_first(
    first: (Publics, Secrets, Scalar),
    second: (Publics, Secrets, Scalar),
    pair: ProverPair,
    send: Seq<Message>,
) -> bool {
    &&& pair matches ProverPair::First { prover, publics, secrets, r }
    &&& commits(first.0, first.1, first.2, prover, send)
    &&& publics == second.0
    &&& secrets == second.1
    &&& r == second.2
}

/// Starts two proofs in a row as the prover. Each proof is given by its
/// public parameters, its secret parameters and the scalar to commit with.
pub fn prove_pair(first: (Publics, Secrets, Scalar), second: (Publics, Secrets, Scalar)) -> (out: (
    ProverPair,
    Vec<Message>,
))
    ensures
        commits_first(first, second, out.0, out.1@),
{
    let (prover, send) = prove_with(first.0, first.1, first.2);
    (ProverPair::First { prover, publics: second.0, secrets: second.1, r: second.2 }, send)
}

/// Two proofs in a row, as the verifier: the second starts when the first
/// has been accepted.
pub enum VerifierPair {
    /// The first proof is running.
    First {
        /// The first proof.
        verifier: Verifier,
        /// Public parameters of the second proof.
        publics: Publics,
        /// The challenge of the second proof.
        c: Scalar,
    },
    /// The second proof is running.
    Second {
        /// The second proof.
        verifier: Verifier,
    },
}

impl Session for VerifierPair {
    type Output = ();

    /// The label of the message that is awaited.
    open spec fn awaits(self) -> Label {
        match self {
            VerifierPair::First { verifier, .. } => verifier.awaits(),
            VerifierPair::Second { verifier } => verifier.awaits(),
        }
    }

    /// Whether `out` is the answer to `msg`. Each message goes to the proof
    /// that is running. When the first proof is accepted the second one
    /// starts, and when the second is accepted the session ends. When either
    /// refuses, the session is refused.
    open spec fn answers(self, msg: Message, out: Step<VerifierPair, ()>) -> bool {
        match self {
            VerifierPair::First { verifier, publics, c } => match out {
                Step::Continue(VerifierPair::First { verifier: next, publics: p, c: c1 }, send) => {
                    &&& p == publics
                    &&& c1 == c
                    &&& verifier.answers(msg, Step::Continue(next, send))
                },
                Step::Continue(VerifierPair::Second { verifier: next }, send) => {
                    &&& next == (Verifier::AwaitA { publics, c })
                    &&& verifier.answers(msg, Step::Accept((), send))
                },
                Step::Reject(e) => verifier.answers(msg, Step::Reject(e)),
                Step::Accept(_, _) => false,
            },
            VerifierPair::Second { verifier } => match out {
                Step::Continue(VerifierPair::Second { verifier: next }, send) => verifier.answers(
                    msg,
                    Step::Continue(next, send),
                ),
                Step::Continue(VerifierPair::First { .. }, _) => false,
                Step::Accept(_, send) => verifier.answers(msg, Step::Accept((), send)),
                Step::Reject(e) => verifier.answers(msg, Step::Reject(e)),
            },
        }
    }

    /// The label of the message that is awaited.
    fn awaiting(&self) -> (label: Label)
    {
        match self {
            VerifierPair::First { verifier, .. } => verifier.awaiting(),
            VerifierPair::Second { verifier } => verifier.awaiting(),
        }
    }

    /// Takes the message that arrived.
    fn receive(self, msg: Message) -> (out: Step<VerifierPair, ()>)
    {
        match self {
            VerifierPair::First { verifier, publics, c } => match verifier.receive(msg) {
                Step::Continue(next, send) => Step::Continue(
                    VerifierPair::First { verifier: next, publics, c },
                    send,
                ),
                Step::Accept(_, send) => Step::Continue(
                    VerifierPair::Second { verifier: verify_with(publics, c) },
                    send,
                ),
                Step::Reject(e) => Step::Reject(e),
            },
            VerifierPair::Second { verifier } => match verifier.receive(msg) {
                Step::Continue(next, send) => Step::Continue(
                    VerifierPair::Second { verifier: next },
                    send,
                ),
                Step::Accept(_, send) => Step::Accept((), send),
                Step::Reject(e) => Step::Reject(e),
            },
        }
    }
}

/// Starts two proofs in a row as the verifier. Each proof is given by its
/// public parameters and its challenge.
pub fn verify_pair(first: (Publics, Scalar), second: (Publics, Scalar)) -> (out: VerifierPair)
    ensures
        out == (VerifierPair::First {
            verifier: Verifier::AwaitA { publics: first.0, c: first.1 },
            publics: second.0,
            c: second.1,
        }),
{
    VerifierPair::First { verifier: verify_with(first.0, first.1), publics: second.0, c: second.1 }
}

/// Completeness of one equation: where `h = x * g`, the commitment is
/// `r * g` and the response is `r + c * x`, the verifier's equation holds,
/// whatever the base, the secret, the prover's scalar and the challenge are.
pub proof fn lemma_honest_response_satisfies_relation(g: nat, x: nat, r: nat, c: nat)
    ensures
        relation_holds(g, point_mul(x, g), point_mul(r, g), c, response(r, c, x)),
{
    let gi = g as int;
    let xi = x as int;
    let ri = r as int;
    let ci = c as int;
    let h = point_mul(x, g) as int;
    let a = point_mul(r, g) as int;
    let y = response(r, c, x) as int;
    // y is congruent to r + c * x
    lemma_product_reduced(ci, ci, xi, xi);
    lemma_sum_reduced(ri, ri, scalar_mul(c, x) as int, ci * xi);
    // the left side is congruent to (r + c * x) * g
    lemma_product_reduced(y, ri + ci * xi, gi, gi);
    // the right side is congruent to r * g + c * (x * g)
    lemma_product_reduced(xi, xi, gi, gi);
    lemma_product_reduced(ri, ri, gi, gi);
    lemma_product_reduced(ci, ci, h, xi * gi);
    lemma_sum_reduced(a, ri * gi, point_mul(c, point_mul(x, g)) as int, ci * (xi * gi));
    assert((ri + ci * xi) * gi == ri * gi + ci * (xi * gi)) by (nonlinear_arith);
    lemma_remainders_equal(y * gi, a + point_mul(c, point_mul(x, g)) as int, (ri + ci * xi) * gi);
}

/// Completeness: an honest prover is always accepted. Where `h1 = x * g1`
/// and `h2 = x * g2`, the commitments are `r * g1` and `r * g2` and the
/// response is `r + c * x`, both of the verifier's equations hold.
pub proof fn lemma_honest_prover_accepted(g1: nat, g2: nat, x: nat, r: nat, c: nat)
    ensures
        relation_holds(g1, point_mul(x, g1), point_mul(r, g1), c, response(r, c, x)),
        relation_holds(g2, point_mul(x, g2), point_mul(r, g2), c, response(r, c, x)),
{
    lemma_honest_response_satisfies_relation(g1, x, r, c);
    lemma_honest_response_satisfies_relation(g2, x, r, c);
}

/// The commitment is bound: with the bases, the challenge and the response
/// fixed, the verifier's equation holds of one commitment only. A proof whose
/// commitment was changed is refused.
pub proof fn lemma_commitment_is_bound(g: nat, h: nat, a: nat, a2: nat, c: nat, y: nat)
    requires
        a < group_order(),
        a2 < group_order(),
        relation_holds(g, h, a, c, y),
        relation_holds(g, h, a2, c, y),
    ensures
        a == a2,
{
    let t = point_mul(c, h) as int;
    lemma_remainder_congruent(a as int + t);
    lemma_remainder_congruent(a2 as int + t);
    lemma_cancel_term(a as int, a2 as int, t);
    lemma_congruent_small(a as int, a2 as int);
}

/// The response is bound: with the bases, the commitment and the challenge
/// fixed, the verifier's equation holds of one response only, where the
/// base has an inverse modulo the group's order.
pub proof fn lemma_response_is_bound(g: nat, h: nat, a: nat, c: nat, y: nat, y2: nat, inverse: nat)
    requires
        y < group_order(),
        y2 < group_order(),
        relation_holds(g, h, a, c, y),
        relation_holds(g, h, a, c, y2),
        is_inverse(inverse, g),
    ensures
        y == y2,
{
    lemma_remainder_congruent(y as int * g as int);
    lemma_remainder_congruent(y2 as int * g as int);
    lemma_cancel_factor(y as int, y2 as int, g, inverse);
    lemma_congruent_small(y as int, y2 as int);
}

/// The challenge is bound: with the bases, the commitment and the response
/// fixed, the verifier's equation holds of one challenge only, where the
/// point has an inverse modulo the group's order.
pub proof fn lemma_challenge_is_bound(g: nat, h: nat, a: nat, c: nat, c2: nat, y: nat, inverse: nat)
    requires
        c < group_order(),
        c2 < group_order(),
        relation_holds(g, h, a, c, y),
        relation_holds(g, h, a, c2, y),
        is_inverse(inverse, h),
    ensures
        c == c2,
{
    let (ai, hi) = (a as int, h as int);
    lemma_product_reduced(c as int, c as int, hi, hi);
    lemma_sum_reduced(ai, ai, point_mul(c, h) as int, c as int * hi);
    lemma_product_reduced(c2 as int, c2 as int, hi, hi);
    lemma_sum_reduced(ai, ai, point_mul(c2, h) as int, c2 as int * hi);
    assert(congruent(c as int * hi + ai, c2 as int * hi + ai));
    lemma_cancel_term(c as int * hi, c2 as int * hi, ai);
    lemma_cancel_factor(c as int, c2 as int, h, inverse);
    lemma_congruent_small(c as int, c2 as int);
}

/// The secret is bound: a prover that responds with another secret than the
/// one of the statement is refused. Where `h = x * g`, the commitment is
/// `r * g` and the response `r + c * x2` satisfies the verifier's equation,
/// `x2` is `x`, where the base and the challenge have inverses modulo the
/// group's order.
pub proof fn lemma_secret_is_bound(
    g: nat,
    x: nat,
    x2: nat,
    r: nat,
    c: nat,
    inverse_g: nat,
    inverse_c: nat,
)
    requires
        x < group_order(),
        x2 < group_order(),
        relation_holds(g, point_mul(x, g), point_mul(r, g), c, response(r, c, x2)),
        is_inverse(inverse_g, g),
        is_inverse(inverse_c, c),
    ensures
        x2 == x,
{
    let (gi, xi, x2i, ri, ci) = (g as int, x as int, x2 as int, r as int, c as int);
    lemma_honest_response_satisfies_relation(g, x, r, c);
    // both responses satisfy the equation, so they are the same
    lemma_sum_bound(r, scalar_mul(c, x));
    lemma_sum_bound(r, scalar_mul(c, x2));
    lemma_response_is_bound(
        g,
        point_mul(x, g),
        point_mul(r, g),
        c,
        response(r, c, x2),
        response(r, c, x),
        inverse_g,
    );
    // r + c * x2 is congruent to r + c * x
    lemma_product_reduced(ci, ci, x2i, x2i);
    lemma_sum_reduced(ri, ri, scalar_mul(c, x2) as int, ci * x2i);
    lemma_product_reduced(ci, ci, xi, xi);
    lemma_sum_reduced(ri, ri, scalar_mul(c, x) as int, ci * xi);
    assert(congruent(ci * x2i + ri, ci * xi + ri));
    lemma_cancel_term(ci * x2i, ci * xi, ri);
    assert(ci * x2i == x2i * ci && ci * xi == xi * ci) by (nonlinear_arith);
    lemma_cancel_factor(x2i, xi, c, inverse_c);
    lemma_congruent_small(x2i, xi);
}

/// A sum of scalars is below the group's order.
proof fn lemma_sum_bound(a: nat, b: nat)
    ensures
        scalar_add(a, b) < group_order(),
{
    crate::scalar::lemma_group_order_positive();
    vstd::arithmetic::div_mod::lemma_mod_bound((a + b) as int, group_order() as int);
}


/// Completeness of a run: a verifier accepts an honest prover. Where the
/// prover knows the secret of the statement and has committed with its
/// scalar, the verifier has sent its challenge, and the prover's answer to
/// the challenge is handed to the verifier, the verifier accepts.
pub proof fn lemma_verifier_accepts_honest_prover(
    verifier: Verifier,
    prover: Prover,
    challenge: Message,
    prover_out: Step<Prover, ()>,
    verifier_out: Step<Verifier, ()>,
)
    requires
        verifier matches Verifier::AwaitY { publics, c, a, b } && {
            &&& publics.h1.index() == point_mul(prover.x.value(), publics.g1.index())
            &&& publics.h2.index() == point_mul(prover.x.value(), publics.g2.index())
            &&& a.index() == point_mul(prover.r.value(), publics.g1.index())
            &&& b.index() == point_mul(prover.r.value(), publics.g2.index())
            &&& challenge.holds_scalar(Label::C, c.value())
        },
        prover.answers(challenge, prover_out),
        prover_out matches Step::Accept(_, send) && verifier.answers(send@[0], verifier_out),
    ensures
        verifier_out is Accept,
{
    match verifier {
        Verifier::AwaitY { publics, c, a, b } => {
            lemma_honest_prover_accepted(
                publics.g1.index(),
                publics.g2.index(),
                prover.x.value(),
                prover.r.value(),
                c.value(),
            );
        },
        _ => {},
    }
}

} // verus!
