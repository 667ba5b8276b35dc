//! Credentials: their issuance on a pseudonym, and their showing to another
//! organization.

use vstd::prelude::*;
use crate::bytes::{append_32, take_32};
use crate::error::Error;
use crate::key::OrgPublicKey;
use crate::nym::{Nym, Org, User};
use crate::point::{
    is_point_encoding, lemma_point_mul_commutes, lemma_point_mul_distributes, point_add, point_at,
    point_mul, Point, PointSpec,
};
use crate::proofs::blind_dlog_eq::{
    blinded_a, blinded_b, lemma_blinded_proof_complete, verify_with as verify_blind_with,
    Verifier as BlindVerifier, VerifierSecrets,
};
use crate::proofs::dlog_eq::{
    commits, is_transcript_encoding, lemma_honest_prover_accepted, prove_pair, prove_with, relation_holds,
    response, verify_with, Prover, ProverPair, Publics, Secrets, Statement, Transcript, Verifier,
};
use crate::scalar::{group_order, scalar_add, Scalar};
use crate::transport::{Label, Message, Session, Step};

verus! {

/// A credential: a pseudonym and the issuer's two points on it, all
/// multiplied by a scalar that only the holder knows, with a non-interactive
/// proof for each of the issuer's points.
#[derive(Clone, Copy, Debug, PartialEq, Eq)]
#[allow(non_snake_case)]
pub struct Cred {
    /// The pseudonym's base, blinded.
    pub a: Point,
    /// The pseudonym's second point, blinded.
    pub b: Point,
    /// `b` multiplied by the issuer's second secret.
    pub A: Point,
    /// `a + A` multiplied by the issuer's first secret.
    pub B: Point,
    /// Proof that `A` is `b` multiplied by the issuer's second secret.
    pub T1: Transcript,
    /// Proof that `B` is `a + A` multiplied by the issuer's first secret.
    pub T2: Transcript,
}

/// Whether `bytes` is the encoding of a credential: four times 32 bytes,
/// which encode four points, and two encodings of non-interactive proofs.
pub open spec fn is_cred_encoding(bytes: Seq<u8>) -> bool {
    &&& bytes.len() == 384
    &&& is_point_encoding(bytes.subrange(0, 32))
    &&& is_point_encoding(bytes.subrange(32, 64))
    &&& is_point_encoding(bytes.subrange(64, 96))
    &&& is_point_encoding(bytes.subrange(96, 128))
    &&& is_transcript_encoding(bytes.subrange(128, 256))
    &&& is_transcript_encoding(bytes.subrange(256, 384))
}

impl Cred {
    /// The encoding of this credential: the encodings of `a`, `b`, `A`, `B`,
    /// `T1` and `T2`, in this order.
    pub open spec fn encoding(self) -> Seq<u8> {
        self.a@ + self.b@ + self.A@ + self.B@ + self.T1.encoding() + self.T2.encoding()
    }

    /// Encodes this credential.
    pub fn to_bytes(&self) -> (out: Vec<u8>)
        ensures
            out@ == self.encoding(),
            is_cred_encoding(out@),
    {
        let mut out: Vec<u8> = Vec::new();
        append_32(&mut out, &self.a.to_bytes());
        append_32(&mut out, &self.b.to_bytes());
        append_32(&mut out, &self.A.to_bytes());
        append_32(&mut out, &self.B.to_bytes());
        let mut first = self.T1.to_bytes();
        let mut second = self.T2.to_bytes();
        out.append(&mut first);
        out.append(&mut second);
        proof {
            use_type_invariant(&self.a);
            use_type_invariant(&self.b);
            use_type_invariant(&self.A);
            use_type_invariant(&self.B);
            self.a.lemma_encoding_length();
            self.b.lemma_encoding_length();
            self.A.lemma_encoding_length();
            self.B.lemma_encoding_length();
            assert(out@ =~= self.encoding());
            assert(out@.subrange(0, 32) =~= self.a@);
            assert(out@.subrange(32, 64) =~= self.b@);
            assert(out@.subrange(64, 96) =~= self.A@);
            assert(out@.subrange(96, 128) =~= self.B@);
            assert(out@.subrange(128, 256) =~= self.T1.encoding());
            assert(out@.subrange(256, 384) =~= self.T2.encoding());
        }
        out
    }

    /// Decodes a credential. Bytes that are not the encoding of
    /// a credential are refused.
    #[allow(non_snake_case)]
    pub fn from_bytes(bytes: &[u8]) -> (out: Option<Cred>)
        ensures
            out is Some == is_cred_encoding(bytes@),
            out matches Some(cred) ==> cred.encoding() == bytes@,
    {
        if bytes.len() != 384 {
            return None;
        }
        let a = Point::from_bytes(take_32(bytes, 0));
        let b = Point::from_bytes(take_32(bytes, 32));
        let A = Point::from_bytes(take_32(bytes, 64));
        let B = Point::from_bytes(take_32(bytes, 96));
        let T1 = Transcript::from_bytes(vstd::slice::slice_subrange(bytes, 128, 256));
        let T2 = Transcript::from_bytes(vstd::slice::slice_subrange(bytes, 256, 384));
        match (a, b, A, B, T1, T2) {
            (Some(a), Some(b), Some(A), Some(B), Some(T1), Some(T2)) => {
                let cred = Cred { a, b, A, B, T1, T2 };
                proof {
                    assert(cred.encoding() =~= bytes@);
                }
                Some(cred)
            },
            _ => None,
        }
    }
}

/// The statement of the first proof of an issuance: the issuer's second
/// secret takes the base point to the second half of its public key, and the
/// pseudonym's `b` to the credential's `A`.
pub open spec fn issuance_statement_first(
    source_key: OrgPublicKey,
    nym: Nym,
    cred_a: PointSpec,
) -> Statement {
    Statement { g1: point_at(1), h1: source_key.at().1.model(), g2: nym.b().model(), h2: cred_a }
}

/// The statement of the second proof of an issuance: the issuer's first
/// secret takes the base point to the first half of its public key, and the
/// sum of the pseudonym's `a` and the credential's `A` to the credential's
/// `B`.
pub open spec fn issuance_statement_second(
    source_key: OrgPublicKey,
    nym: Nym,
    cred_a: PointSpec,
    cred_b: PointSpec,
) -> Statement {
    Statement {
        g1: point_at(1),
        h1: source_key.at().0.model(),
        g2: point_at(point_add(nym.a().index(), cred_a.index)),
        h2: cred_b,
    }
}

/// The index of the credential's `A`: the pseudonym's `b` multiplied by the
/// issuer's second secret.
pub open spec fn issued_a(x2: nat, nym_b: nat) -> nat {
    point_mul(x2, nym_b)
}

/// The index of the credential's `B`: the sum of the pseudonym's `a` and the
/// credential's `A`, multiplied by the issuer's first secret.
pub open spec fn issued_b(x1: nat, x2: nat, nym_a: nat, nym_b: nat) -> nat {
    point_mul(x1, point_add(nym_a, issued_a(x2, nym_b)))
}

/// Builds the public parameters of the two proofs of an issuance.
fn issuance_publics(source_key: &OrgPublicKey, nym: &Nym, cred_a: &Point, cred_b: &Point) -> (out: (
    Publics,
    Publics,
))
    ensures
        out.0.statement() == issuance_statement_first(*source_key, *nym, cred_a.model()),
        out.1.statement() == issuance_statement_second(
            *source_key,
            *nym,
            cred_a.model(),
            cred_b.model(),
        ),
{
    let base = Point::basepoint();
    let sum = nym.a().add(cred_a);
    let keys = source_key.points();
    proof {
        use_type_invariant(&base);
        use_type_invariant(&sum);
    }
    (
        Publics { g1: base, h1: keys.1, g2: nym.b(), h2: *cred_a },
        Publics { g1: base, h1: keys.0, g2: sum, h2: *cred_b },
    )
}

impl Org {
    /// Whether `pair` and `send` are what this organization starts the
    /// issuance of a credential on `nym` with: the credential's `A` and `B`
    /// are sent, and then the commitment of the first of the two proofs that
    /// they are well formed.
    pub open spec fn issues(
        self,
        nym: Nym,
        r1: Scalar,
        r2: Scalar,
        pair: ProverPair,
        send: Seq<Message>,
    ) -> bool {
        let x1 = self.secrets().0;
        let x2 = self.secrets().1;
        let cred_a = point_at(issued_a(x2.value(), nym.b().index()));
        let cred_b = point_at(issued_b(x1.value(), x2.value(), nym.a().index(), nym.b().index()));
        &&& send.len() == 4
        &&& send[0].holds_point(Label::CredA, cred_a.index)
        &&& send[1].holds_point(Label::CredB, cred_b.index)
        &&& send[2].holds_point(Label::A, point_mul(r1.value(), 1))
        &&& send[3].holds_point(Label::B, point_mul(r1.value(), nym.b().index()))
        &&& pair matches ProverPair::First { prover, publics, secrets, r }
        &&& prover.r == r1
        &&& prover.x == x2
        &&& publics.statement() == issuance_statement_second(self.public(), nym, cred_a, cred_b)
        &&& secrets.x == x1
        &&& r == r2
    }

    /// Starts to issue a new credential for a given pseudonym. The two
    /// proofs commit with `r1` and `r2`.
    pub fn issue_credential_with(&self, nym: Nym, r1: Scalar, r2: Scalar) -> (out: (
        ProverPair,
        Vec<Message>,
    ))
        ensures
            self.issues(nym, r1, r2, out.0, out.1@),
    {
        let x = self.exponents();
        let cred_a = nym.b().mul(&x.1);
        let cred_b = nym.a().add(&nym.b().mul(&x.1)).mul(&x.0);
        let publics = issuance_publics(&self.public_key(), &nym, &cred_a, &cred_b);
        let (pair, start) = prove_pair(
            (publics.0, Secrets { x: x.1 }, r1),
            (publics.1, Secrets { x: x.0 }, r2),
        );
        let mut send: Vec<Message> = Vec::new();
        send.push(Message::of_point(Label::CredA, &cred_a));
        send.push(Message::of_point(Label::CredB, &cred_b));
        send.push(start[0]);
        send.push(start[1]);
        proof {
            use_type_invariant(&cred_a);
            use_type_invariant(&cred_b);
            assert(send@.subrange(2, 4) =~= start@);
        }
        (pair, send)
    }

    /// Starts to issue a new credential for a given pseudonym.
    pub fn issue_credential(&self, nym: Nym) -> (out: (ProverPair, Vec<Message>))
        ensures
            exists|r1: Scalar, r2: Scalar| self.issues(nym, r1, r2, out.0, out.1@),
    {
        self.issue_credential_with(nym, Scalar::random(), Scalar::random())
    }
}

/// The scalars that a user blinds an issuance with.
#[derive(Clone, Copy)]
pub struct IssuanceBlinds {
    /// The factor that the credential is multiplied by.
    pub gamma: Scalar,
    /// The scalar that blinds the first proof's response.
    pub alpha1: Scalar,
    /// The scalar that blinds the first proof's challenge.
    pub beta1: Scalar,
    /// The scalar that blinds the second proof's response.
    pub alpha2: Scalar,
    /// The scalar that blinds the second proof's challenge.
    pub beta2: Scalar,
}

/// The user's side of the issuance of a credential.
#[allow(non_snake_case)]
pub enum UserIssue {
    /// Awaits the credential's `A`.
    AwaitCredA {
        /// The pseudonym that the credential is issued on.
        nym: Nym,
        /// The issuer's public key.
        source_key: OrgPublicKey,
        /// The blinding scalars.
        blinds: IssuanceBlinds,
    },
    /// Awaits the credential's `B`.
    AwaitCredB {
        /// The pseudonym that the credential is issued on.
        nym: Nym,
        /// The issuer's public key.
        source_key: OrgPublicKey,
        /// The blinding scalars.
        blinds: IssuanceBlinds,
        /// The credential's `A`, as the issuer sent it.
        A: Point,
    },
    /// Verifies the proof that `A` is well formed.
    First {
        /// The pseudonym that the credential is issued on.
        nym: Nym,
        /// The issuer's public key.
        source_key: OrgPublicKey,
        /// The blinding scalars.
        blinds: IssuanceBlinds,
        /// The credential's `A`, as the issuer sent it.
        A: Point,
        /// The credential's `B`, as the issuer sent it.
        B: Point,
        /// The proof.
        verifier: BlindVerifier,
    },
    /// Verifies the proof that `B` is well formed.
    Second {
        /// The pseudonym that the credential is issued on.
        nym: Nym,
        /// The factor that the credential is multiplied by.
        gamma: Scalar,
        /// The credential's `A`, as the issuer sent it.
        A: Point,
        /// The credential's `B`, as the issuer sent it.
        B: Point,
        /// The non-interactive proof that `A` is well formed.
        T1: Transcript,
        /// The proof.
        verifier: BlindVerifier,
    },
}

/// Whether `cred` holds the pseudonym `nym` and the issuer's points `A` and
/// `B`, each multiplied by `gamma`.
#[allow(non_snake_case)]
pub open spec fn is_blinded_cred(cred: Cred, nym: Nym, A: Point, B: Point, gamma: Scalar) -> bool {
    &&& cred.a.is_at(point_mul(gamma.value(), nym.a().index()))
    &&& cred.b.is_at(point_mul(gamma.value(), nym.b().index()))
    &&& cred.A.is_at(point_mul(gamma.value(), A.index()))
    &&& cred.B.is_at(point_mul(gamma.value(), B.index()))
}

impl Session for UserIssue {
    type Output = Cred;

    /// The label of the message that is awaited.
    open spec fn awaits(self) -> Label {
        match self {
            UserIssue::AwaitCredA { .. } => Label::CredA,
            UserIssue::AwaitCredB { .. } => Label::CredB,
            UserIssue::First { verifier, .. } => verifier.awaits(),
            UserIssue::Second { verifier, .. } => verifier.awaits(),
        }
    }

    /// Whether `out` is the answer to `msg`. The issuer's points `A` and `B`
    /// are taken one after the other. Then the two blinded proofs run, each
    /// message going to the one that is running: first that `A` is well
    /// formed, then that `B` is, both blinded with the same factor. When the
    /// second is accepted the session ends with the credential: the
    /// pseudonym and the issuer's points multiplied by that factor, and the
    /// two non-interactive proofs. When either proof is refused, so is the
    /// session. A message that is not what is awaited is refused.
    open spec fn answers(self, msg: Message, out: Step<UserIssue, Cred>) -> bool {
        match self {
            UserIssue::AwaitCredA { nym, source_key, blinds } => match out {
                Step::Continue(next, send) => {
                    &&& msg.is_point(Label::CredA)
                    &&& send@.len() == 0
                    &&& next matches UserIssue::AwaitCredB {
                        nym: n,
                        source_key: k,
                        blinds: bl,
                        A,
                    }
                    &&& n == nym
                    &&& k == source_key
                    &&& bl == blinds
                    &&& A@ == msg.value@
                },
                Step::Reject(e) => !msg.is_point(Label::CredA) && e is BadProof,
                Step::Accept(_, _) => false,
            },
            UserIssue::AwaitCredB { nym, source_key, blinds, A } => match out {
                Step::Continue(next, send) => {
                    &&& msg.is_point(Label::CredB)
                    &&& send@.len() == 0
                    &&& next matches UserIssue::First {
                        nym: n,
                        source_key: k,
                        blinds: bl,
                        A: A1,
                        B,
                        verifier,
                    }
                    &&& n == nym
                    &&& k == source_key
                    &&& bl == blinds
                    &&& A1 == A
                    &&& B@ == msg.value@
                    &&& verifier matches BlindVerifier::AwaitA { publics, secrets, alpha, beta }
                    &&& publics.statement() == issuance_statement_first(source_key, nym, A.model())
                    &&& secrets.gamma == blinds.gamma
                    &&& alpha == blinds.alpha1
                    &&& beta == blinds.beta1
                },
                Step::Reject(e) => !msg.is_point(Label::CredB) && e is BadProof,
                Step::Accept(_, _) => false,
            },
            UserIssue::First { nym, source_key, blinds, A, B, verifier } => match out {
                Step::Continue(
                    UserIssue::First {
                        nym: n,
                        source_key: k,
                        blinds: bl,
                        A: A1,
                        B: B1,
                        verifier: next,
                    },
                    send,
                ) => {
                    &&& n == nym
                    &&& k == source_key
                    &&& bl == blinds
                    &&& A1 == A
                    &&& B1 == B
                    &&& verifier.answers(msg, Step::Continue(next, send))
                },
                Step::Continue(
                    UserIssue::Second { nym: n, gamma, A: A1, B: B1, T1, verifier: next },
                    send,
                ) => {
                    &&& n == nym
                    &&& gamma == blinds.gamma
                    &&& A1 == A
                    &&& B1 == B
                    &&& verifier.answers(msg, Step::Accept(T1, send))
                    &&& next matches BlindVerifier::AwaitA { publics, secrets, alpha, beta }
                    &&& publics.statement() == issuance_statement_second(
                        source_key,
                        nym,
                        A.model(),
                        B.model(),
                    )
                    &&& secrets.gamma == blinds.gamma
                    &&& alpha == blinds.alpha2
                    &&& beta == blinds.beta2
                },
                Step::Continue(_, _) => false,
                Step::Reject(e) => verifier.answers(msg, Step::Reject(e)),
                Step::Accept(_, _) => false,
            },
            UserIssue::Second { nym, gamma, A, B, T1, verifier } => match out {
                Step::Continue(
                    UserIssue::Second { nym: n, gamma: g, A: A1, B: B1, T1: t, verifier: next },
                    send,
                ) => {
                    &&& n == nym
                    &&& g == gamma
                    &&& A1 == A
                    &&& B1 == B
                    &&& t == T1
                    &&& verifier.answers(msg, Step::Continue(next, send))
                },
                Step::Continue(_, _) => false,
                Step::Accept(cred, send) => {
                    &&& is_blinded_cred(cred, nym, A, B, gamma)
                    &&& cred.T1 == T1
                    &&& verifier.answers(msg, Step::Accept(cred.T2, send))
                },
                Step::Reject(e) => verifier.answers(msg, Step::Reject(e)),
            },
        }
    }

    /// The label of the message that is awaited.
    fn awaiting(&self) -> (label: Label)
    {
        match self {
            UserIssue::AwaitCredA { .. } => Label::CredA,
            UserIssue::AwaitCredB { .. } => Label::CredB,
            UserIssue::First { verifier, .. } => verifier.awaiting(),
            UserIssue::Second { verifier, .. } => verifier.awaiting(),
        }
    }

    /// Takes the message that arrived.
    #[allow(non_snake_case)]
    fn receive(self, msg: Message) -> (out: Step<UserIssue, Cred>)
    {
        match self {
            UserIssue::AwaitCredA { nym, source_key, blinds } => match msg.point(Label::CredA) {
                Ok(A) => Step::Continue(
                    UserIssue::AwaitCredB { nym, source_key, blinds, A },
                    Vec::new(),
                ),
                Err(e) => Step::Reject(e),
            },
            UserIssue::AwaitCredB { nym, source_key, blinds, A } => match msg.point(Label::CredB) {
                Ok(B) => {
                    let publics = issuance_publics(&source_key, &nym, &A, &B);
                    let verifier = verify_blind_with(
                        publics.0,
                        VerifierSecrets { gamma: blinds.gamma },
                        blinds.alpha1,
                        blinds.beta1,
                    );
                    Step::Continue(
                        UserIssue::First { nym, source_key, blinds, A, B, verifier },
                        Vec::new(),
                    )
                },
                Err(e) => Step::Reject(e),
            },
            UserIssue::First { nym, source_key, blinds, A, B, verifier } => match verifier.receive(
                msg,
            ) {
                Step::Continue(next, send) => Step::Continue(
                    UserIssue::First { nym, source_key, blinds, A, B, verifier: next },
                    send,
                ),
                Step::Accept(T1, send) => {
                    let publics = issuance_publics(&source_key, &nym, &A, &B);
                    let next = verify_blind_with(
                        publics.1,
                        VerifierSecrets { gamma: blinds.gamma },
                        blinds.alpha2,
                        blinds.beta2,
                    );
                    Step::Continue(
                        UserIssue::Second { nym, gamma: blinds.gamma, A, B, T1, verifier: next },
                        send,
                    )
                },
                Step::Reject(e) => Step::Reject(e),
            },
            UserIssue::Second { nym, gamma, A, B, T1, verifier } => match verifier.receive(msg) {
                Step::Continue(next, send) => Step::Continue(
                    UserIssue::Second { nym, gamma, A, B, T1, verifier: next },
                    send,
                ),
                Step::Accept(T2, send) => {
                    let cred = Cred {
                        a: nym.a().mul(&gamma),
                        b: nym.b().mul(&gamma),
                        A: A.mul(&gamma),
                        B: B.mul(&gamma),
                        T1,
                        T2,
                    };
                    Step::Accept(cred, send)
                },
                Step::Reject(e) => Step::Reject(e),
            },
        }
    }
}

/// The statement of the first proof that a credential carries: the issuer's
/// second secret takes the base point to the second half of its public key,
/// and the credential's `b` to its `A`.
pub open spec fn transfer_statement_first(source_key: OrgPublicKey, cred: Cred) -> Statement {
    Statement {
        g1: point_at(1),
        h1: source_key.at().1.model(),
        g2: cred.b.model(),
        h2: cred.A.model(),
    }
}

/// The statement of the second proof that a credential carries: the
/// issuer's first secret takes the base point to the first half of its
/// public key, and the sum of the credential's `a` and `A` to its `B`.
pub open spec fn transfer_statement_second(source_key: OrgPublicKey, cred: Cred) -> Statement {
    Statement {
        g1: point_at(1),
        h1: source_key.at().0.model(),
        g2: point_at(point_add(cred.a.index(), cred.A.index())),
        h2: cred.B.model(),
    }
}

/// Whether a credential carries valid proofs of both of its statements,
/// against the issuer's public key.
pub open spec fn is_well_formed(source_key: OrgPublicKey, cred: Cred) -> bool {
    &&& cred.T1.proves_statement(transfer_statement_first(source_key, cred))
    &&& cred.T2.proves_statement(transfer_statement_second(source_key, cred))
}

/// The public parameters of the proof that a credential is shown with: one
/// secret takes the pseudonym's `a` to its `b` and the credential's `a` to
/// its `b`.
pub open spec fn showing_publics(nym: Nym, cred: Cred) -> Publics {
    Publics { g1: nym.a(), h1: nym.b(), g2: cred.a, h2: cred.b }
}

impl User {
    /// Starts to take a new credential for a given pseudonym from the
    /// organization whose public key is `source_key`, blinding with the
    /// given scalars.
    pub fn issue_credential_with(&self, nym: Nym, source_key: OrgPublicKey, blinds: IssuanceBlinds) -> (out:
        UserIssue)
        ensures
            out == (UserIssue::AwaitCredA { nym, source_key, blinds }),
    {
        UserIssue::AwaitCredA { nym, source_key, blinds }
    }

    /// Starts to take a new credential for a given pseudonym from the
    /// organization whose public key is `source_key`.
    pub fn issue_credential(&self, nym: Nym, source_key: OrgPublicKey) -> (out: UserIssue)
        ensures
            out matches UserIssue::AwaitCredA { nym: n, source_key: k, .. } && n == nym && k
                == source_key,
    {
        let blinds = IssuanceBlinds {
            gamma: Scalar::random(),
            alpha1: Scalar::random(),
            beta1: Scalar::random(),
            alpha2: Scalar::random(),
            beta2: Scalar::random(),
        };
        self.issue_credential_with(nym, source_key, blinds)
    }

    /// Starts to show a credential to another organization, under the
    /// pseudonym held with it. The proof commits with `r`.
    pub fn transfer_credential_with(&self, nym: Nym, cred: Cred, r: Scalar) -> (out: (
        Prover,
        Vec<Message>,
    ))
        ensures
            commits(showing_publics(nym, cred), Secrets { x: self.secret() }, r, out.0, out.1@),
    {
        prove_with(
            Publics { g1: nym.a(), h1: nym.b(), g2: cred.a, h2: cred.b },
            Secrets { x: self.exponent() },
            r,
        )
    }

    /// Starts to show a credential to another organization, under the
    /// pseudonym held with it.
    pub fn transfer_credential(&self, nym: Nym, cred: Cred) -> (out: (Prover, Vec<Message>))
        ensures
            commits(
                showing_publics(nym, cred),
                Secrets { x: self.secret() },
                out.0.r,
                out.0,
                out.1@,
            ),
    {
        self.transfer_credential_with(nym, cred, Scalar::random())
    }
}

impl Org {
    /// Starts to take a credential that another organization issued, shown
    /// under the pseudonym `nym`. The credential's two proofs are verified
    /// against the issuer's public key first: if either fails, the
    /// credential is refused. The proof that follows is challenged with `c`.
    pub fn transfer_credential_with(
        &self,
        nym: Nym,
        cred: Cred,
        source_key: OrgPublicKey,
        c: Scalar,
    ) -> (out: Result<Verifier, Error>)
        ensures
            out is Ok == is_well_formed(source_key, cred),
            out matches Ok(verifier) ==> verifier == (Verifier::AwaitA {
                publics: showing_publics(nym, cred),
                c,
            }),
            out matches Err(e) ==> e is BadProof,
    {
        let base = Point::basepoint();
        let sum = cred.a.add(&cred.A);
        let keys = source_key.points();
        proof {
            use_type_invariant(&base);
            use_type_invariant(&sum);
        }
        match cred.T1.verify(Publics { g1: base, h1: keys.1, g2: cred.b, h2: cred.A }) {
            Ok(_) => {},
            Err(e) => {
                return Err(e);
            },
        }
        match cred.T2.verify(Publics { g1: base, h1: keys.0, g2: sum, h2: cred.B }) {
            Ok(_) => {},
            Err(e) => {
                return Err(e);
            },
        }
        Ok(verify_with(Publics { g1: nym.a(), h1: nym.b(), g2: cred.a, h2: cred.b }, c))
    }

    /// Starts to take a credential that another organization issued, shown
    /// under the pseudonym `nym`.
    pub fn transfer_credential(&self, nym: Nym, cred: Cred, source_key: OrgPublicKey) -> (out:
        Result<Verifier, Error>)
        ensures
            out is Ok == is_well_formed(source_key, cred),
            out matches Ok(verifier) ==> verifier matches Verifier::AwaitA { publics, .. }
                && publics == showing_publics(nym, cred),
            out matches Err(e) ==> e is BadProof,
    {
        self.transfer_credential_with(nym, cred, source_key, Scalar::random())
    }
}

/// The relations of a credential. Where a pseudonym `(a, b)` has `b = x * a`
/// and the issuer's points on it are `A = x2 * b` and `B = x1 * (a + A)`, the
/// same relations hold of the four points multiplied by `gamma`.
pub proof fn lemma_cred_relations(a: nat, x: nat, x1: nat, x2: nat, gamma: nat)
    ensures
        ({
            let b = point_mul(x, a);
            let big_a = issued_a(x2, b);
            let big_b = issued_b(x1, x2, a, b);
            let cred_a = point_mul(gamma, a);
            let cred_b = point_mul(gamma, b);
            let cred_big_a = point_mul(gamma, big_a);
            let cred_big_b = point_mul(gamma, big_b);
            &&& cred_b == point_mul(x, cred_a)
            &&& cred_big_a == point_mul(x2, cred_b)
            &&& cred_big_b == point_mul(x1, point_add(cred_a, cred_big_a))
        }),
{
    let b = point_mul(x, a);
    let big_a = issued_a(x2, b);
    lemma_point_mul_commutes(gamma, x, a);
    lemma_point_mul_commutes(gamma, x2, b);
    lemma_point_mul_commutes(gamma, x1, point_add(a, big_a));
    lemma_point_mul_distributes(gamma, a, big_a);
}

/// A credential that was issued honestly carries two valid proofs. For a
/// pseudonym `(a, b)` and an issuer with the secrets `x1` and `x2`, where the
/// issuer commits with `r1` and `r2` and the user blinds with `gamma` and
/// with `alpha1`, `beta1`, `alpha2` and `beta2`, the first proof satisfies
/// both equations for the statement that the issuer's second secret takes
/// the base point to its public point and the credential's `b` to its `A`,
/// and the second proof for the statement that the first secret takes the
/// base point to its public point and the sum of the credential's `a` and `A`
/// to its `B`.
pub proof fn lemma_issued_proofs_verify(
    a: nat,
    b: nat,
    x1: nat,
    x2: nat,
    gamma: nat,
    r1: nat,
    alpha1: nat,
    beta1: nat,
    c1: nat,
    r2: nat,
    alpha2: nat,
    beta2: nat,
    c2: nat,
)
    requires
        x1 < group_order(),
        x2 < group_order(),
    ensures
        ({
            let big_a = issued_a(x2, b);
            let big_b = issued_b(x1, x2, a, b);
            let cred_a = point_mul(gamma, a);
            let cred_b = point_mul(gamma, b);
            let cred_big_a = point_mul(gamma, big_a);
            let cred_big_b = point_mul(gamma, big_b);
            let y1 = scalar_add(response(r1, scalar_add(c1, beta1), x2), alpha1);
            let y2 = scalar_add(response(r2, scalar_add(c2, beta2), x1), alpha2);
            &&& relation_holds(1, x2, blinded_a(point_mul(r1, 1), alpha1, beta1, 1, x2), c1, y1)
            &&& relation_holds(
                cred_b,
                cred_big_a,
                blinded_b(gamma, point_mul(r1, b), alpha1, beta1, b, big_a),
                c1,
                y1,
            )
            &&& relation_holds(1, x1, blinded_a(point_mul(r2, 1), alpha2, beta2, 1, x1), c2, y2)
            &&& relation_holds(
                point_add(cred_a, cred_big_a),
                cred_big_b,
                blinded_b(
                    gamma,
                    point_mul(r2, point_add(a, big_a)),
                    alpha2,
                    beta2,
                    point_add(a, big_a),
                    big_b,
                ),
                c2,
                y2,
            )
        }),
{
    let big_a = issued_a(x2, b);
    assert(point_mul(x2, 1) == x2 && point_mul(x1, 1) == x1) by {
        assert(x2 * 1 == x2 && x1 * 1 == x1) by (nonlinear_arith);
        vstd::arithmetic::div_mod::lemma_small_mod(x2, group_order());
        vstd::arithmetic::div_mod::lemma_small_mod(x1, group_order());
    }
    lemma_blinded_proof_complete(1, b, x2, r1, alpha1, beta1, gamma, c1);
    lemma_blinded_proof_complete(1, point_add(a, big_a), x1, r2, alpha2, beta2, gamma, c2);
    lemma_point_mul_distributes(gamma, a, big_a);
}

/// Transfer completeness: the holder of a credential is accepted when it
/// shows it. Where the pseudonym held with the other organization is
/// `(a2, x * a2)` and the credential was issued on `(a, x * a)` and blinded
/// with `gamma`, an honest prover with the secret `x` satisfies both of the
/// verifier's equations.
pub proof fn lemma_showing_accepted(a2: nat, a: nat, x: nat, gamma: nat, r: nat, c: nat)
    ensures
        relation_holds(a2, point_mul(x, a2), point_mul(r, a2), c, response(r, c, x)),
        relation_holds(
            point_mul(gamma, a),
            point_mul(gamma, point_mul(x, a)),
            point_mul(r, point_mul(gamma, a)),
            c,
            response(r, c, x),
        ),
{
    lemma_honest_prover_accepted(a2, point_mul(gamma, a), x, r, c);
    lemma_point_mul_commutes(gamma, x, a);
}

} // verus!
