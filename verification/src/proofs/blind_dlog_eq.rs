//! Blinded zero-knowledge proof of equality of discrete logarithms.
//!
//! The prover acts as in the plain protocol. The verifier blinds what it
//! sees with scalars of its own, so that it ends up with a non-interactive
//! proof of a statement that the prover cannot recognise: that of the public
//! parameters with the second base and the second point multiplied by the
//! verifier's blinding factor.

use vstd::prelude::*;
use crate::bytes::le_value;
use crate::error::Error;
use crate::modular::{
    congruent, lemma_congruent_add, lemma_congruent_mul, lemma_product_reduced,
    lemma_remainder_congruent, lemma_remainders_equal, lemma_sum_reduced,
};
use crate::point::{point_add, point_mul, Point};
use crate::proofs::dlog_eq::{
    commits, lemma_honest_prover_accepted, non_interactive_challenge_for, prove as prove_plain,
    prove_with as prove_plain_with, relation_holds, response, verdict, Prover, Publics, Secrets,
    Transcript,
};
use crate::scalar::{scalar_add, Scalar};
use crate::transport::{Label, Message, Session, Step};

verus! {

/// Secret parameters for the prover.
pub type ProverSecrets = Secrets;

/// Secret parameters for the verifier.
#[derive(Clone, Copy)]
pub struct VerifierSecrets {
    /// Blinding factor.
    pub gamma: Scalar,
}

/// The blinded first commitment `a + alpha * g1 + beta * h1`.
pub open spec fn blinded_a(a: nat, alpha: nat, beta: nat, g1: nat, h1: nat) -> nat {
    point_add(point_add(a, point_mul(alpha, g1)), point_mul(beta, h1))
}

/// The blinded second commitment `gamma * (b + alpha * g2 + beta * h2)`.
pub open spec fn blinded_b(gamma: nat, b: nat, alpha: nat, beta: nat, g2: nat, h2: nat) -> nat {
    point_mul(gamma, point_add(point_add(b, point_mul(alpha, g2)), point_mul(beta, h2)))
}

/// Whether `blinded` is `publics` with the second base and the second point
/// multiplied by `gamma`.
pub open spec fn is_blinding_of(blinded: Publics, publics: Publics, gamma: Scalar) -> bool {
    &&& blinded.g1 == publics.g1
    &&& blinded.h1 == publics.h1
    &&& blinded.g2.is_at(point_mul(gamma.value(), publics.g2.index()))
    &&& blinded.h2.is_at(point_mul(gamma.value(), publics.h2.index()))
}

/// Starts the protocol as the prover, committing with the scalar `r`.
pub fn prove_with(publics: Publics, secrets: ProverSecrets, r: Scalar) -> (out: (
    Prover,
    Vec<Message>,
))
    ensures
        commits(publics, secrets, r, out.0, out.1@),
{
    prove_plain_with(publics, secrets, r)
}

/// Starts the protocol as the prover, committing with a fresh random scalar.
pub fn prove(publics: Publics, secrets: ProverSecrets) -> (out: (Prover, Vec<Message>))
    ensures
        commits(publics, secrets, out.0.r, out.0, out.1@),
{
    prove_plain(publics, secrets)
}

/// What the verifier keeps once it has blinded the commitment.
#[derive(Clone, Copy)]
pub struct Blinding {
    /// The public parameters of the blinded statement.
    pub publics: Publics,
    /// The blinded first commitment.
    pub a: Point,
    /// The blinded second commitment.
    pub b: Point,
    /// The challenge of the blinded statement.
    pub c: Scalar,
}

/// The verifier's side of the protocol.
pub enum Verifier {
    /// Awaits the first half of the commitment.
    AwaitA {
        /// Public parameters.
        publics: Publics,
        /// The blinding factor.
        secrets: VerifierSecrets,
        /// The scalar that blinds the response.
        alpha: Scalar,
        /// The scalar that blinds the challenge.
        beta: Scalar,
    },
    /// Awaits the second half of the commitment.
    AwaitB {
        /// Public parameters.
        publics: Publics,
        /// The blinding factor.
        secrets: VerifierSecrets,
        /// The scalar that blinds the response.
        alpha: Scalar,
        /// The scalar that blinds the challenge.
        beta: Scalar,
        /// First half of the commitment.
        a: Point,
    },
    /// Has sent the challenge and awaits the response.
    AwaitY {
        /// Public parameters.
        publics: Publics,
        /// The scalar that blinds the response.
        alpha: Scalar,
        /// First half of the commitment.
        a: Point,
        /// Second half of the commitment.
        b: Point,
        /// The challenge that was sent.
        c: Scalar,
        /// The blinded statement, commitment and challenge.
        blinding: Blinding,
    },
}

/// Whether `blinding` and `c` are what the verifier derives from the
/// commitment `(a, b)`: the blinded statement and commitment, the
/// non-interactive challenge of these, and the challenge to send, which is
/// that challenge plus `beta`.
pub open spec fn blinds(
    publics: Publics,
    secrets: VerifierSecrets,
    alpha: Scalar,
    beta: Scalar,
    a: Point,
    b: Point,
    blinding: Blinding,
    c: Scalar,
) -> bool {
    &&& is_blinding_of(blinding.publics, publics, secrets.gamma)
    &&& blinding.a.is_at(
        blinded_a(
            a.index(),
            alpha.value(),
            beta.value(),
            publics.g1.index(),
            publics.h1.index(),
        ),
    )
    &&& blinding.b.is_at(
        blinded_b(
            secrets.gamma.value(),
            b.index(),
            alpha.value(),
            beta.value(),
            publics.g2.index(),
            publics.h2.index(),
        ),
    )
    &&& blinding.c.value() == blinding.publics.challenge(blinding.a, blinding.b)
    &&& c.value() == scalar_add(blinding.c.value(), beta.value())
}

/// Blinds the commitment `(a, b)` and derives the challenge to send.
pub fn blind(
    publics: Publics,
    secrets: VerifierSecrets,
    alpha: Scalar,
    beta: Scalar,
    a: Point,
    b: Point,
) -> (out: (Blinding, Scalar))
    ensures
        blinds(publics, secrets, alpha, beta, a, b, out.0, out.1),
{
    let a1 = a.add(&publics.g1.mul(&alpha)).add(&publics.h1.mul(&beta));
    let b1 = b.add(&publics.g2.mul(&alpha)).add(&publics.h2.mul(&beta)).mul(&secrets.gamma);
    let blinded = Publics {
        g1: publics.g1,
        h1: publics.h1,
        g2: publics.g2.mul(&secrets.gamma),
        h2: publics.h2.mul(&secrets.gamma),
    };
    let c_star = non_interactive_challenge_for(blinded, a1, b1);
    let c = c_star.add(&beta);
    (Blinding { publics: blinded, a: a1, b: b1, c: c_star }, c)
}

impl Session for Verifier {
    type Output = Transcript;

    /// The label of the message that this verifier awaits.
    open spec fn awaits(self) -> Label {
        match self {
            Verifier::AwaitA { .. } => Label::A,
            Verifier::AwaitB { .. } => Label::B,
            Verifier::AwaitY { .. } => Label::Y,
        }
    }

    /// Whether `out` is this verifier's answer to `msg`. The two halves of
    /// the commitment are taken one after the other; the second is blinded
    /// together with the first and answered with the challenge. The response
    /// ends the session. If both equations of the statement hold, with the
    /// challenge that was sent, the result is the non-interactive proof of
    /// the blinded statement: the blinded commitment, its challenge, and the
    /// response plus `alpha`. If not, the session is refused. A message that
    /// is not what is awaited is refused.
    open spec fn answers(self, msg: Message, out: Step<Verifier, Transcript>) -> bool {
        match self {
            Verifier::AwaitA { publics, secrets, alpha, beta } => match out {
                Step::Continue(next, send) => {
                    &&& msg.is_point(Label::A)
                    &&& send@.len() == 0
                    &&& next matches Verifier::AwaitB {
                        publics: p,
                        secrets: s,
                        alpha: al,
                        beta: be,
                        a,
                    }
                    &&& p == publics
                    &&& s == secrets
                    &&& al == alpha
                    &&& be == beta
                    &&& a@ == msg.value@
                },
                Step::Reject(e) => !msg.is_point(Label::A) && e is BadProof,
                Step::Accept(_, _) => false,
            },
            Verifier::AwaitB { publics, secrets, alpha, beta, a } => match out {
                Step::Continue(next, send) => {
                    &&& msg.is_point(Label::B)
                    &&& next matches Verifier::AwaitY {
                        publics: p,
                        alpha: al,
                        a: a0,
                        b,
                        c,
                        blinding,
                    }
                    &&& p == publics
                    &&& al == alpha
                    &&& a0 == a
                    &&& b@ == msg.value@
                    &&& blinds(publics, secrets, alpha, beta, a, b, blinding, c)
                    &&& send@.len() == 1
                    &&& send@[0].holds_scalar(Label::C, c.value())
                },
                Step::Reject(e) => !msg.is_point(Label::B) && e is BadProof,
                Step::Accept(_, _) => false,
            },
            Verifier::AwaitY { publics, alpha, a, b, c, blinding } => {
                let accepted = msg.is_scalar(Label::Y) && verdict(publics, a, b, c, msg.value@);
                match out {
                    Step::Accept(t, send) => {
                        &&& accepted
                        &&& send@.len() == 0
                        &&& t.a == blinding.a
                        &&& t.b == blinding.b
                        &&& t.c == blinding.c
                        &&& t.y.value() == scalar_add(le_value(msg.value@), alpha.value())
                    },
                    Step::Reject(e) => !accepted && e is BadProof,
                    Step::Continue(_, _) => false,
                }
            },
        }
    }

    /// The label of the message that this verifier awaits.
    fn awaiting(&self) -> (label: Label)
    {
        match self {
            Verifier::AwaitA { .. } => Label::A,
            Verifier::AwaitB { .. } => Label::B,
            Verifier::AwaitY { .. } => Label::Y,
        }
    }

    /// Takes the message that arrived.
    fn receive(self, msg: Message) -> (out: Step<Verifier, Transcript>)
    {
        match self {
            Verifier::AwaitA { publics, secrets, alpha, beta } => match msg.point(Label::A) {
                Ok(a) => Step::Continue(
                    Verifier::AwaitB { publics, secrets, alpha, beta, a },
                    Vec::new(),
                ),
                Err(e) => Step::Reject(e),
            },
            Verifier::AwaitB { publics, secrets, alpha, beta, a } => match msg.point(Label::B) {
                Ok(b) => {
                    let (blinding, c) = blind(publics, secrets, alpha, beta, a, b);
                    let mut send: Vec<Message> = Vec::new();
                    send.push(Message::of_scalar(Label::C, &c));
                    Step::Continue(Verifier::AwaitY { publics, alpha, a, b, c, blinding }, send)
                },
                Err(e) => Step::Reject(e),
            },
            Verifier::AwaitY { publics, alpha, a, b, c, blinding } => match msg.scalar(Label::Y) {
                Ok(y) => {
                    if publics.check(&a, &b, &c, &y) {
                        let t = Transcript {
                            a: blinding.a,
                            b: blinding.b,
                            c: blinding.c,
                            y: y.add(&alpha),
                        };
                        Step::Accept(t, Vec::new())
                    } else {
                        Step::Reject(Error::BadProof)
                    }
                },
                Err(e) => Step::Reject(e),
            },
        }
    }
}

/// Starts the protocol as the verifier, blinding with the scalars `alpha`
/// and `beta`.
pub fn verify_with(publics: Publics, secrets: VerifierSecrets, alpha: Scalar, beta: Scalar) -> (out:
    Verifier)
    ensures
        out == (Verifier::AwaitA { publics, secrets, alpha, beta }),
{
    Verifier::AwaitA { publics, secrets, alpha, beta }
}

/// Starts the protocol as the verifier, blinding with fresh random scalars.
pub fn verify(publics: Publics, secrets: VerifierSecrets) -> (out: Verifier)
    ensures
        out matches Verifier::AwaitA { publics: p, secrets: s, .. } && p == publics && s == secrets,
{
    verify_with(publics, secrets, Scalar::random(), Scalar::random())
}

/// The first equation survives the blinding: if `y * g1 = a + c * h1` for
/// the challenge `c = c_star + beta`, then the blinded commitment, the
/// challenge `c_star` and the response `y + alpha` satisfy the same equation.
pub proof fn lemma_blinded_first_relation(
    g1: nat,
    h1: nat,
    a: nat,
    c_star: nat,
    y: nat,
    alpha: nat,
    beta: nat,
)
    requires
        relation_holds(g1, h1, a, scalar_add(c_star, beta), y),
    ensures
        relation_holds(g1, h1, blinded_a(a, alpha, beta, g1, h1), c_star, scalar_add(y, alpha)),
{
    let (g, h, ai, cs, yi, al, be) = (
        g1 as int,
        h1 as int,
        a as int,
        c_star as int,
        y as int,
        alpha as int,
        beta as int,
    );
    let c = scalar_add(c_star, beta) as int;
    // what is given: y * g is congruent to a + (c_star + beta) * h
    lemma_remainder_congruent(yi * g);
    lemma_remainder_congruent(cs + be);
    lemma_product_reduced(c, cs + be, h, h);
    lemma_sum_reduced(ai, ai, point_mul(c as nat, h1) as int, (cs + be) * h);
    assert(congruent(yi * g, ai + (cs + be) * h));
    // the left side: (y + alpha) * g
    lemma_remainder_congruent(yi + al);
    lemma_product_reduced(scalar_add(y, alpha) as int, yi + al, g, g);
    assert((yi + al) * g == yi * g + al * g) by (nonlinear_arith);
    lemma_congruent_add(yi * g, ai + (cs + be) * h, al * g, al * g);
    // the right side: a + alpha * g + beta * h + c_star * h
    lemma_product_reduced(al, al, g, g);
    lemma_sum_reduced(ai, ai, point_mul(alpha, g1) as int, al * g);
    lemma_product_reduced(be, be, h, h);
    lemma_sum_reduced(
        point_add(a, point_mul(alpha, g1)) as int,
        ai + al * g,
        point_mul(beta, h1) as int,
        be * h,
    );
    lemma_product_reduced(cs, cs, h, h);
    let a1 = blinded_a(a, alpha, beta, g1, h1) as int;
    lemma_sum_reduced(a1, ai + al * g + be * h, point_mul(c_star, h1) as int, cs * h);
    assert(ai + (cs + be) * h + al * g == ai + al * g + be * h + cs * h) by (nonlinear_arith);
    lemma_remainders_equal(
        scalar_add(y, alpha) as int * g,
        a1 + point_mul(c_star, h1) as int,
        ai + al * g + be * h + cs * h,
    );
}

/// The second equation survives the blinding: if `y * g2 = b + c * h2` for
/// the challenge `c = c_star + beta`, then the blinded commitment, the
/// challenge `c_star` and the response `y + alpha` satisfy the equation of
/// the blinded statement, with `gamma * g2` and `gamma * h2` in place of `g2`
/// and `h2`.
pub proof fn lemma_blinded_second_relation(
    g2: nat,
    h2: nat,
    b: nat,
    c_star: nat,
    y: nat,
    alpha: nat,
    beta: nat,
    gamma: nat,
)
    requires
        relation_holds(g2, h2, b, scalar_add(c_star, beta), y),
    ensures
        relation_holds(
            point_mul(gamma, g2),
            point_mul(gamma, h2),
            blinded_b(gamma, b, alpha, beta, g2, h2),
            c_star,
            scalar_add(y, alpha),
        ),
{
    let (g, h, bi, cs, yi, al, be, ga) = (
        g2 as int,
        h2 as int,
        b as int,
        c_star as int,
        y as int,
        alpha as int,
        beta as int,
        gamma as int,
    );
    let c = scalar_add(c_star, beta) as int;
    // what is given: y * g is congruent to b + (c_star + beta) * h
    lemma_remainder_congruent(yi * g);
    lemma_remainder_congruent(cs + be);
    lemma_product_reduced(c, cs + be, h, h);
    lemma_sum_reduced(bi, bi, point_mul(c as nat, h2) as int, (cs + be) * h);
    assert(congruent(yi * g, bi + (cs + be) * h));
    // the left side: (y + alpha) * (gamma * g)
    lemma_remainder_congruent(yi + al);
    lemma_product_reduced(ga, ga, g, g);
    lemma_product_reduced(
        scalar_add(y, alpha) as int,
        yi + al,
        point_mul(gamma, g2) as int,
        ga * g,
    );
    assert((yi + al) * (ga * g) == ga * (yi * g) + ga * (al * g)) by (nonlinear_arith);
    lemma_congruent_mul(ga, ga, yi * g, bi + (cs + be) * h);
    lemma_congruent_add(ga * (yi * g), ga * (bi + (cs + be) * h), ga * (al * g), ga * (al * g));
    // the right side: gamma * (b + alpha * g + beta * h) + c_star * (gamma * h)
    lemma_product_reduced(al, al, g, g);
    lemma_sum_reduced(bi, bi, point_mul(alpha, g2) as int, al * g);
    lemma_product_reduced(be, be, h, h);
    lemma_sum_reduced(
        point_add(b, point_mul(alpha, g2)) as int,
        bi + al * g,
        point_mul(beta, h2) as int,
        be * h,
    );
    let inner = point_add(point_add(b, point_mul(alpha, g2)), point_mul(beta, h2)) as int;
    lemma_product_reduced(ga, ga, inner, bi + al * g + be * h);
    lemma_product_reduced(ga, ga, h, h);
    lemma_product_reduced(cs, cs, point_mul(gamma, h2) as int, ga * h);
    let b1 = blinded_b(gamma, b, alpha, beta, g2, h2) as int;
    lemma_sum_reduced(
        b1,
        ga * (bi + al * g + be * h),
        point_mul(c_star, point_mul(gamma, h2)) as int,
        cs * (ga * h),
    );
    assert(ga * (bi + (cs + be) * h) + ga * (al * g) == ga * (bi + al * g + be * h) + cs * (ga * h))
        by (nonlinear_arith);
    lemma_remainders_equal(
        scalar_add(y, alpha) as int * point_mul(gamma, g2) as int,
        b1 + point_mul(c_star, point_mul(gamma, h2)) as int,
        ga * (bi + al * g + be * h) + cs * (ga * h),
    );
}

/// An honest run yields a valid proof of the blinded statement. Where
/// `h1 = x * g1` and `h2 = x * g2`, the prover commits with `r`, the verifier
/// blinds with `alpha`, `beta` and `gamma` and sends `c_star + beta`, and the
/// prover responds to that, the blinded commitment, `c_star` and the
/// response plus `alpha` satisfy both equations of the blinded statement.
pub proof fn lemma_blinded_proof_complete(
    g1: nat,
    g2: nat,
    x: nat,
    r: nat,
    alpha: nat,
    beta: nat,
    gamma: nat,
    c_star: nat,
)
    ensures
        ({
            let y = response(r, scalar_add(c_star, beta), x);
            &&& relation_holds(
                g1,
                point_mul(x, g1),
                blinded_a(point_mul(r, g1), alpha, beta, g1, point_mul(x, g1)),
                c_star,
                scalar_add(y, alpha),
            )
            &&& relation_holds(
                point_mul(gamma, g2),
                point_mul(gamma, point_mul(x, g2)),
                blinded_b(gamma, point_mul(r, g2), alpha, beta, g2, point_mul(x, g2)),
                c_star,
                scalar_add(y, alpha),
            )
        }),
{
    let c = scalar_add(c_star, beta);
    let y = response(r, c, x);
    lemma_honest_prover_accepted(g1, g2, x, r, c);
    lemma_blinded_first_relation(g1, point_mul(x, g1), point_mul(r, g1), c_star, y, alpha, beta);
    lemma_blinded_second_relation(
        g2,
        point_mul(x, g2),
        point_mul(r, g2),
        c_star,
        y,
        alpha,
        beta,
        gamma,
    );
}

/// What a verifier accepts, verifies. Where the verifier has blinded the
/// commitment and sent the challenge, and accepts the response, the proof it
/// ends with is a valid non-interactive proof of the blinded statement.
pub proof fn lemma_accepted_transcript_verifies(
    verifier: Verifier,
    secrets: VerifierSecrets,
    beta: Scalar,
    msg: Message,
    out: Step<Verifier, Transcript>,
)
    requires
        verifier matches Verifier::AwaitY { publics, alpha, a, b, c, blinding } && blinds(
            publics,
            secrets,
            alpha,
            beta,
            a,
            b,
            blinding,
            c,
        ),
        verifier.answers(msg, out),
        out is Accept,
    ensures
        verifier matches Verifier::AwaitY { blinding, .. } && out matches Step::Accept(t, _)
            && t.proves(blinding.publics),
{
    match verifier {
        Verifier::AwaitY { publics, alpha, a, b, c, blinding } => {
            let y = le_value(msg.value@);
            lemma_blinded_first_relation(
                publics.g1.index(),
                publics.h1.index(),
                a.index(),
                blinding.c.value(),
                y,
                alpha.value(),
                beta.value(),
            );
            lemma_blinded_second_relation(
                publics.g2.index(),
                publics.h2.index(),
                b.index(),
                blinding.c.value(),
                y,
                alpha.value(),
                beta.value(),
                secrets.gamma.value(),
            );
        },
        _ => {},
    }
}

} // verus!
