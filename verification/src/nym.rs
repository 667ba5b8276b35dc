//! Pseudonym generation and authentication.

use vstd::prelude::*;
use crate::bytes::{append_32, take_32};
use crate::error::Error;
use crate::key::{public_point, OrgPublicKey, OrgSecretKey, UserPublicKey, UserSecretKey};
use crate::point::{
    is_point_encoding, lemma_same_encoding, point_mul, ristretto_index, Point,
};
use crate::proofs::dlog_eq::{commits, prove_with, verify_with, Prover, Publics, Secrets, Verifier};
use crate::scalar::Scalar;
use crate::transport::{Label, Message, Session, Step};

verus! {

/// A pseudonym: a point `a` that is not the identity, and the point `b`
/// that is `a` multiplied by its holder's master secret.
#[derive(Clone, Copy, Debug, PartialEq, Eq)]
pub struct Nym {
    a: Point,
    b: Point,
}

/// Whether `bytes` is the encoding of a pseudonym: twice 32 bytes, which
/// encode two points, the first of which is not the identity.
pub open spec fn is_nym_encoding(bytes: Seq<u8>) -> bool {
    &&& bytes.len() == 64
    &&& is_point_encoding(bytes.subrange(0, 32))
    &&& ristretto_index(bytes.subrange(0, 32)) != 0
    &&& is_point_encoding(bytes.subrange(32, 64))
}

impl Nym {
    /// Every pseudonym has a base: `a` is not the identity. A pseudonym
    /// without one would be held by everybody, since every secret takes the
    /// identity to itself.
    #[verifier::type_invariant]
    pub open spec fn has_base(&self) -> bool {
        self.spec_a().index() != 0
    }

    /// The base.
    pub closed spec fn spec_a(&self) -> Point {
        self.a
    }

    /// The base multiplied by the holder's secret.
    pub closed spec fn spec_b(&self) -> Point {
        self.b
    }

    /// The base. It is not the identity.
    #[verifier::when_used_as_spec(spec_a)]
    pub fn a(&self) -> (out: Point)
        ensures
            out == self.a(),
            out.index() != 0,
    {
        proof {
            use_type_invariant(self);
        }
        self.a
    }

    /// The base multiplied by the holder's secret.
    #[verifier::when_used_as_spec(spec_b)]
    pub fn b(&self) -> (out: Point)
        ensures
            out == self.b(),
    {
        self.b
    }

    /// The pseudonym of the two points. The identity is refused as the
    /// base.
    pub fn new(a: Point, b: Point) -> (out: Option<Nym>)
        ensures
            out is Some == (a.index() != 0),
            out matches Some(nym) ==> nym.a() == a && nym.b() == b,
    {
        if a.is_identity() {
            None
        } else {
            Some(Nym { a, b })
        }
    }

    /// The encoding of this pseudonym: the encodings of `a` and `b`, in this
    /// order.
    pub open spec fn encoding(self) -> Seq<u8> {
        self.a()@ + self.b()@
    }

    /// Encodes this pseudonym.
    pub fn to_bytes(&self) -> (out: Vec<u8>)
        ensures
            out@ == self.encoding(),
            is_nym_encoding(out@),
    {
        let mut out: Vec<u8> = Vec::new();
        append_32(&mut out, &self.a.to_bytes());
        append_32(&mut out, &self.b.to_bytes());
        proof {
            use_type_invariant(self);
            use_type_invariant(&self.a);
            use_type_invariant(&self.b);
            self.a.lemma_encoding_length();
            self.b.lemma_encoding_length();
            assert(out@ =~= self.encoding());
            assert(out@.subrange(0, 32) =~= self.a@);
            assert(out@.subrange(32, 64) =~= self.b@);
        }
        out
    }

    /// Decodes a pseudonym. Bytes that are not the encoding of a pseudonym
    /// are refused, and so is the identity as the base.
    pub fn from_bytes(bytes: &[u8]) -> (out: Option<Nym>)
        ensures
            out is Some == is_nym_encoding(bytes@),
            out matches Some(nym) ==> nym.encoding() == bytes@,
    {
        if bytes.len() != 64 {
            return None;
        }
        let a = Point::from_bytes(take_32(bytes, 0));
        let b = Point::from_bytes(take_32(bytes, 32));
        match (a, b) {
            (Some(a), Some(b)) => {
                if a.is_identity() {
                    return None;
                }
                let nym = Nym { a, b };
                proof {
                    assert(nym.encoding() =~= bytes@);
                }
                Some(nym)
            },
            _ => None,
        }
    }
}

/// An organization.
pub struct Org {
    sk: OrgSecretKey,
    pk: OrgPublicKey,
}

/// A user.
pub struct User {
    sk: UserSecretKey,
    pk: UserPublicKey,
}

impl Org {
    /// The public key is that of the secret key.
    #[verifier::type_invariant]
    pub closed spec fn keys_match(self) -> bool {
        &&& self.pk.at().0.is_at(self.sk.secrets().0.value())
        &&& self.pk.at().1.is_at(self.sk.secrets().1.value())
    }

    /// The organization's secret scalars.
    pub closed spec fn secrets(self) -> (Scalar, Scalar) {
        self.sk.secrets()
    }

    /// The organization's public key.
    pub closed spec fn public(self) -> OrgPublicKey {
        self.pk
    }

    /// Initializes a new organization with the given secret key.
    pub fn new(sk: OrgSecretKey) -> (out: Org)
        ensures
            out.secrets() == sk.secrets(),
            out.public().at().0.is_at(sk.secrets().0.value()),
            out.public().at().1.is_at(sk.secrets().1.value()),
    {
        Org { pk: sk.to_public(), sk }
    }

    /// The organization's secret scalars.
    pub(crate) fn exponents(&self) -> (x: (Scalar, Scalar))
        ensures
            x == self.secrets(),
    {
        self.sk.exponents()
    }

    /// Gets this organization's public key.
    pub fn public_key(&self) -> (out: OrgPublicKey)
        ensures
            out == self.public(),
            out.at().0.is_at(self.secrets().0.value()),
            out.at().1.is_at(self.secrets().1.value()),
    {
        proof {
            use_type_invariant(self);
        }
        self.pk
    }
}

impl User {
    /// The public key is that of the secret key.
    #[verifier::type_invariant]
    pub closed spec fn keys_match(self) -> bool {
        self.pk.at().is_at(self.sk.secret().value())
    }

    /// The user's master secret.
    pub closed spec fn secret(self) -> Scalar {
        self.sk.secret()
    }

    /// The user's public key.
    pub closed spec fn public(self) -> UserPublicKey {
        self.pk
    }

    /// Initializes a new user with the given secret key.
    pub fn new(sk: UserSecretKey) -> (out: User)
        ensures
            out.secret() == sk.secret(),
            out.public().at().is_at(sk.secret().value()),
    {
        User { pk: sk.to_public(), sk }
    }

    /// The user's master secret.
    pub(crate) fn exponent(&self) -> (x: Scalar)
        ensures
            x == self.secret(),
    {
        self.sk.exponent()
    }

    /// Gets this user's public key.
    pub fn public_key(&self) -> (out: UserPublicKey)
        ensures
            out == self.public(),
            out.at().is_at(self.secret().value()),
    {
        proof {
            use_type_invariant(self);
        }
        self.pk
    }
}

/// The public parameters of the proof that ends the generation of the
/// pseudonym `nym` from the seeds `seed_a` and `seed_b`: one secret takes
/// `nym.a()` to `nym.b()` and `seed_a` to `seed_b`.
pub open spec fn nym_publics(nym: Nym, seed_a: Point, seed_b: Point) -> Publics {
    Publics { g1: nym.a(), h1: nym.b(), g2: seed_a, h2: seed_b }
}

/// The public parameters of the proof that authenticates the holder of
/// `nym`: the holder knows the secret that takes `nym.a()` to `nym.b()`.
pub open spec fn authentication_publics(nym: Nym) -> Publics {
    Publics { g1: nym.a(), h1: nym.b(), g2: nym.a(), h2: nym.b() }
}

/// Whether a message carries the base of a pseudonym: a point under the
/// label `a` that is not the identity.
pub open spec fn is_base(msg: Message) -> bool {
    msg.is_point(Label::A) && ristretto_index(msg.value@) != 0
}

/// The user's side of the generation of a pseudonym.
pub enum UserNym {
    /// Has sent the seeds and awaits the pseudonym's base.
    AwaitA {
        /// The user's master secret.
        x: Scalar,
        /// The first seed.
        seed_a: Point,
        /// The second seed: the first one multiplied by the secret.
        seed_b: Point,
        /// The scalar that the proof will commit with.
        r: Scalar,
    },
    /// Has sent the pseudonym's second point and proves that it is well
    /// formed.
    Proving {
        /// The pseudonym.
        nym: Nym,
        /// The proof.
        prover: Prover,
    },
}

impl Session for UserNym {
    type Output = Nym;

    /// The label of the message that is awaited.
    open spec fn awaits(self) -> Label {
        match self {
            UserNym::AwaitA { .. } => Label::A,
            UserNym::Proving { .. } => Label::C,
        }
    }

    /// Whether `out` is the answer to `msg`. The base `a` is answered with
    /// `b = x * a` and with the commitment of the proof that one secret takes
    /// `a` to `b` and the first seed to the second. The challenge is
    /// answered with the response, and the session ends with the pseudonym
    /// `(a, b)`. Any other message is refused, and so is a base that is the
    /// identity: no session ends with a pseudonym without a base.
    open spec fn answers(self, msg: Message, out: Step<UserNym, Nym>) -> bool {
        match self {
            UserNym::AwaitA { x, seed_a, seed_b, r } => match out {
                Step::Continue(next, send) => {
                    &&& is_base(msg)
                    &&& next matches UserNym::Proving { nym, prover }
                    &&& nym.has_base()
                    &&& nym.a()@ == msg.value@
                    &&& nym.b().is_at(point_mul(x.value(), nym.a().index()))
                    &&& send@.len() == 3
                    &&& send@[0].holds_point(Label::B, nym.b().index())
                    &&& send@[0].value@ == nym.b()@
                    &&& commits(
                        nym_publics(nym, seed_a, seed_b),
                        Secrets { x },
                        r,
                        prover,
                        send@.subrange(1, 3),
                    )
                },
                Step::Reject(e) => !is_base(msg) && e is BadProof,
                Step::Accept(_, _) => false,
            },
            UserNym::Proving { nym, prover } => match out {
                Step::Accept(n, send) => {
                    &&& n == nym
                    &&& n.has_base()
                    &&& prover.answers(msg, Step::Accept((), send))
                },
                Step::Reject(e) => prover.answers(msg, Step::Reject(e)),
                Step::Continue(_, _) => false,
            },
        }
    }

    /// The label of the message that is awaited.
    fn awaiting(&self) -> (label: Label)
    {
        match self {
            UserNym::AwaitA { .. } => Label::A,
            UserNym::Proving { .. } => Label::C,
        }
    }

    /// Takes the message that arrived.
    fn receive(self, msg: Message) -> (out: Step<UserNym, Nym>)
    {
        match self {
            UserNym::AwaitA { x, seed_a, seed_b, r } => match msg.point(Label::A) {
                Ok(a) => {
                    if a.is_identity() {
                        return Step::Reject(Error::BadProof);
                    }
                    let b = a.mul(&x);
                    let nym = Nym { a, b };
                    let publics = Publics { g1: a, h1: b, g2: seed_a, h2: seed_b };
                    let (prover, start) = prove_with(publics, Secrets { x }, r);
                    let mut send: Vec<Message> = Vec::new();
                    send.push(Message::of_point(Label::B, &b));
                    send.push(start[0]);
                    send.push(start[1]);
                    proof {
                        assert(send@.subrange(1, 3) =~= start@);
                    }
                    Step::Continue(UserNym::Proving { nym, prover }, send)
                },
                Err(e) => Step::Reject(e),
            },
            UserNym::Proving { nym, prover } => {
                proof {
                    use_type_invariant(&nym);
                }
                match prover.respond(&msg) {
                    Ok(y) => {
                        let mut send: Vec<Message> = Vec::new();
                        send.push(y);
                        Step::Accept(nym, send)
                    },
                    Err(e) => Step::Reject(e),
                }
            },
        }
    }
}

/// Whether `session` and `send` are what a user with the secret `x` starts
/// the generation of a pseudonym with, from a first seed of index `seed`:
/// the second seed is the first one multiplied by `x`, and both are sent.
pub open spec fn starts_nym(
    x: Scalar,
    seed: nat,
    r: Scalar,
    session: UserNym,
    send: Seq<Message>,
) -> bool {
    &&& session matches UserNym::AwaitA { x: x0, seed_a, seed_b, r: r0 }
    &&& x0 == x
    &&& r0 == r
    &&& seed_a.is_at(seed)
    &&& seed_b.is_at(point_mul(x.value(), seed))
    &&& send.len() == 2
    &&& send[0].holds_point(Label::SeedA, seed_a.index())
    &&& send[1].holds_point(Label::SeedB, seed_b.index())
}

impl User {
    /// Starts to generate a pseudonym, with the seed `gamma` times the base
    /// point and a proof that commits with `r`.
    pub fn generate_nym_with(&self, gamma: Scalar, r: Scalar) -> (out: (UserNym, Vec<Message>))
        ensures
            starts_nym(self.secret(), gamma.value(), r, out.0, out.1@),
    {
        let seed_a = public_point(&gamma);
        let x = self.sk.exponent();
        let seed_b = seed_a.mul(&x);
        self.generate_nym_impl(seed_a, seed_b, r)
    }

    /// Starts to generate a pseudonym, with a fresh random seed.
    pub fn generate_nym(&self) -> (out: (UserNym, Vec<Message>))
        ensures
            exists|gamma: Scalar, r: Scalar|
                starts_nym(self.secret(), gamma.value(), r, out.0, out.1@),
    {
        self.generate_nym_with(Scalar::random(), Scalar::random())
    }

    /// Starts to generate a pseudonym with a certificate authority: the
    /// seeds are the base point and the user's public key. The proof commits
    /// with `r`.
    pub fn generate_nym_with_ca_with(&self, r: Scalar) -> (out: (UserNym, Vec<Message>))
        ensures
            starts_nym(self.secret(), 1, r, out.0, out.1@),
            out.0 matches UserNym::AwaitA { seed_b, .. } && seed_b == self.public().at(),
    {
        let seed_a = Point::basepoint();
        let seed_b = self.pk.point();
        let x = self.sk.exponent();
        proof {
            use_type_invariant(self);
            use_type_invariant(&x);
            assert(x.value() * 1 == x.value()) by (nonlinear_arith);
            vstd::arithmetic::div_mod::lemma_small_mod(x.value(), crate::scalar::group_order());
        }
        self.generate_nym_impl(seed_a, seed_b, r)
    }

    /// Starts to generate a pseudonym with a certificate authority.
    pub fn generate_nym_with_ca(&self) -> (out: (UserNym, Vec<Message>))
        ensures
            exists|r: Scalar| starts_nym(self.secret(), 1, r, out.0, out.1@),
            out.0 matches UserNym::AwaitA { seed_b, .. } && seed_b == self.public().at(),
    {
        self.generate_nym_with_ca_with(Scalar::random())
    }

    /// Sends the seeds and awaits the pseudonym's base.
    fn generate_nym_impl(&self, seed_a: Point, seed_b: Point, r: Scalar) -> (out: (
        UserNym,
        Vec<Message>,
    ))
        ensures
            out.0 == (UserNym::AwaitA { x: self.secret(), seed_a, seed_b, r }),
            out.1@.len() == 2,
            out.1@[0].holds_point(Label::SeedA, seed_a.index()),
            out.1@[1].holds_point(Label::SeedB, seed_b.index()),
    {
        let mut send: Vec<Message> = Vec::new();
        send.push(Message::of_point(Label::SeedA, &seed_a));
        send.push(Message::of_point(Label::SeedB, &seed_b));
        (UserNym::AwaitA { x: self.sk.exponent(), seed_a, seed_b, r }, send)
    }

    /// Starts to authenticate this user as the holder of a given pseudonym,
    /// with a proof that commits with `r`.
    pub fn authenticate_nym_with(&self, nym: Nym, r: Scalar) -> (out: (Prover, Vec<Message>))
        ensures
            commits(authentication_publics(nym), Secrets { x: self.secret() }, r, out.0, out.1@),
    {
        prove_with(
            Publics { g1: nym.a(), h1: nym.b(), g2: nym.a(), h2: nym.b() },
            Secrets { x: self.sk.exponent() },
            r,
        )
    }

    /// Starts to authenticate this user as the holder of a given pseudonym.
    pub fn authenticate_nym(&self, nym: Nym) -> (out: (Prover, Vec<Message>))
        ensures
            commits(
                authentication_publics(nym),
                Secrets { x: self.secret() },
                out.0.r,
                out.0,
                out.1@,
            ),
    {
        self.authenticate_nym_with(nym, Scalar::random())
    }
}

/// The organization's side of the generation of a pseudonym.
pub enum OrgNym {
    /// Awaits the first seed.
    AwaitSeedA {
        /// The scalar that the pseudonym's base is made with.
        r: Scalar,
        /// The challenge of the proof.
        c: Scalar,
        /// The user's registered key, where the organization acts as a
        /// certificate authority.
        user_key: Option<UserPublicKey>,
    },
    /// Awaits the second seed.
    AwaitSeedB {
        /// The scalar that the pseudonym's base is made with.
        r: Scalar,
        /// The challenge of the proof.
        c: Scalar,
        /// The user's registered key, where the organization acts as a
        /// certificate authority.
        user_key: Option<UserPublicKey>,
        /// The first seed.
        seed_a: Point,
    },
    /// Has sent the pseudonym's base and awaits its second point.
    AwaitB {
        /// The challenge of the proof.
        c: Scalar,
        /// The first seed.
        seed_a: Point,
        /// The second seed.
        seed_b: Point,
        /// The pseudonym's base.
        a: Point,
    },
    /// Verifies that the pseudonym is well formed.
    Proving {
        /// The pseudonym.
        nym: Nym,
        /// The proof.
        verifier: Verifier,
    },
}

/// Whether an organization admits the seeds. A certificate authority admits
/// only the base point and the user's registered key; any other organization
/// admits every pair.
pub open spec fn admits_seeds(user_key: Option<UserPublicKey>, seed_a: Point, seed_b: Seq<u8>) -> bool {
    user_key matches Some(key) ==> seed_a.index() == 1 && seed_b == key.at()@
}

/// Whether the first seed, multiplied by `r`, gives a pseudonym a base: the
/// product is not the identity.
pub open spec fn gives_base(r: Scalar, seed_a: Point) -> bool {
    point_mul(r.value(), seed_a.index()) != 0
}

impl Session for OrgNym {
    type Output = Nym;

    /// The label of the message that is awaited.
    open spec fn awaits(self) -> Label {
        match self {
            OrgNym::AwaitSeedA { .. } => Label::SeedA,
            OrgNym::AwaitSeedB { .. } => Label::SeedB,
            OrgNym::AwaitB { .. } => Label::B,
            OrgNym::Proving { verifier, .. } => verifier.awaits(),
        }
    }

    /// Whether `out` is the answer to `msg`. The seeds are taken one after
    /// the other. A certificate authority refuses them unless they are the
    /// base point and the user's registered key. The second seed is answered
    /// with the pseudonym's base `a`, the first seed multiplied by `r`; where
    /// that is the identity the seeds are refused, and nothing is sent. The
    /// second point `b` starts the proof that one secret takes `a` to `b` and
    /// the first seed to the second. When the proof is accepted, the session
    /// ends with the pseudonym `(a, b)`; when it is refused, so is the
    /// session. A message that is not what is awaited is refused. No session
    /// ends with a pseudonym whose base is the identity.
    open spec fn answers(self, msg: Message, out: Step<OrgNym, Nym>) -> bool {
        match self {
            OrgNym::AwaitSeedA { r, c, user_key } => match out {
                Step::Continue(next, send) => {
                    &&& msg.is_point(Label::SeedA)
                    &&& send@.len() == 0
                    &&& next matches OrgNym::AwaitSeedB { r: r1, c: c1, user_key: k1, seed_a }
                    &&& r1 == r
                    &&& c1 == c
                    &&& k1 == user_key
                    &&& seed_a@ == msg.value@
                },
                Step::Reject(e) => !msg.is_point(Label::SeedA) && e is BadProof,
                Step::Accept(_, _) => false,
            },
            OrgNym::AwaitSeedB { r, c, user_key, seed_a } => {
                let admitted = msg.is_point(Label::SeedB) && admits_seeds(
                    user_key,
                    seed_a,
                    msg.value@,
                ) && gives_base(r, seed_a);
                match out {
                    Step::Continue(next, send) => {
                        &&& admitted
                        &&& next matches OrgNym::AwaitB { c: c1, seed_a: s1, seed_b, a }
                        &&& c1 == c
                        &&& s1 == seed_a
                        &&& seed_b@ == msg.value@
                        &&& a.is_at(point_mul(r.value(), seed_a.index()))
                        &&& send@.len() == 1
                        &&& send@[0].holds_point(Label::A, a.index())
                    },
                    Step::Reject(e) => !admitted && e is BadProof,
                    Step::Accept(_, _) => false,
                }
            },
            OrgNym::AwaitB { c, seed_a, seed_b, a } => match out {
                Step::Continue(next, send) => {
                    &&& msg.is_point(Label::B)
                    &&& a.index() != 0
                    &&& send@.len() == 0
                    &&& next matches OrgNym::Proving { nym, verifier }
                    &&& nym.a() == a
                    &&& nym.b()@ == msg.value@
                    &&& verifier == (Verifier::AwaitA {
                        publics: nym_publics(nym, seed_a, seed_b),
                        c,
                    })
                },
                Step::Reject(e) => !(msg.is_point(Label::B) && a.index() != 0) && e is BadProof,
                Step::Accept(_, _) => false,
            },
            OrgNym::Proving { nym, verifier } => match out {
                Step::Continue(OrgNym::Proving { nym: n, verifier: next }, send) => {
                    &&& n == nym
                    &&& n.has_base()
                    &&& verifier.answers(msg, Step::Continue(next, send))
                },
                Step::Continue(_, _) => false,
                Step::Accept(n, send) => {
                    &&& n == nym
                    &&& n.has_base()
                    &&& verifier.answers(msg, Step::Accept((), send))
                },
                Step::Reject(e) => verifier.answers(msg, Step::Reject(e)),
            },
        }
    }

    /// The label of the message that is awaited.
    fn awaiting(&self) -> (label: Label)
    {
        match self {
            OrgNym::AwaitSeedA { .. } => Label::SeedA,
            OrgNym::AwaitSeedB { .. } => Label::SeedB,
            OrgNym::AwaitB { .. } => Label::B,
            OrgNym::Proving { verifier, .. } => verifier.awaiting(),
        }
    }

    /// Takes the message that arrived.
    fn receive(self, msg: Message) -> (out: Step<OrgNym, Nym>)
    {
        match self {
            OrgNym::AwaitSeedA { r, c, user_key } => match msg.point(Label::SeedA) {
                Ok(seed_a) => Step::Continue(
                    OrgNym::AwaitSeedB { r, c, user_key, seed_a },
                    Vec::new(),
                ),
                Err(e) => Step::Reject(e),
            },
            OrgNym::AwaitSeedB { r, c, user_key, seed_a } => match msg.point(Label::SeedB) {
                Ok(seed_b) => {
                    let admitted = match user_key {
                        Some(key) => {
                            let a_ok = seed_a.equals(&Point::basepoint());
                            let b_ok = seed_b.equals(&key.point());
                            a_ok && b_ok
                        },
                        None => true,
                    };
                    if !admitted {
                        return Step::Reject(Error::BadProof);
                    }
                    let a = seed_a.mul(&r);
                    if a.is_identity() {
                        return Step::Reject(Error::BadProof);
                    }
                    let mut send: Vec<Message> = Vec::new();
                    send.push(Message::of_point(Label::A, &a));
                    Step::Continue(OrgNym::AwaitB { c, seed_a, seed_b, a }, send)
                },
                Err(e) => Step::Reject(e),
            },
            OrgNym::AwaitB { c, seed_a, seed_b, a } => match msg.point(Label::B) {
                Ok(b) => {
                    if a.is_identity() {
                        return Step::Reject(Error::BadProof);
                    }
                    let nym = Nym { a, b };
                    let publics = Publics { g1: a, h1: b, g2: seed_a, h2: seed_b };
                    Step::Continue(
                        OrgNym::Proving { nym, verifier: verify_with(publics, c) },
                        Vec::new(),
                    )
                },
                Err(e) => Step::Reject(e),
            },
            OrgNym::Proving { nym, verifier } => {
                proof {
                    use_type_invariant(&nym);
                }
                match verifier.receive(msg) {
                    Step::Continue(next, send) => Step::Continue(
                        OrgNym::Proving { nym, verifier: next },
                        send,
                    ),
                    Step::Accept(_, send) => Step::Accept(nym, send),
                    Step::Reject(e) => Step::Reject(e),
                }
            },
        }
    }
}

impl Org {
    /// Starts to generate a pseudonym: the base will be made with `r`, and
    /// the proof challenged with `c`.
    pub fn generate_nym_with(&self, r: Scalar, c: Scalar) -> (out: OrgNym)
        ensures
            out == (OrgNym::AwaitSeedA { r, c, user_key: None }),
    {
        OrgNym::AwaitSeedA { r, c, user_key: None }
    }

    /// Starts to generate a pseudonym.
    pub fn generate_nym(&self) -> (out: OrgNym)
        ensures
            out matches OrgNym::AwaitSeedA { user_key, .. } && user_key is None,
    {
        self.generate_nym_with(Scalar::random(), Scalar::random())
    }

    /// Starts to generate a pseudonym as the certificate authority, for the
    /// user whose registered key is `user_key`: the base will be made with
    /// `r`, and the proof challenged with `c`.
    pub fn generate_nym_as_ca_with(&self, user_key: UserPublicKey, r: Scalar, c: Scalar) -> (out:
        OrgNym)
        ensures
            out == (OrgNym::AwaitSeedA { r, c, user_key: Some(user_key) }),
    {
        OrgNym::AwaitSeedA { r, c, user_key: Some(user_key) }
    }

    /// Starts to generate a pseudonym as the certificate authority, for the
    /// user whose registered key is `user_key`.
    pub fn generate_nym_as_ca(&self, user_key: UserPublicKey) -> (out: OrgNym)
        ensures
            out matches OrgNym::AwaitSeedA { user_key: key, .. } && key == Some(user_key),
    {
        self.generate_nym_as_ca_with(user_key, Scalar::random(), Scalar::random())
    }

    /// Starts to authenticate a user as the holder of a given pseudonym,
    /// with the challenge `c`.
    pub fn authenticate_nym_with(&self, nym: Nym, c: Scalar) -> (out: Verifier)
        ensures
            out == (Verifier::AwaitA { publics: authentication_publics(nym), c }),
    {
        verify_with(Publics { g1: nym.a(), h1: nym.b(), g2: nym.a(), h2: nym.b() }, c)
    }

    /// Starts to authenticate a user as the holder of a given pseudonym.
    pub fn authenticate_nym(&self, nym: Nym) -> (out: Verifier)
        ensures
            out matches Verifier::AwaitA { publics, .. } && publics == authentication_publics(nym),
    {
        self.authenticate_nym_with(nym, Scalar::random())
    }
}

/// Agreement: both parties end the generation of a pseudonym with the same
/// pseudonym. Where the organization has sent the base and awaits the second
/// point, the user answers the message that carries the base, and the
/// organization takes the first message of that answer, the pseudonym that
/// the organization goes on to verify is the one that the user holds.
pub proof fn lemma_parties_agree_on_nym(
    org: OrgNym,
    user: UserNym,
    to_user: Message,
    user_out: Step<UserNym, Nym>,
    org_out: Step<OrgNym, Nym>,
)
    requires
        org matches OrgNym::AwaitB { a, .. } && to_user.label == Label::A && to_user.value@ == a@,
        user is AwaitA,
        user.answers(to_user, user_out),
        user_out matches Step::Continue(_, send) && org.answers(send@[0], org_out),
    ensures
        user_out matches Step::Continue(UserNym::Proving { nym: held, .. }, _)
            && org_out matches Step::Continue(OrgNym::Proving { nym: seen, .. }, _)
            && held == seen,
{
    match (user_out, org_out) {
        (
            Step::Continue(UserNym::Proving { nym: held, .. }, _),
            Step::Continue(OrgNym::Proving { nym: seen, .. }, _),
        ) => {
            lemma_same_encoding(held.a(), seen.a());
            lemma_same_encoding(held.b(), seen.b());
        },
        _ => {},
    }
}


/// No pseudonym without a base is accepted: whatever state the
/// organization's session is in and whatever arrives, the pseudonym that it
/// ends with has a base that is not the identity.
pub proof fn lemma_org_accepts_no_identity_base(
    session: OrgNym,
    msg: Message,
    out: Step<OrgNym, Nym>,
)
    requires
        session.answers(msg, out),
        out is Accept,
    ensures
        out matches Step::Accept(nym, _) && nym.has_base(),
{
}

/// No pseudonym without a base is accepted: whatever state the user's
/// session is in and whatever arrives, the pseudonym that it ends with has
/// a base that is not the identity.
pub proof fn lemma_user_accepts_no_identity_base(
    session: UserNym,
    msg: Message,
    out: Step<UserNym, Nym>,
)
    requires
        session.answers(msg, out),
        out is Accept,
    ensures
        out matches Step::Accept(nym, _) && nym.has_base(),
{
}

} // verus!
