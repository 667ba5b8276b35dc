//! Whole protocol runs: both parties in one process, joined by a pair of
//! in-memory queues.

use std::collections::VecDeque;

use merlin::Transcript;
use nym::credential::IssuanceBlinds;
use nym::nym::{OrgNym, UserNym};
use nym::proofs::dlog_eq::{Publics, Secrets};
use nym::transport::{Label, Message, Session, Step};
use nym::{Cred, Error, Nym, Org, OrgSecretKey, Point, Scalar, Signature, User, UserSecretKey};
use rand::rngs::StdRng;
use rand::{thread_rng, RngCore, SeedableRng};
use Label::{CredA, CredB, SeedA, SeedB, A, B, C, Y};

/// One party of a run: still running, or ended.
enum Party<S: Session> {
    Running(S),
    Accepted(S::Output),
    Rejected(Error),
}

/// Hands the next message of `inbox` to the party, if it is running and a
/// message is there, and queues what it sends for its peer. Says whether
/// anything happened.
fn advance<S: Session>(
    party: Party<S>,
    inbox: &mut VecDeque<Message>,
    peer: &mut VecDeque<Message>,
    trace: &mut Vec<Label>,
) -> (Party<S>, bool) {
    match party {
        Party::Running(session) => match inbox.pop_front() {
            Some(msg) => {
                trace.push(msg.label);
                assert_eq!(
                    msg.label.as_bytes(),
                    session.awaiting().as_bytes(),
                    "the channel delivers what is awaited"
                );
                match session.receive(msg) {
                    Step::Continue(next, send) => {
                        peer.extend(send);
                        (Party::Running(next), true)
                    }
                    Step::Accept(value, send) => {
                        peer.extend(send);
                        (Party::Accepted(value), true)
                    }
                    Step::Reject(e) => (Party::Rejected(e), true),
                }
            }
            None => (Party::Running(session), false),
        },
        ended => (ended, false),
    }
}

fn outcome<S: Session>(party: Party<S>) -> Result<S::Output, Error> {
    match party {
        Party::Accepted(value) => Ok(value),
        Party::Rejected(e) => Err(e),
        Party::Running(_) => Err(Error::Transport(std::io::Error::new(
            std::io::ErrorKind::UnexpectedEof,
            "the peer ended the conversation",
        ))),
    }
}

/// Runs a user's and an organization's session against each other until
/// neither can go on. Gives both outcomes, and the labels of the messages in
/// the order in which they were delivered.
fn run_traced<U: Session, O: Session>(
    user: (U, Vec<Message>),
    org: (O, Vec<Message>),
) -> (Result<U::Output, Error>, Result<O::Output, Error>, Vec<Label>) {
    let mut to_org: VecDeque<Message> = user.1.into();
    let mut to_user: VecDeque<Message> = org.1.into();
    let mut user = Party::Running(user.0);
    let mut org = Party::Running(org.0);
    let mut trace = Vec::new();
    loop {
        let (next_org, org_moved) = advance(org, &mut to_org, &mut to_user, &mut trace);
        let (next_user, user_moved) = advance(user, &mut to_user, &mut to_org, &mut trace);
        user = next_user;
        org = next_org;
        if !user_moved && !org_moved {
            break;
        }
    }
    (outcome(user), outcome(org), trace)
}

/// As `run_traced`, without the trace.
fn run<U: Session, O: Session>(
    user: (U, Vec<Message>),
    org: (O, Vec<Message>),
) -> (Result<U::Output, Error>, Result<O::Output, Error>) {
    let (u, o, _) = run_traced(user, org);
    (u, o)
}

/// As `run`, where both parties are expected to accept.
fn try_join<U: Session, O: Session>(
    user: (U, Vec<Message>),
    org: (O, Vec<Message>),
) -> Result<(U::Output, O::Output), Error> {
    let (u, o) = run(user, org);
    Ok((u?, o?))
}

fn seed() -> [u8; 32] {
    let mut seed = [0u8; 32];
    thread_rng().fill_bytes(&mut seed);
    seed
}

fn new_user() -> (User, Scalar) {
    let sk = UserSecretKey::random(seed());
    let x = sk.exponent();
    (User::new(sk), x)
}

fn new_org() -> (Org, (Scalar, Scalar)) {
    let sk = OrgSecretKey::random(seed(), seed());
    let x = sk.exponents();
    (Org::new(sk), x)
}

fn random_point() -> Point {
    Point::basepoint().mul(&Scalar::random())
}

#[test]
fn nym_generation() {
    let (user, x) = new_user();
    let (org, _) = new_org();

    let (n1, n2) =
        try_join(user.generate_nym(), (org.generate_nym(), Vec::new())).unwrap();
    assert_eq!(n1, n2, "user and org should compute the same nym");
    assert_eq!(n1.a().mul(&x), n1.b(), "nym should be valid");
}

#[test]
fn nym_authentication() {
    let (user, _) = new_user();
    let (org, _) = new_org();

    let (nym, _) =
        try_join(user.generate_nym(), (org.generate_nym(), Vec::new())).unwrap();

    let res = try_join(
        user.authenticate_nym(nym),
        (org.authenticate_nym(nym), Vec::new()),
    );
    assert!(matches!(res, Ok(_)));
}

#[test]
fn cred_issuance() {
    let (user, x) = new_user();
    let (org, (x1, x2)) = new_org();

    let (nym, _) =
        try_join(user.generate_nym(), (org.generate_nym(), Vec::new())).unwrap();

    let (cred, _) = try_join(
        (user.issue_credential(nym, org.public_key()), Vec::new()),
        org.issue_credential(nym),
    )
    .unwrap();

    assert_eq!(cred.a.mul(&x), cred.b);
    assert_eq!(cred.b.mul(&x2), cred.A);
    assert_eq!(cred.a.add(&cred.A).mul(&x1), cred.B);
}

#[test]
fn cred_transfer() {
    let (user, _) = new_user();
    let (org1, _) = new_org();
    let (org2, _) = new_org();

    let (nym, _) =
        try_join(user.generate_nym(), (org1.generate_nym(), Vec::new())).unwrap();

    let (cred, _) = try_join(
        (user.issue_credential(nym, org1.public_key()), Vec::new()),
        org1.issue_credential(nym),
    )
    .unwrap();

    let res = try_join(
        user.transfer_credential(nym, cred),
        (
            org2.transfer_credential(nym, cred, org1.public_key())
                .unwrap(),
            Vec::new(),
        ),
    );
    assert!(matches!(res, Ok(_)));
}

#[test]
fn sign_with_nym() {
    // the secret key is derived from the seed alone, so the same seed gives
    // the key that the user holds
    let seed = seed();
    let user = User::new(UserSecretKey::random(seed));
    let user_sk = UserSecretKey::random(seed);
    let (org, _) = new_org();

    let (n1, n2) =
        try_join(user.generate_nym(), (org.generate_nym(), Vec::new())).unwrap();
    let make_t = || {
        let mut t = Transcript::new(b"test-transcript");
        t.append_message(b"test", b"please sign this!");
        t
    };
    let sig = user_sk.sign(make_t(), &n1);
    let res = n2.verify(make_t(), &sig);
    assert!(matches!(res, Ok(_)));

    let sig = user_sk.sign(Transcript::new(b"bad-transcript"), &n1);
    let res = n2.verify(make_t(), &sig);
    assert!(matches!(res, Err(Error::BadSignature)));

    let sig = user_sk.sign(
        make_t(),
        &Nym::new(random_point(), n1.b()).unwrap(),
    );
    let res = n2.verify(make_t(), &sig);
    assert!(matches!(res, Err(Error::BadSignature)));
}

/// A source of scalars and seeds that gives the same sequence every time.
struct Fixed(StdRng);

impl Fixed {
    fn new() -> Fixed {
        Fixed(StdRng::from_seed([0xA5; 32]))
    }

    fn seed(&mut self) -> [u8; 32] {
        let mut seed = [0u8; 32];
        self.0.fill_bytes(&mut seed);
        seed
    }

    fn scalar(&mut self) -> Scalar {
        let mut wide = [0u8; 64];
        self.0.fill_bytes(&mut wide);
        Scalar::from_bytes_mod_order_wide(&wide)
    }

    fn user(&mut self) -> (User, Scalar) {
        let sk = UserSecretKey::random(self.seed());
        let x = sk.exponent();
        (User::new(sk), x)
    }

    fn org(&mut self) -> (Org, (Scalar, Scalar)) {
        let sk = OrgSecretKey::random(self.seed(), self.seed());
        let x = sk.exponents();
        (Org::new(sk), x)
    }

    fn blinds(&mut self) -> IssuanceBlinds {
        IssuanceBlinds {
            gamma: self.scalar(),
            alpha1: self.scalar(),
            beta1: self.scalar(),
            alpha2: self.scalar(),
            beta2: self.scalar(),
        }
    }

    fn nym(&mut self, user: &User, org: &Org) -> Nym {
        let (n1, n2) = try_join(
            user.generate_nym_with(self.scalar(), self.scalar()),
            (org.generate_nym_with(self.scalar(), self.scalar()), Vec::new()),
        )
        .unwrap();
        assert_eq!(n1, n2);
        n1
    }

    fn cred(&mut self, user: &User, org: &Org, nym: Nym) -> Cred {
        let (cred, ()) = try_join(
            (user.issue_credential_with(nym, org.public_key(), self.blinds()), Vec::new()),
            org.issue_credential_with(nym, self.scalar(), self.scalar()),
        )
        .unwrap();
        cred
    }
}

#[test]
fn seeded_nym_agreement() {
    let mut rng = Fixed::new();
    let (user, x) = rng.user();
    let (org, _) = rng.org();
    let (n1, n2) = try_join(
        user.generate_nym_with(rng.scalar(), rng.scalar()),
        (org.generate_nym_with(rng.scalar(), rng.scalar()), Vec::new()),
    )
    .unwrap();
    assert_eq!(n1, n2);
    assert_eq!(n1.a().mul(&x), n1.b());
}

#[test]
fn seeded_run_is_reproducible() {
    let once = || {
        let mut rng = Fixed::new();
        let (user, _) = rng.user();
        let (org, _) = rng.org();
        let nym = rng.nym(&user, &org);
        let cred = rng.cred(&user, &org, nym);
        (nym, cred)
    };
    assert_eq!(once(), once());
}

#[test]
fn nym_is_made_of_both_parties_scalars() {
    let mut rng = Fixed::new();
    let (user, x) = rng.user();
    let (org, _) = rng.org();
    let gamma = rng.scalar();
    let r = rng.scalar();
    let (n1, n2) = try_join(
        user.generate_nym_with(gamma, rng.scalar()),
        (org.generate_nym_with(r, rng.scalar()), Vec::new()),
    )
    .unwrap();
    // a = r * gamma * G and b = x * a
    let a = Point::basepoint().mul(&gamma).mul(&r);
    assert_eq!(n1, Nym::new(a, a.mul(&x)).unwrap());
    assert_eq!(n2, n1);
}

#[test]
fn seeded_authentication_round_trip() {
    let mut rng = Fixed::new();
    let (user, _) = rng.user();
    let (org, _) = rng.org();
    let nym = rng.nym(&user, &org);
    let res = try_join(
        user.authenticate_nym_with(nym, rng.scalar()),
        (org.authenticate_nym_with(nym, rng.scalar()), Vec::new()),
    );
    assert!(matches!(res, Ok(((), ()))));
}

#[test]
fn authentication_of_another_users_nym_is_refused() {
    let mut rng = Fixed::new();
    let (user, _) = rng.user();
    let (intruder, _) = rng.user();
    let (org, _) = rng.org();
    let nym = rng.nym(&user, &org);
    let (_, verdict) = run(
        intruder.authenticate_nym_with(nym, rng.scalar()),
        (org.authenticate_nym_with(nym, rng.scalar()), Vec::new()),
    );
    assert!(matches!(verdict, Err(Error::BadProof)));
}

#[test]
fn seeded_issuance_then_verify() {
    let mut rng = Fixed::new();
    let (user, x) = rng.user();
    let (org, (x1, x2)) = rng.org();
    let nym = rng.nym(&user, &org);
    let blinds = rng.blinds();
    let (cred, ()) = try_join(
        (user.issue_credential_with(nym, org.public_key(), blinds), Vec::new()),
        org.issue_credential_with(nym, rng.scalar(), rng.scalar()),
    )
    .unwrap();
    assert_eq!(cred.b, cred.a.mul(&x));
    assert_eq!(cred.A, cred.b.mul(&x2));
    assert_eq!(cred.B, cred.a.add(&cred.A).mul(&x1));
    // the credential is the nym and the issuer's points, multiplied by gamma
    assert_eq!(cred.a, nym.a().mul(&blinds.gamma));
    assert_eq!(cred.b, nym.b().mul(&blinds.gamma));
    assert_eq!(cred.A, nym.b().mul(&x2).mul(&blinds.gamma));
    assert_eq!(cred.B, nym.a().add(&nym.b().mul(&x2)).mul(&x1).mul(&blinds.gamma));
    // and its two proofs verify against the issuer's public key
    let (y1, y2) = org.public_key().points();
    let g = Point::basepoint();
    assert!(cred.T1.verify(Publics { g1: g, h1: y2, g2: cred.b, h2: cred.A }).is_ok());
    assert!(cred
        .T2
        .verify(Publics { g1: g, h1: y1, g2: cred.a.add(&cred.A), h2: cred.B })
        .is_ok());
}

#[test]
fn issuance_by_an_org_with_another_key_is_refused() {
    let mut rng = Fixed::new();
    let (user, _) = rng.user();
    let (org, _) = rng.org();
    let (other, _) = rng.org();
    let nym = rng.nym(&user, &org);
    let (cred, _) = run(
        (user.issue_credential_with(nym, other.public_key(), rng.blinds()), Vec::new()),
        org.issue_credential_with(nym, rng.scalar(), rng.scalar()),
    );
    assert!(matches!(cred, Err(Error::BadProof)));
}

#[test]
fn seeded_transfer_across_two_orgs() {
    let mut rng = Fixed::new();
    let (user, _) = rng.user();
    let (org1, _) = rng.org();
    let (org2, _) = rng.org();
    let nym1 = rng.nym(&user, &org1);
    let cred = rng.cred(&user, &org1, nym1);
    let nym2 = rng.nym(&user, &org2);
    assert_ne!(nym1.a(), nym2.a());

    let verifier = org2
        .transfer_credential_with(nym2, cred, org1.public_key(), rng.scalar())
        .unwrap();
    let res = try_join(
        user.transfer_credential_with(nym2, cred, rng.scalar()),
        (verifier, Vec::new()),
    );
    assert!(matches!(res, Ok(((), ()))));

    // with the credential's first point replaced, the showing is refused
    let forged = Cred { a: random_point(), ..cred };
    let res = org2.transfer_credential_with(nym2, forged, org1.public_key(), rng.scalar());
    let verdict = match res {
        Ok(verifier) => {
            run(user.transfer_credential_with(nym2, forged, rng.scalar()), (verifier, Vec::new())).1
        }
        Err(e) => Err(e),
    };
    assert!(matches!(verdict, Err(Error::BadProof)));
}

#[test]
fn transfer_of_a_tampered_credential_is_refused_at_once() {
    let mut rng = Fixed::new();
    let (user, _) = rng.user();
    let (org1, _) = rng.org();
    let (org2, _) = rng.org();
    let nym = rng.nym(&user, &org1);
    let cred = rng.cred(&user, &org1, nym);
    let key = org1.public_key();
    let one = Scalar::from_bytes_mod_order_wide(&{
        let mut wide = [0u8; 64];
        wide[0] = 1;
        wide
    });
    let g = Point::basepoint();
    let refused = |cred: Cred| {
        matches!(org2.transfer_credential(nym, cred, key), Err(Error::BadProof))
    };
    assert!(!refused(cred));
    assert!(refused(Cred { b: cred.b.add(&g), ..cred }));
    assert!(refused(Cred { A: cred.A.add(&g), ..cred }));
    assert!(refused(Cred { B: cred.B.add(&g), ..cred }));
    assert!(refused(Cred { a: cred.a.add(&g), ..cred }));
    let mut t1 = cred.T1;
    t1.y = t1.y.add(&one);
    assert!(refused(Cred { T1: t1, ..cred }));
    let mut t2 = cred.T2;
    t2.c = t2.c.add(&one);
    assert!(refused(Cred { T2: t2, ..cred }));
    assert!(refused(Cred { T1: cred.T2, T2: cred.T1, ..cred }));
    // and against the key of an organization that did not issue it
    assert!(matches!(
        org2.transfer_credential(nym, cred, org2.public_key()),
        Err(Error::BadProof)
    ));
}

#[test]
fn transfer_with_another_secret_is_refused() {
    let mut rng = Fixed::new();
    let (user, _) = rng.user();
    let (thief, _) = rng.user();
    let (org1, _) = rng.org();
    let (org2, _) = rng.org();
    let nym1 = rng.nym(&user, &org1);
    let cred = rng.cred(&user, &org1, nym1);
    let nym2 = rng.nym(&user, &org2);
    let verifier = org2
        .transfer_credential_with(nym2, cred, org1.public_key(), rng.scalar())
        .unwrap();
    let (_, verdict) =
        run(thief.transfer_credential_with(nym2, cred, rng.scalar()), (verifier, Vec::new()));
    assert!(matches!(verdict, Err(Error::BadProof)));
}

#[test]
fn transfer_under_a_nym_of_another_user_is_refused() {
    let mut rng = Fixed::new();
    let (user, _) = rng.user();
    let (other, _) = rng.user();
    let (org1, _) = rng.org();
    let (org2, _) = rng.org();
    let nym1 = rng.nym(&user, &org1);
    let cred = rng.cred(&user, &org1, nym1);
    let foreign = rng.nym(&other, &org2);
    let verifier = org2
        .transfer_credential_with(foreign, cred, org1.public_key(), rng.scalar())
        .unwrap();
    let (_, verdict) =
        run(user.transfer_credential_with(foreign, cred, rng.scalar()), (verifier, Vec::new()));
    assert!(matches!(verdict, Err(Error::BadProof)));
}

#[test]
fn two_nyms_of_one_user_differ() {
    let (user, x) = new_user();
    let (org, _) = new_org();
    let (n1, _) = try_join(user.generate_nym(), (org.generate_nym(), Vec::new())).unwrap();
    let (n2, _) = try_join(user.generate_nym(), (org.generate_nym(), Vec::new())).unwrap();
    assert_ne!(n1.a(), n2.a());
    assert_ne!(n1.b(), n2.b());
    assert_eq!(n1.a().mul(&x), n1.b());
    assert_eq!(n2.a().mul(&x), n2.b());
}

#[test]
fn two_credentials_on_one_nym_share_no_point() {
    let (user, _) = new_user();
    let (org, _) = new_org();
    let (nym, _) = try_join(user.generate_nym(), (org.generate_nym(), Vec::new())).unwrap();
    let issue = || {
        try_join(
            (user.issue_credential(nym, org.public_key()), Vec::new()),
            org.issue_credential(nym),
        )
        .unwrap()
        .0
    };
    let c1 = issue();
    let c2 = issue();
    let first = [c1.a, c1.b, c1.A, c1.B];
    let second = [c2.a, c2.b, c2.A, c2.B];
    for p in first {
        for q in second {
            assert_ne!(p, q);
        }
    }
    assert_ne!(c1.T1, c2.T1);
    assert_ne!(c1.T2, c2.T2);
}

#[test]
fn ca_accepts_the_registered_user() {
    let mut rng = Fixed::new();
    let (user, x) = rng.user();
    let (ca, _) = rng.org();
    let (n1, n2) = try_join(
        user.generate_nym_with_ca_with(rng.scalar()),
        (
            ca.generate_nym_as_ca_with(user.public_key(), rng.scalar(), rng.scalar()),
            Vec::new(),
        ),
    )
    .unwrap();
    assert_eq!(n1, n2);
    assert_eq!(n1.a().mul(&x), n1.b());
    let (n1, n2) = try_join(
        user.generate_nym_with_ca(),
        (ca.generate_nym_as_ca(user.public_key()), Vec::new()),
    )
    .unwrap();
    assert_eq!(n1, n2);
}

#[test]
fn ca_sends_the_seeds_it_is_registered_with() {
    let mut rng = Fixed::new();
    let (user, _) = rng.user();
    let (_, send) = user.generate_nym_with_ca_with(rng.scalar());
    assert_eq!(
        send,
        vec![
            Message::of_point(Label::SeedA, &Point::basepoint()),
            Message::of_point(Label::SeedB, &user.public_key().point()),
        ]
    );
}

#[test]
fn ca_refuses_a_forged_second_seed() {
    let mut rng = Fixed::new();
    let (user, _) = rng.user();
    let (forger, _) = rng.user();
    let (ca, _) = rng.org();
    // the forger sends its own key where the registered one is expected
    let (_, verdict) = run(
        forger.generate_nym_with_ca_with(rng.scalar()),
        (
            ca.generate_nym_as_ca_with(user.public_key(), rng.scalar(), rng.scalar()),
            Vec::new(),
        ),
    );
    assert!(matches!(verdict, Err(Error::BadProof)));
}

#[test]
fn ca_refuses_a_first_seed_that_is_not_the_base_point() {
    let mut rng = Fixed::new();
    let (user, _) = rng.user();
    let (ca, _) = rng.org();
    // an ordinary generation, with a fresh seed, is refused by a CA
    let (_, verdict) = run(
        user.generate_nym_with(rng.scalar(), rng.scalar()),
        (
            ca.generate_nym_as_ca_with(user.public_key(), rng.scalar(), rng.scalar()),
            Vec::new(),
        ),
    );
    assert!(matches!(verdict, Err(Error::BadProof)));
    // the refusal comes when both seeds are in, before anything is sent
    let session = ca.generate_nym_as_ca_with(user.public_key(), rng.scalar(), rng.scalar());
    let other = Point::basepoint().add(&Point::basepoint());
    let session = match session.receive(Message::of_point(Label::SeedA, &other)) {
        Step::Continue(next, send) => {
            assert!(send.is_empty());
            next
        }
        _ => panic!("the first seed is taken"),
    };
    assert!(matches!(session, OrgNym::AwaitSeedB { .. }));
    let out = session.receive(Message::of_point(Label::SeedB, &user.public_key().point()));
    assert!(matches!(out, Step::Reject(Error::BadProof)));
}

#[test]
fn an_org_that_is_no_ca_admits_any_seeds() {
    let mut rng = Fixed::new();
    let (org, _) = rng.org();
    let session = org.generate_nym_with(rng.scalar(), rng.scalar());
    let session = match session.receive(Message::of_point(Label::SeedA, &random_point())) {
        Step::Continue(next, _) => next,
        _ => panic!("the first seed is taken"),
    };
    let out = session.receive(Message::of_point(Label::SeedB, &random_point()));
    assert!(matches!(out, Step::Continue(OrgNym::AwaitB { .. }, _)));
}

#[test]
fn nym_generation_with_a_wrong_second_point_is_refused() {
    let mut rng = Fixed::new();
    let (user, _) = rng.user();
    let (org, _) = rng.org();
    let (session, send) = user.generate_nym_with(rng.scalar(), rng.scalar());
    let mut org_session = org.generate_nym_with(rng.scalar(), rng.scalar());
    let mut to_user = Vec::new();
    for msg in send {
        org_session = match org_session.receive(msg) {
            Step::Continue(next, out) => {
                to_user.extend(out);
                next
            }
            _ => panic!("the seeds are taken"),
        };
    }
    let (prover, mut send) = match session.receive(to_user[0]) {
        Step::Continue(UserNym::Proving { prover, .. }, send) => (prover, send),
        _ => panic!("the base is taken"),
    };
    // the user claims another second point than its secret gives
    send[0] = Message::of_point(Label::B, &random_point());
    let verdict = run((prover, send), (org_session, Vec::new())).1;
    assert!(matches!(verdict, Err(Error::BadProof)));
}

#[test]
fn messages_travel_under_the_written_labels() {
    let mut rng = Fixed::new();
    let (user, _) = rng.user();
    let (org, _) = rng.org();

    let (nym, _, trace) = run_traced(
        user.generate_nym_with(rng.scalar(), rng.scalar()),
        (org.generate_nym_with(rng.scalar(), rng.scalar()), Vec::new()),
    );
    let nym = nym.unwrap();
    assert_eq!(trace, vec![SeedA, SeedB, A, B, A, B, C, Y]);

    let (_, _, trace) = run_traced(
        user.authenticate_nym_with(nym, rng.scalar()),
        (org.authenticate_nym_with(nym, rng.scalar()), Vec::new()),
    );
    assert_eq!(trace, vec![A, B, C, Y]);

    let (cred, _, trace) = run_traced(
        (user.issue_credential_with(nym, org.public_key(), rng.blinds()), Vec::new()),
        org.issue_credential_with(nym, rng.scalar(), rng.scalar()),
    );
    let cred = cred.unwrap();
    assert_eq!(trace, vec![CredA, CredB, A, B, C, Y, A, B, C, Y]);

    let verifier = org
        .transfer_credential_with(nym, cred, org.public_key(), rng.scalar())
        .unwrap();
    let (_, _, trace) =
        run_traced(user.transfer_credential_with(nym, cred, rng.scalar()), (verifier, Vec::new()));
    assert_eq!(trace, vec![A, B, C, Y]);
}

#[test]
fn sessions_await_the_written_labels() {
    let mut rng = Fixed::new();
    let (user, _) = rng.user();
    let (org, _) = rng.org();
    let (session, _) = user.generate_nym_with(rng.scalar(), rng.scalar());
    assert_eq!(session.awaiting(), Label::A);
    assert_eq!(org.generate_nym_with(rng.scalar(), rng.scalar()).awaiting(), Label::SeedA);
    let nym = rng.nym(&user, &org);
    let session = user.issue_credential_with(nym, org.public_key(), rng.blinds());
    assert_eq!(session.awaiting(), Label::CredA);
    let (session, _) = org.issue_credential_with(nym, rng.scalar(), rng.scalar());
    assert_eq!(session.awaiting(), Label::C);
}

#[test]
fn a_message_with_another_label_ends_the_session() {
    let mut rng = Fixed::new();
    let (user, _) = rng.user();
    let (org, _) = rng.org();
    let p = random_point();
    let (session, _) = user.generate_nym_with(rng.scalar(), rng.scalar());
    assert!(matches!(
        session.receive(Message::of_point(Label::B, &p)),
        Step::Reject(Error::BadProof)
    ));
    let session = org.generate_nym_with(rng.scalar(), rng.scalar());
    assert!(matches!(
        session.receive(Message::of_point(Label::SeedB, &p)),
        Step::Reject(Error::BadProof)
    ));
    let nym = rng.nym(&user, &org);
    let session = user.issue_credential_with(nym, org.public_key(), rng.blinds());
    assert!(matches!(
        session.receive(Message::of_point(Label::CredB, &p)),
        Step::Reject(Error::BadProof)
    ));
    let (session, _) = org.issue_credential_with(nym, rng.scalar(), rng.scalar());
    assert!(matches!(
        session.receive(Message::of_scalar(Label::Y, &rng.scalar())),
        Step::Reject(Error::BadProof)
    ));
}

#[test]
fn issuance_sends_the_issuers_points_first() {
    let mut rng = Fixed::new();
    let (user, _) = rng.user();
    let (org, (x1, x2)) = rng.org();
    let nym = rng.nym(&user, &org);
    let r1 = rng.scalar();
    let (_, send) = org.issue_credential_with(nym, r1, rng.scalar());
    let big_a = nym.b().mul(&x2);
    let big_b = nym.a().add(&big_a).mul(&x1);
    assert_eq!(
        send,
        vec![
            Message::of_point(Label::CredA, &big_a),
            Message::of_point(Label::CredB, &big_b),
            Message::of_point(Label::A, &Point::basepoint().mul(&r1)),
            Message::of_point(Label::B, &nym.b().mul(&r1)),
        ]
    );
}

#[test]
fn ownership_of_an_org_key_is_proved() {
    let mut rng = Fixed::new();
    let sk = OrgSecretKey::random(rng.seed(), rng.seed());
    let pk = sk.to_public();
    let (proved, verified, trace) = run_traced(
        (pk.verify_ownership_with(rng.scalar(), rng.scalar()), Vec::new()),
        sk.prove_ownership_with(rng.scalar(), rng.scalar()),
    );
    assert!(proved.is_ok());
    assert!(verified.is_ok());
    assert_eq!(trace, vec![A, B, C, Y, A, B, C, Y]);
    let res = try_join((pk.verify_ownership(), Vec::new()), sk.prove_ownership());
    assert!(matches!(res, Ok(((), ()))));
}

#[test]
fn ownership_of_another_key_is_refused() {
    let mut rng = Fixed::new();
    let sk = OrgSecretKey::random(rng.seed(), rng.seed());
    let other = OrgSecretKey::random(rng.seed(), rng.seed()).to_public();
    let (verdict, _) = run(
        (other.verify_ownership_with(rng.scalar(), rng.scalar()), Vec::new()),
        sk.prove_ownership_with(rng.scalar(), rng.scalar()),
    );
    assert!(matches!(verdict, Err(Error::BadProof)));
    // the second half is proved too: a key with only the first half right
    let (y1, _) = sk.to_public().points();
    let (_, z2) = other.points();
    let half = nym::OrgPublicKey::from_points(y1, z2);
    let (verdict, _) = run(
        (half.verify_ownership_with(rng.scalar(), rng.scalar()), Vec::new()),
        sk.prove_ownership_with(rng.scalar(), rng.scalar()),
    );
    assert!(matches!(verdict, Err(Error::BadProof)));
}

#[test]
fn a_party_left_alone_sees_the_channel_end() {
    let mut rng = Fixed::new();
    let (user, _) = rng.user();
    let (intruder, _) = rng.user();
    let (org, _) = rng.org();
    let nym = rng.nym(&user, &org);
    // the prover has sent its last message when the verifier refuses
    let (prover, verdict) = run(
        intruder.authenticate_nym_with(nym, rng.scalar()),
        (org.authenticate_nym_with(nym, rng.scalar()), Vec::new()),
    );
    assert!(prover.is_ok());
    assert!(matches!(verdict, Err(Error::BadProof)));
    // a verifier whose prover never speaks is left waiting
    let (verdict, _) = run(
        (org.authenticate_nym_with(nym, rng.scalar()), Vec::new()),
        (org.authenticate_nym_with(nym, rng.scalar()), Vec::new()),
    );
    assert!(matches!(verdict, Err(Error::Transport(_))));
}

fn signed_transcript() -> Transcript {
    let mut t = Transcript::new(b"test-transcript");
    t.append_message(b"test", b"please sign this!");
    t
}

#[test]
fn seeded_sign_and_verify_with_nym() {
    let mut rng = Fixed::new();
    let seed = rng.seed();
    let user = User::new(UserSecretKey::random(seed));
    let sk = UserSecretKey::random(seed);
    let (org, _) = rng.org();
    let (n1, n2) = try_join(
        user.generate_nym_with(rng.scalar(), rng.scalar()),
        (org.generate_nym_with(rng.scalar(), rng.scalar()), Vec::new()),
    )
    .unwrap();
    let sig = sk.sign_with(signed_transcript(), &n1, rng.scalar());
    assert!(n2.verify(signed_transcript(), &sig).is_ok());
    // another transcript
    let mut other = Transcript::new(b"test-transcript");
    other.append_message(b"test", b"please sign that!");
    assert!(matches!(n2.verify(other, &sig), Err(Error::BadSignature)));
    // a changed nym
    let changed = Nym::new(n2.a(), n2.b().add(&n2.a())).unwrap();
    assert!(matches!(changed.verify(signed_transcript(), &sig), Err(Error::BadSignature)));
    let changed = Nym::new(n2.a().add(&n2.a()), n2.b()).unwrap();
    assert!(matches!(changed.verify(signed_transcript(), &sig), Err(Error::BadSignature)));
    // a changed signature
    let changed = Signature { s: sig.s.add(&sig.s), ..sig };
    assert!(matches!(n2.verify(signed_transcript(), &changed), Err(Error::BadSignature)));
    let changed = Signature { R: sig.R.add(&n2.a()), ..sig };
    assert!(matches!(n2.verify(signed_transcript(), &changed), Err(Error::BadSignature)));
    // another signer
    let other = UserSecretKey::random(rng.seed());
    let sig = other.sign_with(signed_transcript(), &n1, rng.scalar());
    assert!(matches!(n2.verify(signed_transcript(), &sig), Err(Error::BadSignature)));
}

#[test]
fn signature_is_the_commitment_and_the_response() {
    let mut rng = Fixed::new();
    let sk = UserSecretKey::random(rng.seed());
    let x = sk.exponent();
    let a = random_point();
    let nym = Nym::new(a, a.mul(&x)).unwrap();
    let r = rng.scalar();
    let sig = sk.sign_with(signed_transcript(), &nym, r);
    assert_eq!(sig.R, a.mul(&r));

    let mut t = signed_transcript();
    t.append_message(b"proto-name", b"Schnorr-sig");
    t.append_message(b"sign:pk", &nym.b().to_bytes());
    t.append_message(b"sign:R", &sig.R.to_bytes());
    let mut wide = [0u8; 64];
    t.challenge_bytes(b"sign:c", &mut wide);
    let k = Scalar::from_bytes_mod_order_wide(&wide);
    assert_eq!(sig.s, r.add(&k.mul(&x)));
}

#[test]
fn signature_under_the_base_point_is_a_schnorrkel_signature() {
    // with the base point as the nym's base, the scheme is the standard one
    let seed = [0x42; 32];
    let sk = UserSecretKey::random(seed);
    let nym = Nym::new(Point::basepoint(), sk.to_public().point()).unwrap();
    let theirs = schnorrkel::MiniSecretKey::from_bytes(&seed)
        .unwrap()
        .expand(schnorrkel::ExpansionMode::Uniform);
    let their_public = theirs.to_public();

    // ours verifies with schnorrkel
    let sig = sk.sign(signed_transcript(), &nym);
    let converted = schnorrkel::Signature::from_bytes(&sig.to_bytes()).unwrap();
    assert!(their_public.verify(signed_transcript(), &converted).is_ok());
    assert_eq!(converted.to_bytes().to_vec(), sig.to_bytes());

    // schnorrkel's verifies with ours
    let bytes = theirs.sign(signed_transcript(), &their_public).to_bytes();
    let converted = Signature::from_bytes(&bytes).unwrap();
    assert!(nym.verify(signed_transcript(), &converted).is_ok());
    assert_eq!(converted.to_bytes(), bytes.to_vec());
}

#[test]
fn signature_is_encoded_as_its_commitment_and_marked_response() {
    let mut rng = Fixed::new();
    let sk = UserSecretKey::random(rng.seed());
    let a = random_point();
    let nym = Nym::new(a, a.mul(&sk.exponent())).unwrap();
    let sig = sk.sign_with(signed_transcript(), &nym, rng.scalar());
    let bytes = sig.to_bytes();
    assert_eq!(bytes.len(), 64);
    assert_eq!(bytes[..32], sig.R.to_bytes());
    assert_eq!(bytes[32..63], sig.s.to_bytes()[..31]);
    assert_eq!(bytes[63], sig.s.to_bytes()[31] | 0x80);
    assert_eq!(Signature::from_bytes(&bytes), Some(sig));
    // without the mark, with a wrong length or with a malformed part
    let mut unmarked = bytes.clone();
    unmarked[63] &= 0x7f;
    assert_eq!(Signature::from_bytes(&unmarked), None);
    assert_eq!(Signature::from_bytes(&bytes[..63]), None);
    let mut long = bytes.clone();
    long.push(0);
    assert_eq!(Signature::from_bytes(&long), None);
    let mut bad_point = bytes.clone();
    bad_point[..32].copy_from_slice(&[0xff; 32]);
    assert_eq!(Signature::from_bytes(&bad_point), None);
    let mut bad_scalar = bytes.clone();
    bad_scalar[32..].copy_from_slice(&[0xff; 32]);
    assert_eq!(Signature::from_bytes(&bad_scalar), None);
}

#[test]
fn nym_and_credential_are_encoded_field_by_field() {
    let mut rng = Fixed::new();
    let (user, _) = rng.user();
    let (org, _) = rng.org();
    let nym = rng.nym(&user, &org);
    let cred = rng.cred(&user, &org, nym);

    let bytes = nym.to_bytes();
    assert_eq!(bytes, [nym.a().to_bytes(), nym.b().to_bytes()].concat());
    assert_eq!(Nym::from_bytes(&bytes), Some(nym));
    assert_eq!(Nym::from_bytes(&bytes[..63]), None);
    assert_eq!(Nym::from_bytes(&[0xff; 64]), None);

    let t = cred.T1.to_bytes();
    assert_eq!(
        t,
        [cred.T1.a.to_bytes(), cred.T1.b.to_bytes(), cred.T1.c.to_bytes(), cred.T1.y.to_bytes()]
            .concat()
    );
    assert_eq!(nym::proofs::dlog_eq::Transcript::from_bytes(&t), Some(cred.T1));
    assert_eq!(nym::proofs::dlog_eq::Transcript::from_bytes(&t[1..]), None);
    for part in 0..4 {
        let mut bad = t.clone();
        bad[32 * part..32 * part + 32].copy_from_slice(&[0xff; 32]);
        assert_eq!(nym::proofs::dlog_eq::Transcript::from_bytes(&bad), None);
    }

    let bytes = cred.to_bytes();
    assert_eq!(bytes.len(), 384);
    assert_eq!(
        bytes,
        [
            cred.a.to_bytes().to_vec(),
            cred.b.to_bytes().to_vec(),
            cred.A.to_bytes().to_vec(),
            cred.B.to_bytes().to_vec(),
            cred.T1.to_bytes(),
            cred.T2.to_bytes(),
        ]
        .concat()
    );
    assert_eq!(Cred::from_bytes(&bytes), Some(cred));
    assert_eq!(Cred::from_bytes(&bytes[..383]), None);
    for part in 0..12 {
        let mut bad = bytes.clone();
        bad[32 * part..32 * part + 32].copy_from_slice(&[0xff; 32]);
        assert_eq!(Cred::from_bytes(&bad), None, "part {}", part);
    }
    // a decoded credential is shown like the one that was issued
    let decoded = Cred::from_bytes(&bytes).unwrap();
    assert!(org.transfer_credential(nym, decoded, org.public_key()).is_ok());
}

#[test]
fn honest_prover_and_verifier_accept() {
    for _ in 0..4 {
        let x = Scalar::random();
        let g1 = random_point();
        let g2 = random_point();
        let publics = Publics { g1, h1: g1.mul(&x), g2, h2: g2.mul(&x) };
        let res = try_join(
            nym::proofs::dlog_eq::prove(publics, Secrets { x }),
            (nym::proofs::dlog_eq::verify(publics), Vec::new()),
        );
        assert!(matches!(res, Ok(((), ()))));
        let (t, ()) = try_join(
            (
                nym::proofs::blind_dlog_eq::verify(
                    publics,
                    nym::proofs::blind_dlog_eq::VerifierSecrets { gamma: Scalar::random() },
                ),
                Vec::new(),
            ),
            nym::proofs::blind_dlog_eq::prove(publics, Secrets { x }),
        )
        .unwrap();
        assert_ne!(t.a, t.b);
    }
}

#[test]
fn a_prover_without_the_secret_is_refused() {
    let x = Scalar::random();
    let g1 = random_point();
    let g2 = random_point();
    let publics = Publics { g1, h1: g1.mul(&x), g2, h2: g2.mul(&x) };
    let (_, verdict) = run(
        nym::proofs::dlog_eq::prove(publics, Secrets { x: Scalar::random() }),
        (nym::proofs::dlog_eq::verify(publics), Vec::new()),
    );
    assert!(matches!(verdict, Err(Error::BadProof)));
    let (verdict, _) = run(
        (
            nym::proofs::blind_dlog_eq::verify(
                publics,
                nym::proofs::blind_dlog_eq::VerifierSecrets { gamma: Scalar::random() },
            ),
            Vec::new(),
        ),
        nym::proofs::blind_dlog_eq::prove(publics, Secrets { x: Scalar::random() }),
    );
    assert!(matches!(verdict, Err(Error::BadProof)));
}

fn zero() -> Scalar {
    Scalar::from_bytes([0u8; 32]).unwrap()
}

fn identity() -> Point {
    Point::from_bytes([0u8; 32]).unwrap()
}

#[test]
fn org_refuses_seeds_that_give_the_identity_as_base() {
    let mut rng = Fixed::new();
    let (org, _) = rng.org();
    // the first seed is the identity: nothing is sent, and the run ends
    let session = org.generate_nym_with(rng.scalar(), rng.scalar());
    let session = match session.receive(Message::of_point(Label::SeedA, &identity())) {
        Step::Continue(next, send) => {
            assert!(send.is_empty());
            next
        }
        _ => panic!("the first seed is taken"),
    };
    let out = session.receive(Message::of_point(Label::SeedB, &identity()));
    assert!(matches!(out, Step::Reject(Error::BadProof)));
    // the same with any second seed
    let session = OrgNym::AwaitSeedB {
        r: rng.scalar(),
        c: rng.scalar(),
        user_key: None,
        seed_a: identity(),
    };
    let out = session.receive(Message::of_point(Label::SeedB, &random_point()));
    assert!(matches!(out, Step::Reject(Error::BadProof)));
    // and where the organization's own scalar is zero
    let session =
        OrgNym::AwaitSeedB { r: zero(), c: rng.scalar(), user_key: None, seed_a: random_point() };
    let out = session.receive(Message::of_point(Label::SeedB, &random_point()));
    assert!(matches!(out, Step::Reject(Error::BadProof)));
}

#[test]
fn a_run_on_the_identity_alone_is_refused() {
    // seeds, second point and commitment all the identity: every equation
    // would hold, for every challenge and response
    let mut rng = Fixed::new();
    let (org, _) = rng.org();
    let o = identity();
    let send = vec![
        Message::of_point(Label::SeedA, &o),
        Message::of_point(Label::SeedB, &o),
        Message::of_point(Label::B, &o),
        Message::of_point(Label::A, &o),
        Message::of_point(Label::B, &o),
        Message::of_scalar(Label::Y, &rng.scalar()),
    ];
    let mut to_org: VecDeque<Message> = send.into();
    let mut org = Party::Running(org.generate_nym_with(rng.scalar(), rng.scalar()));
    let mut to_user = VecDeque::new();
    let mut trace = Vec::new();
    loop {
        let (next, moved) = advance(org, &mut to_org, &mut to_user, &mut trace);
        org = next;
        if !moved {
            break;
        }
    }
    assert!(matches!(outcome(org), Err(Error::BadProof)));
    assert!(to_user.is_empty(), "no base was sent");
    assert_eq!(trace, vec![SeedA, SeedB]);
}

#[test]
fn user_refuses_the_identity_as_base() {
    let mut rng = Fixed::new();
    let (user, _) = rng.user();
    let (session, _) = user.generate_nym_with(rng.scalar(), rng.scalar());
    let out = session.receive(Message::of_point(Label::A, &identity()));
    assert!(matches!(out, Step::Reject(Error::BadProof)));
    let (session, _) = user.generate_nym_with_ca_with(rng.scalar());
    let out = session.receive(Message::of_point(Label::A, &identity()));
    assert!(matches!(out, Step::Reject(Error::BadProof)));
    // any other base is taken
    let (session, _) = user.generate_nym_with(rng.scalar(), rng.scalar());
    let out = session.receive(Message::of_point(Label::A, &random_point()));
    assert!(matches!(out, Step::Continue(UserNym::Proving { .. }, _)));
}

#[test]
fn a_nym_is_not_made_without_base() {
    assert_eq!(Nym::new(identity(), identity()), None);
    assert_eq!(Nym::new(identity(), random_point()), None);
    let a = random_point();
    let b = random_point();
    let nym = Nym::new(a, b).unwrap();
    assert_eq!((nym.a(), nym.b()), (a, b));
    // the identity as second point is the pseudonym of the secret zero
    assert!(Nym::new(a, identity()).is_some());
}

#[test]
fn an_org_that_holds_the_identity_as_base_refuses() {
    // a session put together by hand, past the point where the base is made
    let mut rng = Fixed::new();
    let session = OrgNym::AwaitB {
        c: rng.scalar(),
        seed_a: identity(),
        seed_b: identity(),
        a: identity(),
    };
    let out = session.receive(Message::of_point(Label::B, &identity()));
    assert!(matches!(out, Step::Reject(Error::BadProof)));
    let session = OrgNym::AwaitB {
        c: rng.scalar(),
        seed_a: random_point(),
        seed_b: random_point(),
        a: random_point(),
    };
    let out = session.receive(Message::of_point(Label::B, &identity()));
    assert!(matches!(out, Step::Continue(OrgNym::Proving { .. }, _)));
}

#[test]
fn a_nym_without_base_is_not_decoded() {
    let b = random_point();
    let mut bytes = vec![0u8; 32];
    bytes.extend(b.to_bytes());
    assert_eq!(Nym::from_bytes(&bytes), None);
    let a = random_point();
    let nym = Nym::new(a, identity()).unwrap();
    assert_eq!(Nym::from_bytes(&nym.to_bytes()), Some(nym));
}

#[test]
fn identity_is_told_from_every_other_point() {
    assert!(identity().is_identity());
    assert!(Point::basepoint().mul(&zero()).is_identity());
    assert!(!Point::basepoint().is_identity());
    for _ in 0..8 {
        let p = random_point();
        assert!(!p.is_identity());
        assert!(p.mul(&zero()).is_identity());
        assert_eq!(p.add(&identity()), p);
    }
}
