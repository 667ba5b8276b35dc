//! What travels between the two parties of a protocol: labelled 32-byte
//! values, and the steps that a session answers a message with.

use vstd::prelude::*;
use crate::error::Error;
use crate::point::{is_point_encoding, ristretto_index, Point};
use crate::scalar::{group_order, Scalar};
use crate::bytes::le_value;

verus! {

/// The label of a message.
#[derive(Clone, Copy, Debug, PartialEq, Eq, Structural)]
pub enum Label {
    /// `a~`, the first seed of a pseudonym.
    SeedA,
    /// `b~`, the second seed of a pseudonym.
    SeedB,
    /// `a`, the first point of a pseudonym or of a proof's commitment.
    A,
    /// `b`, the second point of a pseudonym or of a proof's commitment.
    B,
    /// `c`, a proof's challenge.
    C,
    /// `y`, a proof's response.
    Y,
    /// `A`, the third point of a credential.
    CredA,
    /// `B`, the fourth point of a credential.
    CredB,
}

impl Label {
    /// The label as it stands on the wire.
    pub open spec fn wire(self) -> Seq<u8> {
        match self {
            Label::SeedA => seq![0x61u8, 0x7eu8],
            Label::SeedB => seq![0x62u8, 0x7eu8],
            Label::A => seq![0x61u8],
            Label::B => seq![0x62u8],
            Label::C => seq![0x63u8],
            Label::Y => seq![0x79u8],
            Label::CredA => seq![0x41u8],
            Label::CredB => seq![0x42u8],
        }
    }

    /// The label as it stands on the wire.
    pub fn as_bytes(self) -> (out: &'static [u8])
        ensures
            out@ == self.wire(),
    {
        match self {
            Label::SeedA => {
                let l: &'static [u8; 2] = &[0x61u8, 0x7eu8];
                assert(l@ =~= self.wire());
                l
            },
            Label::SeedB => {
                let l: &'static [u8; 2] = &[0x62u8, 0x7eu8];
                assert(l@ =~= self.wire());
                l
            },
            Label::A => {
                let l: &'static [u8; 1] = &[0x61u8];
                assert(l@ =~= self.wire());
                l
            },
            Label::B => {
                let l: &'static [u8; 1] = &[0x62u8];
                assert(l@ =~= self.wire());
                l
            },
            Label::C => {
                let l: &'static [u8; 1] = &[0x63u8];
                assert(l@ =~= self.wire());
                l
            },
            Label::Y => {
                let l: &'static [u8; 1] = &[0x79u8];
                assert(l@ =~= self.wire());
                l
            },
            Label::CredA => {
                let l: &'static [u8; 1] = &[0x41u8];
                assert(l@ =~= self.wire());
                l
            },
            Label::CredB => {
                let l: &'static [u8; 1] = &[0x42u8];
                assert(l@ =~= self.wire());
                l
            },
        }
    }

    /// Whether the value under this label is a scalar: the challenge and the
    /// response of a proof are, everything else is a point.
    pub fn carries_scalar(self) -> (out: bool)
        ensures
            out == (self == Label::C || self == Label::Y),
    {
        match self {
            Label::C => true,
            Label::Y => true,
            _ => false,
        }
    }

    /// The label that stands on the wire as `bytes`, if there is one.
    pub fn from_bytes(bytes: &[u8]) -> (out: Option<Label>)
        ensures
            match out {
                Some(label) => label.wire() == bytes@,
                None => forall|label: Label| label.wire() != bytes@,
            },
    {
        let n: usize = bytes.len();
        if n == 1 {
            let first: u8 = bytes[0];
            let out = if first == 0x61 {
                Some(Label::A)
            } else if first == 0x62 {
                Some(Label::B)
            } else if first == 0x63 {
                Some(Label::C)
            } else if first == 0x79 {
                Some(Label::Y)
            } else if first == 0x41 {
                Some(Label::CredA)
            } else if first == 0x42 {
                Some(Label::CredB)
            } else {
                None
            };
            proof {
                match out {
                    Some(label) => {
                        assert(label.wire() =~= bytes@);
                    },
                    None => {
                        assert forall|label: Label| label.wire() != bytes@ by {
                            if label.wire() == bytes@ {
                                assert(label.wire()[0] == first);
                            }
                        }
                    },
                }
            }
            out
        } else if n == 2 {
            let first: u8 = bytes[0];
            let second: u8 = bytes[1];
            let out = if first == 0x61 && second == 0x7e {
                Some(Label::SeedA)
            } else if first == 0x62 && second == 0x7e {
                Some(Label::SeedB)
            } else {
                None
            };
            proof {
                match out {
                    Some(label) => {
                        assert(label.wire() =~= bytes@);
                    },
                    None => {
                        assert forall|label: Label| label.wire() != bytes@ by {
                            if label.wire() == bytes@ {
                                assert(label.wire()[0] == first);
                                assert(label.wire()[1] == second);
                            }
                        }
                    },
                }
            }
            out
        } else {
            proof {
                assert forall|label: Label| label.wire() != bytes@ by {
                    assert(label.wire().len() == 1 || label.wire().len() == 2);
                }
            }
            None
        }
    }
}

/// A labelled value: the canonical encoding of a point or of a scalar.
#[derive(Clone, Copy, Debug, PartialEq, Eq)]
pub struct Message {
    /// The label.
    pub label: Label,
    /// The encoded value.
    pub value: [u8; 32],
}

impl Message {
    /// Whether this message bears `label` and holds the point of index
    /// `index`.
    pub open spec fn holds_point(self, label: Label, index: nat) -> bool {
        &&& self.label == label
        &&& is_point_encoding(self.value@)
        &&& ristretto_index(self.value@) == index
    }

    /// Whether this message bears `label` and holds the scalar `value`.
    pub open spec fn holds_scalar(self, label: Label, value: nat) -> bool {
        &&& self.label == label
        &&& le_value(self.value@) < group_order()
        &&& le_value(self.value@) == value
    }

    /// Whether this message bears `label` and decodes as a point.
    pub open spec fn is_point(self, label: Label) -> bool {
        self.label == label && is_point_encoding(self.value@)
    }

    /// Whether this message bears `label` and decodes as a scalar.
    pub open spec fn is_scalar(self, label: Label) -> bool {
        self.label == label && le_value(self.value@) < group_order()
    }

    /// The message that carries `point` under `label`.
    pub fn of_point(label: Label, point: &Point) -> (out: Message)
        ensures
            out.label == label,
            out.value@ == point@,
            out.holds_point(label, point.index()),
    {
        proof {
            use_type_invariant(point);
        }
        Message { label, value: point.to_bytes() }
    }

    /// The message that carries `scalar` under `label`.
    pub fn of_scalar(label: Label, scalar: &Scalar) -> (out: Message)
        ensures
            out.label == label,
            out.value@ == scalar@,
            out.holds_scalar(label, scalar.value()),
    {
        proof {
            use_type_invariant(scalar);
        }
        Message { label, value: scalar.to_bytes() }
    }

    /// Reads the point that this message carries under `label`. A message
    /// with another label, or with a value that is not the canonical encoding
    /// of a point, is refused with `BadProof`.
    pub fn point(&self, label: Label) -> (out: Result<Point, Error>)
        ensures
            out is Ok == self.is_point(label),
            out matches Ok(p) ==> p@ == self.value@,
            out matches Err(e) ==> e is BadProof,
    {
        if self.label == label {
            match Point::from_bytes(self.value) {
                Some(p) => Ok(p),
                None => Err(Error::BadProof),
            }
        } else {
            Err(Error::BadProof)
        }
    }

    /// Reads the scalar that this message carries under `label`. A message
    /// with another label, or with a value that is not the canonical encoding
    /// of a scalar, is refused with `BadProof`.
    pub fn scalar(&self, label: Label) -> (out: Result<Scalar, Error>)
        ensures
            out is Ok == self.is_scalar(label),
            out matches Ok(s) ==> s@ == self.value@,
            out matches Err(e) ==> e is BadProof,
    {
        if self.label == label {
            match Scalar::from_bytes(self.value) {
                Some(s) => Ok(s),
                None => Err(Error::BadProof),
            }
        } else {
            Err(Error::BadProof)
        }
    }
}

/// What a session answers a message with.
#[derive(Debug)]
pub enum Step<S, T> {
    /// The session goes on; the messages are to be sent, in order, before
    /// the next one is awaited.
    Continue(S, Vec<Message>),
    /// The session has ended with a result; the messages are to be sent, in
    /// order.
    Accept(T, Vec<Message>),
    /// The session has ended with an error. Nothing more is sent.
    Reject(Error),
}

/// One party's side of a protocol: a straight line of messages awaited and
/// messages sent, which ends when the party accepts or refuses.
///
/// Whoever runs a session owns the channel: it sends the messages that the
/// session hands out, in order, takes the next message off the channel and
/// gives it to `receive`.
pub trait Session: Sized {
    /// What the session ends with when it accepts.
    type Output;

    /// The label of the message that the session awaits.
    spec fn awaits(self) -> Label;

    /// Whether `out` is the session's answer to `msg`.
    spec fn answers(self, msg: Message, out: Step<Self, Self::Output>) -> bool;

    /// The label of the message that the session awaits.
    fn awaiting(&self) -> (label: Label)
        ensures
            label == self.awaits(),
    ;

    /// Takes the message that arrived.
    fn receive(self, msg: Message) -> (out: Step<Self, Self::Output>)
        ensures
            self.answers(msg, out),
    ;
}

} // verus!
