//! The transcript: a sponge that absorbs labelled values and gives out
//! challenges that depend on everything absorbed before.

use vstd::prelude::*;
use vstd::string::StringSliceAdditionalSpecFns;
use vstd::utf8::encode_utf8;
use crate::bytes::le_value;
use crate::point::Point;
use crate::scalar::{group_order, Scalar};
use merlin::Transcript as Sponge;

verus! {

/// The transcript of the merlin crate.
#[verifier::external_type_specification]
#[verifier::external_body]
pub struct ExSponge(Sponge);

/// What a transcript has absorbed: the labelled messages appended to it,
/// oldest first, from the domain separator on.
pub uninterp spec fn absorbed(t: Sponge) -> Seq<(Seq<u8>, Seq<u8>)>;

/// The 64 challenge bytes that a transcript gives out under `label` after it
/// has absorbed `entries` and nothing else.
pub uninterp spec fn challenge_bytes_of(entries: Seq<(Seq<u8>, Seq<u8>)>, label: Seq<u8>) -> Seq<u8>;

/// The label under which a new transcript absorbs its domain separator:
/// `dom-sep`.
pub open spec fn domain_separator_label() -> Seq<u8> {
    seq![0x64u8, 0x6fu8, 0x6du8, 0x2du8, 0x73u8, 0x65u8, 0x70u8]
}

/// A new transcript for the protocol named `label`.
///
/// Trusted: `merlin::Transcript::new` starts a sponge and appends `label` to
/// it as a message labelled `dom-sep`.
#[verifier::external_body]
pub(crate) fn new_transcript(label: &'static [u8]) -> (t: Sponge)
    requires
        label@.len() <= u32::MAX,
    ensures
        absorbed(t) == seq![(domain_separator_label(), label@)],
{
    Sponge::new(label)
}

/// Appends a labelled message.
///
/// Trusted: `merlin::Transcript::append_message` absorbs the label, the
/// message's length and the message, so that the state is a function of the
/// sequence of labelled messages. It panics on a message longer than
/// `u32::MAX`.
#[verifier::external_body]
pub(crate) fn append_message(t: &mut Sponge, label: &'static [u8], message: &[u8])
    requires
        message@.len() <= u32::MAX,
    ensures
        absorbed(*final(t)) == absorbed(*old(t)).push((label@, message@)),
{
    t.append_message(label, message)
}

/// Draws 64 challenge bytes.
///
/// Trusted: `merlin::Transcript::challenge_bytes` gives out bytes that are
/// a function of what was absorbed, of the label and of the number of bytes
/// asked for. Nothing is claimed of the transcript afterwards.
#[verifier::external_body]
pub(crate) fn challenge_bytes(t: &mut Sponge, label: &'static [u8]) -> (out: [u8; 64])
    ensures
        out@ == challenge_bytes_of(absorbed(*old(t)), label@),
{
    let mut out = [0u8; 64];
    t.challenge_bytes(label, &mut out);
    out
}

/// A value that a transcript can absorb.
pub trait Transcribe {
    /// The labelled messages that the value is absorbed as, under `label`.
    spec fn frames(&self, label: Seq<u8>) -> Seq<(Seq<u8>, Seq<u8>)>;

    /// Whether every message of the value is short enough to be framed.
    spec fn fits(&self) -> bool;

    /// Appends this value to a transcript, under `label`.
    fn append_to(&self, t: &mut Sponge, label: &'static [u8])
        requires
            self.fits(),
        ensures
            absorbed(*final(t)) == absorbed(*old(t)) + self.frames(label@),
    ;
}

/// A value that can be drawn from a transcript as a challenge.
pub trait Challenge: Sized {
    /// Whether `out` is the value that the challenge bytes `bytes` stand for.
    spec fn drawn_as(out: Self, bytes: Seq<u8>) -> bool;

    /// Draws a challenge of this type from a transcript, under `label`.
    fn challenge_from(t: &mut Sponge, label: &'static [u8]) -> (out: Self)
        ensures
            Self::drawn_as(out, challenge_bytes_of(absorbed(*old(t)), label@)),
    ;
}

/// The interface of a transcript-based protocol.
pub trait TranscriptProtocol {
    /// What the transcript has absorbed.
    spec fn log(&self) -> Seq<(Seq<u8>, Seq<u8>)>;

    /// Commits a value, under `label`.
    fn commit<M: Transcribe + ?Sized>(&mut self, label: &'static [u8], m: &M)
        requires
            m.fits(),
        ensures
            final(self).log() == old(self).log() + m.frames(label@),
    ;

    /// Draws a challenge, under `label`.
    fn challenge<C: Challenge>(&mut self, label: &'static [u8]) -> (out: C)
        ensures
            C::drawn_as(out, challenge_bytes_of(old(self).log(), label@)),
    ;
}

impl TranscriptProtocol for Sponge {
    open spec fn log(&self) -> Seq<(Seq<u8>, Seq<u8>)> {
        absorbed(*self)
    }

    fn commit<M: Transcribe + ?Sized>(&mut self, label: &'static [u8], m: &M) {
        m.append_to(self, label);
        proof {
            assert(self.log() == absorbed(*self));
        }
    }

    fn challenge<C: Challenge>(&mut self, label: &'static [u8]) -> (out: C) {
        C::challenge_from(self, label)
    }
}

impl Transcribe for Scalar {
    open spec fn frames(&self, label: Seq<u8>) -> Seq<(Seq<u8>, Seq<u8>)> {
        seq![(label, self@)]
    }

    open spec fn fits(&self) -> bool {
        true
    }

    fn append_to(&self, t: &mut Sponge, label: &'static [u8]) {
        let bytes: [u8; 32] = self.to_bytes();
        append_message(t, label, bytes.as_slice());
        proof {
            assert(absorbed(*old(t)).push((label@, self@)) =~= absorbed(*old(t)) + self.frames(label@));
        }
    }
}

impl Transcribe for Point {
    open spec fn frames(&self, label: Seq<u8>) -> Seq<(Seq<u8>, Seq<u8>)> {
        seq![(label, self@)]
    }

    open spec fn fits(&self) -> bool {
        true
    }

    fn append_to(&self, t: &mut Sponge, label: &'static [u8]) {
        let bytes: [u8; 32] = self.to_bytes();
        append_message(t, label, bytes.as_slice());
        proof {
            assert(absorbed(*old(t)).push((label@, self@)) =~= absorbed(*old(t)) + self.frames(label@));
        }
    }
}

impl Challenge for Scalar {
    open spec fn drawn_as(out: Scalar, bytes: Seq<u8>) -> bool {
        out.value() == le_value(bytes) % group_order()
    }

    fn challenge_from(t: &mut Sponge, label: &'static [u8]) -> (out: Scalar) {
        let buf: [u8; 64] = challenge_bytes(t, label);
        Scalar::from_bytes_mod_order_wide(&buf)
    }
}

/// The eight bytes of `v`, most significant first.
pub open spec fn be_bytes(v: u64) -> Seq<u8> {
    Seq::new(8, |i: int| ((v >> ((8 * (7 - i)) as u64)) & 0xff) as u8)
}

/// The label under which the elements of a sequence are absorbed: `$`.
pub open spec fn element_label() -> Seq<u8> {
    seq![0x24u8]
}

fn element_label_bytes() -> (out: &'static [u8])
    ensures
        out@ == element_label(),
{
    let l: &'static [u8; 1] = &[0x24u8];
    assert(l@ =~= element_label());
    l
}

/// The labelled messages that the elements of a sequence are absorbed as,
/// one after the other, each under the label `$`.
pub open spec fn element_frames<T: Transcribe>(elements: Seq<T>) -> Seq<(Seq<u8>, Seq<u8>)>
    decreases elements.len(),
{
    if elements.len() == 0 {
        Seq::empty()
    } else {
        element_frames(elements.drop_last()) + elements.last().frames(element_label())
    }
}

/// Whether every element of a sequence can be framed.
pub open spec fn elements_fit<T: Transcribe>(elements: Seq<T>) -> bool {
    forall|i: int| 0 <= i < elements.len() ==> (#[trigger] elements[i]).fits()
}

impl Transcribe for bool {
    /// One byte: one for true, zero for false.
    open spec fn frames(&self, label: Seq<u8>) -> Seq<(Seq<u8>, Seq<u8>)> {
        seq![(label, seq![if *self { 1u8 } else { 0u8 }])]
    }

    open spec fn fits(&self) -> bool {
        true
    }

    fn append_to(&self, t: &mut Sponge, label: &'static [u8]) {
        let byte: u8 = if *self { 1 } else { 0 };
        let bytes: [u8; 1] = [byte];
        append_message(t, label, bytes.as_slice());
        proof {
            assert(bytes@ =~= seq![byte]);
            assert(absorbed(*old(t)).push((label@, bytes@)) =~= absorbed(*old(t)) + self.frames(
                label@,
            ));
        }
    }
}

impl Transcribe for usize {
    /// Eight bytes, most significant first.
    open spec fn frames(&self, label: Seq<u8>) -> Seq<(Seq<u8>, Seq<u8>)> {
        seq![(label, be_bytes(*self as u64))]
    }

    open spec fn fits(&self) -> bool {
        true
    }

    fn append_to(&self, t: &mut Sponge, label: &'static [u8]) {
        let v: u64 = *self as u64;
        let mut bytes: [u8; 8] = [0u8; 8];
        let mut i: usize = 0;
        while i < 8
            invariant
                i <= 8,
                forall|j: int| 0 <= j < i ==> bytes@[j] == be_bytes(v)[j],
            decreases 8 - i,
        {
            let shift: u64 = 8 * (7 - i as u64);
            bytes[i] = ((v >> shift) & 0xff) as u8;
            i += 1;
        }
        append_message(t, label, bytes.as_slice());
        proof {
            assert(bytes@ =~= be_bytes(v));
            assert(absorbed(*old(t)).push((label@, bytes@)) =~= absorbed(*old(t)) + self.frames(
                label@,
            ));
        }
    }
}

impl Transcribe for [u8] {
    /// The bytes as they are.
    open spec fn frames(&self, label: Seq<u8>) -> Seq<(Seq<u8>, Seq<u8>)> {
        seq![(label, self@)]
    }

    open spec fn fits(&self) -> bool {
        self@.len() <= u32::MAX
    }

    fn append_to(&self, t: &mut Sponge, label: &'static [u8]) {
        append_message(t, label, self);
        proof {
            assert(absorbed(*old(t)).push((label@, self@)) =~= absorbed(*old(t)) + self.frames(
                label@,
            ));
        }
    }
}

impl Transcribe for str {
    /// The text's bytes.
    open spec fn frames(&self, label: Seq<u8>) -> Seq<(Seq<u8>, Seq<u8>)> {
        seq![(label, self.spec_bytes())]
    }

    open spec fn fits(&self) -> bool {
        self.spec_bytes().len() <= u32::MAX
    }

    fn append_to(&self, t: &mut Sponge, label: &'static [u8]) {
        self.as_bytes().append_to(t, label);
    }
}

impl Transcribe for String {
    /// The text's bytes.
    open spec fn frames(&self, label: Seq<u8>) -> Seq<(Seq<u8>, Seq<u8>)> {
        seq![(label, encode_utf8(self@))]
    }

    open spec fn fits(&self) -> bool {
        encode_utf8(self@).len() <= u32::MAX
    }

    fn append_to(&self, t: &mut Sponge, label: &'static [u8]) {
        self.as_str().append_to(t, label);
    }
}

impl<'a, T: Transcribe> Transcribe for &'a T {
    /// What is referred to.
    open spec fn frames(&self, label: Seq<u8>) -> Seq<(Seq<u8>, Seq<u8>)> {
        (**self).frames(label)
    }

    open spec fn fits(&self) -> bool {
        (**self).fits()
    }

    fn append_to(&self, t: &mut Sponge, label: &'static [u8]) {
        (*self).append_to(t, label);
    }
}

impl<T: Transcribe> Transcribe for [T] {
    /// The number of elements under the label, then each element under the
    /// label `$`.
    open spec fn frames(&self, label: Seq<u8>) -> Seq<(Seq<u8>, Seq<u8>)> {
        (self@.len() as usize).frames(label) + element_frames(self@)
    }

    open spec fn fits(&self) -> bool {
        elements_fit(self@)
    }

    fn append_to(&self, t: &mut Sponge, label: &'static [u8]) {
        let n: usize = self.len();
        n.append_to(t, label);
        let mut i: usize = 0;
        while i < n
            invariant
                i <= n,
                n == self@.len(),
                elements_fit(self@),
                absorbed(*t) == absorbed(*old(t)) + n.frames(label@) + element_frames(
                    self@.take(i as int),
                ),
            decreases n - i,
        {
            self[i].append_to(t, element_label_bytes());
            proof {
                let done = self@.take(i as int);
                let next = self@.take(i + 1);
                assert(next.drop_last() =~= done);
                assert(next.last() == self@[i as int]);
            }
            i += 1;
        }
        proof {
            assert(self@.take(n as int) =~= self@);
        }
    }
}

impl<T: Transcribe> Transcribe for Vec<T> {
    /// The number of elements under the label, then each element under the
    /// label `$`.
    open spec fn frames(&self, label: Seq<u8>) -> Seq<(Seq<u8>, Seq<u8>)> {
        (self@.len() as usize).frames(label) + element_frames(self@)
    }

    open spec fn fits(&self) -> bool {
        elements_fit(self@)
    }

    fn append_to(&self, t: &mut Sponge, label: &'static [u8]) {
        self.as_slice().append_to(t, label);
    }
}

} // verus!
