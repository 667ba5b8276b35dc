//! Fixed-width byte strings: their value as a little-endian number, and a
//! comparison that reads every byte.

use vstd::prelude::*;
use vstd::arithmetic::power2::{lemma2_to64, lemma_pow2_adds, pow2};

verus! {

/// The number that `bytes` spells, least significant byte first.
pub open spec fn le_value(bytes: Seq<u8>) -> nat
    decreases bytes.len(),
{
    if bytes.len() == 0 {
        0
    } else {
        bytes[0] as nat + 256 * le_value(bytes.skip(1))
    }
}

/// Two byte strings of one length that spell the same number are the same
/// string.
pub proof fn lemma_le_value_injective(a: Seq<u8>, b: Seq<u8>)
    requires
        a.len() == b.len(),
        le_value(a) == le_value(b),
    ensures
        a == b,
    decreases a.len(),
{
    if a.len() > 0 {
        let ra = le_value(a.skip(1));
        let rb = le_value(b.skip(1));
        assert(a[0] as nat + 256 * ra == b[0] as nat + 256 * rb);
        assert(a[0] == b[0] && ra == rb) by (nonlinear_arith)
            requires
                a[0] as nat + 256 * ra == b[0] as nat + 256 * rb,
                a[0] < 256,
                b[0] < 256,
        ;
        lemma_le_value_injective(a.skip(1), b.skip(1));
        assert forall|i: int| 0 <= i < a.len() implies a[i] == b[i] by {
            if i > 0 {
                assert(a[i] == a.skip(1)[i - 1]);
                assert(b[i] == b.skip(1)[i - 1]);
            }
        }
    }
    assert(a =~= b);
}

/// Whether two 32-byte strings are equal. Every byte is read, whatever the
/// earlier ones held, so the running time does not show where they differ.
pub fn bytes_equal(a: &[u8; 32], b: &[u8; 32]) -> (same: bool)
    ensures
        same == (a@ == b@),
{
    let mut diff: u8 = 0;
    let mut i: usize = 0;
    while i < 32
        invariant
            i <= 32,
            (diff == 0) == (forall|j: int| 0 <= j < i ==> a@[j] == b@[j]),
        decreases 32 - i,
    {
        let x: u8 = a[i];
        let y: u8 = b[i];
        let next: u8 = diff | (x ^ y);
        assert((next == 0) == (diff == 0 && x == y)) by (bit_vector)
            requires
                next == diff | (x ^ y),
        ;
        diff = next;
        i += 1;
    }
    proof {
        if diff == 0 {
            assert(a@ =~= b@);
        }
    }
    diff == 0
}

/// Appends 32 bytes to a byte string.
pub fn append_32(out: &mut Vec<u8>, part: &[u8; 32])
    ensures
        final(out)@ == old(out)@ + part@,
{
    let mut i: usize = 0;
    while i < 32
        invariant
            i <= 32,
            out@ == old(out)@ + part@.take(i as int),
        decreases 32 - i,
    {
        out.push(part[i]);
        proof {
            assert(part@.take(i + 1) =~= part@.take(i as int).push(part@[i as int]));
            assert(out@ =~= old(out)@ + part@.take(i + 1));
        }
        i += 1;
    }
    proof {
        assert(part@.take(32) =~= part@);
    }
}

/// The 32 bytes of a byte string that start at `at`.
pub fn take_32(bytes: &[u8], at: usize) -> (out: [u8; 32])
    requires
        at + 32 <= bytes@.len(),
    ensures
        out@ == bytes@.subrange(at as int, at + 32),
{
    let n: usize = bytes.len();
    let mut out: [u8; 32] = [0u8; 32];
    let mut i: usize = 0;
    while i < 32
        invariant
            i <= 32,
            n == bytes@.len(),
            at + 32 <= n,
            forall|j: int| 0 <= j < i ==> out@[j] == bytes@[at + j],
        decreases 32 - i,
    {
        out[i] = bytes[at + i];
        i += 1;
    }
    proof {
        assert(out@ =~= bytes@.subrange(at as int, at + 32));
    }
    out
}

/// The number that a byte string spells is at least what its last byte
/// stands for at its place.
pub proof fn lemma_le_value_last(bytes: Seq<u8>)
    requires
        bytes.len() > 0,
    ensures
        le_value(bytes) >= bytes.last() as nat * pow2((8 * (bytes.len() - 1)) as nat),
    decreases bytes.len(),
{
    lemma2_to64();
    let rest = bytes.skip(1);
    assert(le_value(bytes) == bytes[0] as nat + 256 * le_value(rest));
    if bytes.len() == 1 {
        assert(bytes.last() == bytes[0]);
        assert(bytes.last() as nat * pow2(0) == bytes.last() as nat) by (nonlinear_arith)
            requires
                pow2(0) == 1,
        ;
    } else {
        lemma_le_value_last(rest);
        assert(rest.last() == bytes.last());
        let last = bytes.last() as nat;
        let k = (8 * (rest.len() - 1)) as nat;
        lemma_pow2_adds(8, k);
        assert(8 + k == 8 * (bytes.len() - 1));
        assert(256 * le_value(rest) >= last * (256 * pow2(k))) by (nonlinear_arith)
            requires
                le_value(rest) >= last * pow2(k),
        ;
    }
}

} // verus!
