use vstd::prelude::*;

verus! {

use crate::word::{Word, b64, b128, b192, word_modulus};

/// A byte of a finite sequence, zero past its end: the uniform
/// zero-fill-on-short-read rule.
pub open spec fn read_byte(src: Seq<u8>, i: int) -> u8 {
    if 0 <= i < src.len() {
        src[i]
    } else {
        0
    }
}

/// The n bytes of `src` starting at `off`, zero-filled past the end.
pub open spec fn read_seq(src: Seq<u8>, off: int, n: nat) -> Seq<u8> {
    Seq::new(n, |i: int| read_byte(src, off + i))
}

/// The unsigned integer denoted by a big-endian byte sequence.
pub open spec fn be_bytes_nat(s: Seq<u8>) -> nat
    decreases s.len(),
{
    if s.len() == 0 {
        0
    } else {
        be_bytes_nat(s.drop_last()) * 256 + s.last() as nat
    }
}

/// 256 to the n-th power.
pub open spec fn pow256(n: nat) -> nat
    decreases n,
{
    if n == 0 {
        1
    } else {
        256 * pow256((n - 1) as nat)
    }
}

pub proof fn lemma_pow256_values()
    ensures
        pow256(8) == b64(),
        pow256(16) == b128(),
        pow256(24) == b192(),
        pow256(32) == word_modulus(),
        pow256(7) == 0x100000000000000,
{
    reveal_with_fuel(pow256, 33);
}

/// A sequence of zero bytes denotes zero.
pub proof fn lemma_be_bytes_zero(s: Seq<u8>)
    requires
        forall|i: int| 0 <= i < s.len() ==> s[i] == 0,
    ensures
        be_bytes_nat(s) == 0,
    decreases s.len(),
{
    if s.len() != 0 {
        lemma_be_bytes_zero(s.drop_last());
    }
}

/// Concatenation shifts the left part by 256^(length of the right part).
pub proof fn lemma_be_bytes_concat(a: Seq<u8>, b: Seq<u8>)
    ensures
        be_bytes_nat(a + b) == be_bytes_nat(a) * pow256(b.len()) + be_bytes_nat(b),
    decreases b.len(),
{
    if b.len() == 0 {
        assert(a + b =~= a);
        assert(pow256(0) == 1);
    } else {
        lemma_be_bytes_concat(a, b.drop_last());
        assert((a + b).drop_last() =~= a + b.drop_last());
        assert((a + b).last() == b.last());
        let x = be_bytes_nat(a);
        let p = pow256((b.len() - 1) as nat);
        assert(pow256(b.len()) == 256 * p);
        assert((x * p + be_bytes_nat(b.drop_last())) * 256 == x * (256 * p) + be_bytes_nat(
            b.drop_last(),
        ) * 256) by (nonlinear_arith);
    }
}

/// Big-endian value of eight bytes of `bytes` starting at `start`.
fn be_limb8(bytes: &Vec<u8>, start: usize) -> (r: u64)
    requires
        start + 8 <= bytes@.len(),
    ensures
        r as nat == be_bytes_nat(bytes@.subrange(start as int, start as int + 8)),
{
    let n = bytes.len();
    let mut acc: u64 = 0;
    let mut j: usize = 0;
    while j < 8
        invariant
            j <= 8,
            n == bytes@.len(),
            start + 8 <= n,
            acc as nat == be_bytes_nat(bytes@.subrange(start as int, start as int + j as int)),
            (acc as nat) < pow256(j as nat),
        decreases 8 - j,
    {
        let b = bytes[start + j];
        proof {
            lemma_pow256_values();
            assert(pow256(j as nat) <= pow256(7)) by {
                reveal_with_fuel(pow256, 9);
            }
            assert(bytes@.subrange(start as int, start as int + j as int + 1).drop_last()
                =~= bytes@.subrange(start as int, start as int + j as int));
        }
        acc = acc * 256 + (b as u64);
        j = j + 1;
    }
    acc
}

/// Assemble a word from exactly 32 big-endian bytes.
pub fn word_from_be32(bytes: &Vec<u8>) -> (r: Word)
    requires
        bytes@.len() == 32,
    ensures
        r.as_nat() == be_bytes_nat(bytes@),
{
    let v3 = be_limb8(bytes, 0);
    let v2 = be_limb8(bytes, 8);
    let v1 = be_limb8(bytes, 16);
    let v0 = be_limb8(bytes, 24);
    let r = Word { w0: v0, w1: v1, w2: v2, w3: v3 };
    proof {
        let s = bytes@;
        let s3 = s.subrange(0, 8);
        let s2 = s.subrange(8, 16);
        let s1 = s.subrange(16, 24);
        let s0 = s.subrange(24, 32);
        assert(s =~= s3 + s2 + s1 + s0);
        lemma_be_bytes_concat(s3 + s2 + s1, s0);
        lemma_be_bytes_concat(s3 + s2, s1);
        lemma_be_bytes_concat(s3, s2);
        lemma_pow256_values();
        let b = b64();
        let e3 = be_bytes_nat(s3);
        let e2 = be_bytes_nat(s2);
        let e1 = be_bytes_nat(s1);
        let e0 = be_bytes_nat(s0);
        assert(be_bytes_nat(s) == ((e3 * b + e2) * b + e1) * b + e0);
        assert(((e3 * b + e2) * b + e1) * b + e0 == e0 + e1 * b + e2 * (b * b) + e3 * (b * b
            * b)) by (nonlinear_arith);
        assert(r.as_nat() == e0 + e1 * b + e2 * (b * b) + e3 * (b * b * b));
    }
    r
}

/// Assemble a word from up to 32 big-endian bytes, as a short push does.
pub fn word_from_be(bytes: &Vec<u8>) -> (r: Word)
    requires
        bytes@.len() <= 32,
    ensures
        r.as_nat() == be_bytes_nat(bytes@),
{
    let pad = 32 - bytes.len();
    let mut buf: Vec<u8> = Vec::new();
    let mut i: usize = 0;
    while i < pad
        invariant
            i <= pad,
            pad == 32 - bytes@.len(),
            buf@.len() == i,
            forall|k: int| 0 <= k < i ==> buf@[k] == 0,
        decreases pad - i,
    {
        buf.push(0);
        i = i + 1;
    }
    let mut j: usize = 0;
    while j < bytes.len()
        invariant
            j <= bytes@.len(),
            pad == 32 - bytes@.len(),
            buf@.len() == pad + j,
            forall|k: int| 0 <= k < pad ==> buf@[k] == 0,
            forall|k: int| 0 <= k < j ==> buf@[pad + k] == bytes@[k],
        decreases bytes@.len() - j,
    {
        let b = bytes[j];
        buf.push(b);
        j = j + 1;
    }
    let r = word_from_be32(&buf);
    proof {
        let z = buf@.subrange(0, pad as int);
        assert(buf@ =~= z + bytes@);
        lemma_be_bytes_zero(z);
        lemma_be_bytes_concat(z, bytes@);
        assert(0 * pow256(bytes@.len()) == 0) by (nonlinear_arith);
    }
    r
}

} // verus!
