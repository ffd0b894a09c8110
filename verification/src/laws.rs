use vstd::prelude::*;

verus! {

use vstd::arithmetic::div_mod::{
    lemma_small_mod,
    lemma_div_denominator,
    lemma_fundamental_div_mod,
};
use crate::word::{
    Word,
    b64,
    word_modulus,
    add_mod,
    mul_mod,
    div_word,
    mod_word,
    byte_div,
    word_bytes_seq,
};
use crate::bytes::{
    read_seq,
    be_bytes_nat,
    lemma_be_bytes_zero,
    lemma_be_bytes_concat,
    lemma_pow256_values,
};
use crate::state::{AccruedSubstate, marked};
use crate::machine::words_for;
use vstd::math::max;

/// Word arithmetic is closed modulo 2^256 and obeys the identities the
/// engine relies on: adding zero returns the word unchanged, multiplying by
/// zero gives zero, and dividing or reducing by a zero divisor gives zero
/// by the engine's convention rather than failing.
pub proof fn lemma_word_arith_identities(a: Word)
    ensures
        add_mod(a.as_nat(), 0) == a.as_nat(),
        mul_mod(a.as_nat(), 0) == 0,
        div_word(a.as_nat(), 0) == 0,
        mod_word(a.as_nat(), 0) == 0,
        add_mod(a.as_nat(), 0) < word_modulus(),
        mul_mod(a.as_nat(), 0) < word_modulus(),
{
    let b = b64();
    assert(b * b * b * b > 0) by (nonlinear_arith)
        requires
            b > 0,
    ;
    a.lemma_bound();
    lemma_small_mod(a.as_nat(), word_modulus());
    assert(a.as_nat() * 0 == 0);
    lemma_small_mod(0, word_modulus());
}

/// A 32-byte read wholly past the end of a byte sequence yields only zero
/// bytes, so a CALLDATALOAD at an offset beyond the call-data length pushes
/// the zero word.
pub proof fn lemma_read_past_end_zero(data: Seq<u8>, off: int)
    requires
        off >= data.len(),
    ensures
        be_bytes_nat(read_seq(data, off, 32)) == 0,
{
    lemma_be_bytes_zero(read_seq(data, off, 32));
}

/// An address stands in the accrued substate at most once: in a well-formed
/// log, two positions holding the same address coincide.
pub proof fn lemma_accessed_once(s: AccruedSubstate, i: int, j: int)
    requires
        s.wf(),
        0 <= i < s.accessed_accounts@.len(),
        0 <= j < s.accessed_accounts@.len(),
        s.accessed_accounts@[i] == s.accessed_accounts@[j],
    ensures
        i == j,
{
}

/// The active-word watermark is monotonic: raising it to cover `end` bytes
/// never lowers it, and a write whose end lies within the words already
/// recorded leaves it exactly where it was.
pub proof fn lemma_watermark_monotonic(aw: nat, end: nat)
    ensures
        max(aw as int, words_for(end) as int) >= aw,
        end <= 32 * aw ==> max(aw as int, words_for(end) as int) == aw,
{
    if end <= 32 * aw {
        assert((end + 31) / 32 <= aw) by (nonlinear_arith)
            requires
                end <= 32 * aw,
        ;
    }
}

/// Recording the same address a second time changes nothing: the substate
/// keeps set semantics across repeated queries of one account.
pub proof fn lemma_marked_twice(
    pre: AccruedSubstate,
    mid: AccruedSubstate,
    post: AccruedSubstate,
    a: Word,
)
    requires
        marked(pre, mid, a),
        marked(mid, post, a),
    ensures
        post.accessed_accounts@ == mid.accessed_accounts@,
{
}

/// The eight big-endian bytes extracted from one limb denote that limb.
proof fn lemma_limb_bytes(l: u64)
    ensures
        be_bytes_nat(Seq::new(8, |j: int| ((l / byte_div(j)) % 256) as u8)) == l,
{
    let s = Seq::new(8, |j: int| ((l / byte_div(j)) % 256) as u8);
    let x = l as int;
    // Peel the bytes from the least significant end: each step is one
    // division identity.
    assert forall|k: int| 0 <= k < 7 implies (x / (256 * (#[trigger] byte_div(k + 1)) as int)) == (x / (byte_div(k + 1) as int)) / 256 by {
        lemma_div_denominator(x, byte_div(k + 1) as int, 256);
        assert(byte_div(k + 1) as int * 256 == 256 * byte_div(k + 1) as int);
    }
    assert forall|k: int| 0 <= k < 8 implies (x / ((#[trigger] byte_div(k)) as int)) == (x / (
    byte_div(k) as int) / 256) * 256 + (x / (byte_div(k) as int)) % 256 by {
        lemma_fundamental_div_mod(x / (byte_div(k) as int), 256);
    }
    assert(byte_div(0) == 256 * byte_div(1));
    assert(byte_div(1) == 256 * byte_div(2));
    assert(byte_div(2) == 256 * byte_div(3));
    assert(byte_div(3) == 256 * byte_div(4));
    assert(byte_div(4) == 256 * byte_div(5));
    assert(byte_div(5) == 256 * byte_div(6));
    assert(byte_div(6) == 256 * byte_div(7));
    assert(x / (byte_div(0) as int) < 256) by (nonlinear_arith)
        requires
            x == l,
            l <= 0xFFFF_FFFF_FFFF_FFFF,
            byte_div(0) == 0x100000000000000,
    ;
    assert((x / (byte_div(0) as int)) % 256 == x / (byte_div(0) as int));
    let p1 = Seq::new(1, |j: int| ((l / byte_div(j)) % 256) as u8);
    let p2 = Seq::new(2, |j: int| ((l / byte_div(j)) % 256) as u8);
    let p3 = Seq::new(3, |j: int| ((l / byte_div(j)) % 256) as u8);
    let p4 = Seq::new(4, |j: int| ((l / byte_div(j)) % 256) as u8);
    let p5 = Seq::new(5, |j: int| ((l / byte_div(j)) % 256) as u8);
    let p6 = Seq::new(6, |j: int| ((l / byte_div(j)) % 256) as u8);
    let p7 = Seq::new(7, |j: int| ((l / byte_div(j)) % 256) as u8);
    assert(p1.drop_last() =~= Seq::<u8>::empty());
    assert(p2.drop_last() =~= p1);
    assert(p3.drop_last() =~= p2);
    assert(p4.drop_last() =~= p3);
    assert(p5.drop_last() =~= p4);
    assert(p6.drop_last() =~= p5);
    assert(p7.drop_last() =~= p6);
    assert(s.drop_last() =~= p7);
    assert(be_bytes_nat(Seq::<u8>::empty()) == 0);
    assert(be_bytes_nat(p1) == x / (byte_div(0) as int));
    assert(be_bytes_nat(p2) == be_bytes_nat(p1) * 256 + (x / (byte_div(1) as int)) % 256);
    assert(be_bytes_nat(p2) == x / (byte_div(1) as int));
    assert(be_bytes_nat(p3) == x / (byte_div(2) as int));
    assert(be_bytes_nat(p4) == x / (byte_div(3) as int));
    assert(be_bytes_nat(p5) == x / (byte_div(4) as int));
    assert(be_bytes_nat(p6) == x / (byte_div(5) as int));
    assert(be_bytes_nat(p7) == x / (byte_div(6) as int));
    assert(be_bytes_nat(s) == l);
}

/// The 32-byte big-endian form of a word denotes the word's value: writing
/// a word to memory and reading those bytes back yields the same word.
pub proof fn lemma_word_bytes_roundtrip(w: Word)
    ensures
        be_bytes_nat(word_bytes_seq(w)) == w.as_nat(),
{
    let s = word_bytes_seq(w);
    let s3 = Seq::new(8, |j: int| ((w.w3 / byte_div(j)) % 256) as u8);
    let s2 = Seq::new(8, |j: int| ((w.w2 / byte_div(j)) % 256) as u8);
    let s1 = Seq::new(8, |j: int| ((w.w1 / byte_div(j)) % 256) as u8);
    let s0 = Seq::new(8, |j: int| ((w.w0 / byte_div(j)) % 256) as u8);
    assert(s =~= s3 + s2 + s1 + s0) by {
        assert forall|i: int| 0 <= i < 32 implies s[i] == (s3 + s2 + s1 + s0)[i] by {
            assert(i % 8 == i - 8 * (i / 8)) by (nonlinear_arith);
        }
    }
    lemma_limb_bytes(w.w3);
    lemma_limb_bytes(w.w2);
    lemma_limb_bytes(w.w1);
    lemma_limb_bytes(w.w0);
    lemma_be_bytes_concat(s3 + s2 + s1, s0);
    lemma_be_bytes_concat(s3 + s2, s1);
    lemma_be_bytes_concat(s3, s2);
    lemma_pow256_values();
    let b = b64();
    assert(be_bytes_nat(s) == ((w.w3 * b + w.w2) * b + w.w1) * b + w.w0);
    assert(((w.w3 * b + w.w2) * b + w.w1) * b + w.w0 == w.w0 + w.w1 * b + w.w2 * (b * b) + w.w3
        * (b * b * b)) by (nonlinear_arith);
    assert(w.as_nat() == w.w0 + w.w1 * b + w.w2 * (b * b) + w.w3 * (b * b * b));
}

} // verus!
