use vstd::prelude::*;

verus! {

use vstd::arithmetic::div_mod::{lemma_small_mod, lemma_mod_multiples_vanish};

/// A 256-bit unsigned machine word, the engine's sole stack value type.
/// Stored as four 64-bit limbs, least significant first.
#[derive(Clone, Copy, PartialEq, Eq, Structural, Debug)]
pub struct Word {
    pub w0: u64,
    pub w1: u64,
    pub w2: u64,
    pub w3: u64,
}

/// 2^64, the radix of one limb.
pub open spec fn b64() -> nat {
    0x10000000000000000
}

/// 2^128.
pub open spec fn b128() -> nat {
    b64() * b64()
}

/// 2^192.
pub open spec fn b192() -> nat {
    b128() * b64()
}

/// 2^256, the modulus of all word arithmetic.
pub open spec fn word_modulus() -> nat {
    b192() * b64()
}

/// 2^160, the modulus that derives an address from a word.
pub open spec fn address_modulus() -> nat {
    b128() * 0x100000000
}

/// Wrapping addition modulo 2^256.
pub open spec fn add_mod(x: nat, y: nat) -> nat {
    (x + y) % word_modulus()
}

/// Wrapping subtraction modulo 2^256, for operands below the modulus.
pub open spec fn sub_mod(x: nat, y: nat) -> nat
    recommends
        y < word_modulus(),
{
    ((x + word_modulus() - y) % (word_modulus() as int)) as nat
}

/// Wrapping multiplication modulo 2^256.
pub open spec fn mul_mod(x: nat, y: nat) -> nat {
    (x * y) % word_modulus()
}

/// Division with the zero-divisor convention: anything divided by zero is zero.
pub open spec fn div_word(x: nat, y: nat) -> nat {
    if y == 0 {
        0
    } else {
        x / y
    }
}

/// Remainder with the zero-divisor convention: anything modulo zero is zero.
pub open spec fn mod_word(x: nat, y: nat) -> nat {
    if y == 0 {
        0
    } else {
        x % y
    }
}

/// The word denoting zero.
pub open spec fn spec_zero() -> Word {
    Word { w0: 0, w1: 0, w2: 0, w3: 0 }
}

/// The word denoting a small (64-bit) value.
pub open spec fn spec_from_u64(x: u64) -> Word {
    Word { w0: x, w1: 0, w2: 0, w3: 0 }
}

/// Limb-wise bitwise AND, which is bitwise AND of the denoted values.
pub open spec fn spec_and(a: Word, b: Word) -> Word {
    Word { w0: a.w0 & b.w0, w1: a.w1 & b.w1, w2: a.w2 & b.w2, w3: a.w3 & b.w3 }
}

/// Limb-wise bitwise OR.
pub open spec fn spec_or(a: Word, b: Word) -> Word {
    Word { w0: a.w0 | b.w0, w1: a.w1 | b.w1, w2: a.w2 | b.w2, w3: a.w3 | b.w3 }
}

/// Limb-wise bitwise XOR.
pub open spec fn spec_xor(a: Word, b: Word) -> Word {
    Word { w0: a.w0 ^ b.w0, w1: a.w1 ^ b.w1, w2: a.w2 ^ b.w2, w3: a.w3 ^ b.w3 }
}

/// Limb-wise bitwise complement.
pub open spec fn spec_not(a: Word) -> Word {
    Word { w0: !a.w0, w1: !a.w1, w2: !a.w2, w3: !a.w3 }
}

/// The address a word truncates to: its value modulo 2^160.
pub open spec fn spec_address(w: Word) -> Word {
    Word { w0: w.w0, w1: w.w1, w2: w.w2 & 0xFFFF_FFFF, w3: 0 }
}

impl Word {
    /// The unsigned integer a word denotes.
    pub open spec fn as_nat(self) -> nat {
        self.w0 as nat + self.w1 as nat * b64() + self.w2 as nat * b128() + self.w3 as nat
            * b192()
    }

    /// Every word denotes a value below 2^256, and the limbs determine the
    /// value in the expected positional way.
    pub proof fn lemma_bound(self)
        ensures
            self.as_nat() < word_modulus(),
            self.as_nat() == 0 <==> self.w0 == 0 && self.w1 == 0 && self.w2 == 0 && self.w3
                == 0,
            self.w1 == 0 && self.w2 == 0 && self.w3 == 0 ==> self.as_nat() == self.w0,
            self.w1 != 0 || self.w2 != 0 || self.w3 != 0 ==> self.as_nat() >= b64(),
    {
        let x0 = self.w0 as nat;
        let x1 = self.w1 as nat;
        let x2 = self.w2 as nat;
        let x3 = self.w3 as nat;
        let b = b64();
        assert(self.as_nat() == x0 + x1 * b + x2 * (b * b) + x3 * (b * b * b));
        assert(word_modulus() == b * b * b * b);
        assert(x0 + x1 * b + x2 * (b * b) + x3 * (b * b * b) < b * b * b * b)
            by (nonlinear_arith)
            requires
                x0 < b,
                x1 < b,
                x2 < b,
                x3 < b,
                0 < b,
        ;
        assert((x0 + x1 * b + x2 * (b * b) + x3 * (b * b * b) == 0) <==> (x0 == 0 && x1 == 0
            && x2 == 0 && x3 == 0)) by (nonlinear_arith)
            requires
                0 < b,
        ;
        assert(x1 != 0 || x2 != 0 || x3 != 0 ==> x0 + x1 * b + x2 * (b * b) + x3 * (b * b * b)
            >= b) by (nonlinear_arith)
            requires
                0 < b,
        ;
        assert(x1 == 0 && x2 == 0 && x3 == 0 ==> x0 + x1 * b + x2 * (b * b) + x3 * (b * b * b)
            == x0) by (nonlinear_arith);
    }

    pub fn zero() -> (r: Word)
        ensures
            r == spec_zero(),
            r.as_nat() == 0,
    {
        Word { w0: 0, w1: 0, w2: 0, w3: 0 }
    }

    pub fn from_u64(x: u64) -> (r: Word)
        ensures
            r == spec_from_u64(x),
            r.as_nat() == x,
    {
        Word { w0: x, w1: 0, w2: 0, w3: 0 }
    }

    pub fn is_zero(&self) -> (r: bool)
        ensures
            r <==> self.as_nat() == 0,
    {
        proof {
            self.lemma_bound();
        }
        self.w0 == 0 && self.w1 == 0 && self.w2 == 0 && self.w3 == 0
    }

    /// Conversion to the native indexing width; fails exactly when the value
    /// does not fit, which the engine reports as a recoverable error.
    pub fn to_usize(&self) -> (r: Option<usize>)
        ensures
            r matches Some(u) ==> u == self.as_nat() && self.as_nat() <= usize::MAX,
            r is None ==> self.as_nat() > usize::MAX,
    {
        proof {
            self.lemma_bound();
        }
        if self.w1 == 0 && self.w2 == 0 && self.w3 == 0 && self.w0 <= usize::MAX as u64 {
            Some(self.w0 as usize)
        } else {
            None
        }
    }

    /// Conversion to a single byte; fails exactly when the value exceeds 255.
    pub fn to_u8(&self) -> (r: Option<u8>)
        ensures
            r matches Some(b) ==> b == self.as_nat() && self.as_nat() < 256,
            r is None ==> self.as_nat() >= 256,
    {
        proof {
            self.lemma_bound();
        }
        if self.w1 == 0 && self.w2 == 0 && self.w3 == 0 && self.w0 < 256 {
            Some(self.w0 as u8)
        } else {
            None
        }
    }
}

/// Limb-lexicographic order (most significant limb first) agrees with the
/// order of the denoted values, so equal values have equal limbs.
pub proof fn lemma_limb_order(a: Word, b: Word)
    ensures
        (a.w3 < b.w3 || (a.w3 == b.w3 && a.w2 < b.w2) || (a.w3 == b.w3 && a.w2 == b.w2 && a.w1
            < b.w1) || (a.w3 == b.w3 && a.w2 == b.w2 && a.w1 == b.w1 && a.w0 < b.w0)) <==> (
        a.as_nat() < b.as_nat()),
        a.as_nat() == b.as_nat() <==> a == b,
{
    let c = b64();
    let x0 = a.w0 as nat;
    let x1 = a.w1 as nat;
    let x2 = a.w2 as nat;
    let x3 = a.w3 as nat;
    let y0 = b.w0 as nat;
    let y1 = b.w1 as nat;
    let y2 = b.w2 as nat;
    let y3 = b.w3 as nat;
    assert(a.as_nat() == x0 + x1 * c + x2 * (c * c) + x3 * (c * c * c));
    assert(b.as_nat() == y0 + y1 * c + y2 * (c * c) + y3 * (c * c * c));
    assert(x3 < y3 ==> x0 + x1 * c + x2 * (c * c) + x3 * (c * c * c) < y0 + y1 * c + y2 * (c
        * c) + y3 * (c * c * c)) by (nonlinear_arith)
        requires
            x0 < c,
            x1 < c,
            x2 < c,
            0 < c,
    ;
    assert(x3 == y3 && x2 < y2 ==> x0 + x1 * c + x2 * (c * c) + x3 * (c * c * c) < y0 + y1 * c
        + y2 * (c * c) + y3 * (c * c * c)) by (nonlinear_arith)
        requires
            x0 < c,
            x1 < c,
            0 < c,
    ;
    assert(x3 == y3 && x2 == y2 && x1 < y1 ==> x0 + x1 * c + x2 * (c * c) + x3 * (c * c * c)
        < y0 + y1 * c + y2 * (c * c) + y3 * (c * c * c)) by (nonlinear_arith)
        requires
            x0 < c,
            0 < c,
    ;
    assert(y3 < x3 ==> y0 + y1 * c + y2 * (c * c) + y3 * (c * c * c) < x0 + x1 * c + x2 * (c
        * c) + x3 * (c * c * c)) by (nonlinear_arith)
        requires
            y0 < c,
            y1 < c,
            y2 < c,
            0 < c,
    ;
    assert(y3 == x3 && y2 < x2 ==> y0 + y1 * c + y2 * (c * c) + y3 * (c * c * c) < x0 + x1 * c
        + x2 * (c * c) + x3 * (c * c * c)) by (nonlinear_arith)
        requires
            y0 < c,
            y1 < c,
            0 < c,
    ;
    assert(y3 == x3 && y2 == x2 && y1 < x1 ==> y0 + y1 * c + y2 * (c * c) + y3 * (c * c * c)
        < x0 + x1 * c + x2 * (c * c) + x3 * (c * c * c)) by (nonlinear_arith)
        requires
            y0 < c,
            0 < c,
    ;
}

/// Whether this word denotes a smaller value than `other`.
pub fn word_lt(a: &Word, b: &Word) -> (r: bool)
    ensures
        r <==> a.as_nat() < b.as_nat(),
{
    proof {
        lemma_limb_order(*a, *b);
    }
    if a.w3 != b.w3 {
        a.w3 < b.w3
    } else if a.w2 != b.w2 {
        a.w2 < b.w2
    } else if a.w1 != b.w1 {
        a.w1 < b.w1
    } else {
        a.w0 < b.w0
    }
}

/// Whether two words denote the same value.
pub fn word_eq(a: &Word, b: &Word) -> (r: bool)
    ensures
        r <==> a.as_nat() == b.as_nat(),
{
    proof {
        lemma_limb_order(*a, *b);
    }
    a.w0 == b.w0 && a.w1 == b.w1 && a.w2 == b.w2 && a.w3 == b.w3
}

/// The i-th byte (big-endian, 0 is most significant) of the 32-byte form
/// of a word.
pub open spec fn word_byte(w: Word, i: int) -> u8 {
    let limb: u64 = if i < 8 {
        w.w3
    } else if i < 16 {
        w.w2
    } else if i < 24 {
        w.w1
    } else {
        w.w0
    };
    ((limb / byte_div(i % 8)) % 256) as u8
}

/// 256^(7 - j): the divisor that brings byte j of a limb into place.
pub open spec fn byte_div(j: int) -> u64 {
    if j == 0 {
        0x100000000000000
    } else if j == 1 {
        0x1000000000000
    } else if j == 2 {
        0x10000000000
    } else if j == 3 {
        0x100000000
    } else if j == 4 {
        0x1000000
    } else if j == 5 {
        0x10000
    } else if j == 6 {
        0x100
    } else {
        0x1
    }
}

/// The 32-byte big-endian form of a word.
pub open spec fn word_bytes_seq(w: Word) -> Seq<u8> {
    Seq::new(32, |i: int| word_byte(w, i))
}

/// Write out the 32 big-endian bytes of a word.
pub fn word_be_bytes(w: &Word) -> (r: Vec<u8>)
    ensures
        r@ == word_bytes_seq(*w),
{
    let mut buf: Vec<u8> = Vec::new();
    let mut i: usize = 0;
    while i < 32
        invariant
            i <= 32,
            buf@.len() == i,
            forall|k: int| 0 <= k < i ==> buf@[k] == word_byte(*w, k),
        decreases 32 - i,
    {
        let limb: u64 = if i < 8 {
            w.w3
        } else if i < 16 {
            w.w2
        } else if i < 24 {
            w.w1
        } else {
            w.w0
        };
        let j = i % 8;
        let d: u64 = if j == 0 {
            0x100000000000000
        } else if j == 1 {
            0x1000000000000
        } else if j == 2 {
            0x10000000000
        } else if j == 3 {
            0x100000000
        } else if j == 4 {
            0x1000000
        } else if j == 5 {
            0x10000
        } else if j == 6 {
            0x100
        } else {
            0x1
        };
        let b = ((limb / d) % 256) as u8;
        buf.push(b);
        i = i + 1;
    }
    proof {
        assert(buf@ =~= word_bytes_seq(*w));
    }
    buf
}

/// Address derivation: keep exactly the low 160 bits of a word and discard
/// the rest.  Pure and total.
pub fn modulo_address_size(w: &Word) -> (r: Word)
    ensures
        r == spec_address(*w),
        r.as_nat() == w.as_nat() % address_modulus(),
        r.as_nat() < address_modulus(),
{
    let lo = w.w2 & 0xFFFF_FFFF;
    let r = Word { w0: w.w0, w1: w.w1, w2: lo, w3: 0 };
    proof {
        let x0 = w.w0 as nat;
        let x1 = w.w1 as nat;
        let x2 = w.w2 as nat;
        let x3 = w.w3 as nat;
        let b = b64();
        let t = 0x100000000 as nat;
        let a = address_modulus();
        let v2 = w.w2;
        assert(v2 & 0xFFFF_FFFF == v2 % 0x100000000) by (bit_vector);
        let lo_n = lo as nat;
        let hi = x2 / t;
        assert(x2 == hi * t + lo_n && lo_n < t) by (nonlinear_arith)
            requires
                lo_n == x2 % t,
                hi == x2 / t,
                t == 0x100000000,
        ;
        assert(b == t * t) by (nonlinear_arith)
            requires
                b == 0x10000000000000000,
                t == 0x100000000,
        ;
        assert(w.as_nat() == x0 + x1 * b + x2 * (b * b) + x3 * (b * b * b));
        assert(r.as_nat() == x0 + x1 * b + lo_n * (b * b));
        assert(a == (b * b) * t);
        assert(x2 * (b * b) == hi * a + lo_n * (b * b)) by (nonlinear_arith)
            requires
                x2 == hi * t + lo_n,
                a == (b * b) * t,
        ;
        assert(x3 * (b * b * b) == (x3 * t) * a) by (nonlinear_arith)
            requires
                a == (b * b) * t,
                b == t * t,
        ;
        assert(hi * a + (x3 * t) * a == a * (hi + x3 * t)) by (nonlinear_arith);
        assert(w.as_nat() == a * (hi + x3 * t) + r.as_nat());
        assert(r.as_nat() < a) by (nonlinear_arith)
            requires
                r.as_nat() == x0 + x1 * b + lo_n * (b * b),
                x0 < b,
                x1 < b,
                lo_n < t,
                0 < t,
                0 < b,
                a == (b * b) * t,
        ;
        lemma_mod_multiples_vanish(hi as int + x3 * t, r.as_nat() as int, a as int);
        lemma_small_mod(r.as_nat(), a);
    }
    r
}

/// Relies on primitive_types::U256::overflowing_add: limb-wise addition that
/// discards the carry out of the top limb, i.e. addition modulo 2^256.
#[verifier::external_body]
pub(crate) fn word_add(a: &Word, b: &Word) -> (r: Word)
    ensures
        r.as_nat() == add_mod(a.as_nat(), b.as_nat()),
{
    let x = primitive_types::U256([a.w0, a.w1, a.w2, a.w3]);
    let y = primitive_types::U256([b.w0, b.w1, b.w2, b.w3]);
    let (s, _) = x.overflowing_add(y);
    Word { w0: s.0[0], w1: s.0[1], w2: s.0[2], w3: s.0[3] }
}

/// Relies on primitive_types::U256::overflowing_sub: limb-wise subtraction
/// that discards the borrow out of the top limb, i.e. subtraction modulo 2^256.
#[verifier::external_body]
pub(crate) fn word_sub(a: &Word, b: &Word) -> (r: Word)
    ensures
        r.as_nat() == sub_mod(a.as_nat(), b.as_nat()),
{
    let x = primitive_types::U256([a.w0, a.w1, a.w2, a.w3]);
    let y = primitive_types::U256([b.w0, b.w1, b.w2, b.w3]);
    let (s, _) = x.overflowing_sub(y);
    Word { w0: s.0[0], w1: s.0[1], w2: s.0[2], w3: s.0[3] }
}

/// Relies on primitive_types::U256::overflowing_mul: full multiplication
/// truncated to the low four limbs, i.e. multiplication modulo 2^256.
#[verifier::external_body]
pub(crate) fn word_mul(a: &Word, b: &Word) -> (r: Word)
    ensures
        r.as_nat() == mul_mod(a.as_nat(), b.as_nat()),
{
    let x = primitive_types::U256([a.w0, a.w1, a.w2, a.w3]);
    let y = primitive_types::U256([b.w0, b.w1, b.w2, b.w3]);
    let (s, _) = x.overflowing_mul(y);
    Word { w0: s.0[0], w1: s.0[1], w2: s.0[2], w3: s.0[3] }
}

/// Relies on primitive_types::U256::checked_div: None exactly when the
/// divisor is zero, otherwise the integer quotient.
#[verifier::external_body]
pub(crate) fn word_checked_div(a: &Word, b: &Word) -> (r: Option<Word>)
    ensures
        r is None <==> b.as_nat() == 0,
        r matches Some(q) ==> q.as_nat() == a.as_nat() / b.as_nat(),
{
    let x = primitive_types::U256([a.w0, a.w1, a.w2, a.w3]);
    let y = primitive_types::U256([b.w0, b.w1, b.w2, b.w3]);
    match x.checked_div(y) {
        Some(q) => Some(Word { w0: q.0[0], w1: q.0[1], w2: q.0[2], w3: q.0[3] }),
        None => None,
    }
}

/// Relies on primitive_types::U256::checked_rem: None exactly when the
/// divisor is zero, otherwise the integer remainder.
#[verifier::external_body]
pub(crate) fn word_checked_rem(a: &Word, b: &Word) -> (r: Option<Word>)
    ensures
        r is None <==> b.as_nat() == 0,
        r matches Some(m) ==> m.as_nat() == a.as_nat() % b.as_nat(),
{
    let x = primitive_types::U256([a.w0, a.w1, a.w2, a.w3]);
    let y = primitive_types::U256([b.w0, b.w1, b.w2, b.w3]);
    match x.checked_rem(y) {
        Some(m) => Some(Word { w0: m.0[0], w1: m.0[1], w2: m.0[2], w3: m.0[3] }),
        None => None,
    }
}

} // verus!
