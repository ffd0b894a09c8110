use vstd::prelude::*;

verus! {

use crate::word::Word;
use crate::machine::MachineState;

/// Relies on String::push: appends one character to the end of the string.
pub assume_specification[ String::push ](s: &mut String, ch: char)
    ensures
        final(s)@ == old(s)@.push(ch),
;

/// Relies on String::push_str: appends a string slice to the end of the
/// string.
pub assume_specification[ String::push_str ](s: &mut String, other: &str)
    ensures
        final(s)@ == old(s)@ + other@,
;

/// The character for one digit value below sixteen.
pub open spec fn digit_char(d: nat) -> char {
    if d == 0 {
        '0'
    } else if d == 1 {
        '1'
    } else if d == 2 {
        '2'
    } else if d == 3 {
        '3'
    } else if d == 4 {
        '4'
    } else if d == 5 {
        '5'
    } else if d == 6 {
        '6'
    } else if d == 7 {
        '7'
    } else if d == 8 {
        '8'
    } else if d == 9 {
        '9'
    } else if d == 10 {
        'a'
    } else if d == 11 {
        'b'
    } else if d == 12 {
        'c'
    } else if d == 13 {
        'd'
    } else if d == 14 {
        'e'
    } else {
        'f'
    }
}

/// The hexadecimal digits of `n`, most significant first, no leading zeros.
pub open spec fn hex_seq(n: nat) -> Seq<char>
    decreases n,
{
    if n < 16 {
        seq![digit_char(n)]
    } else {
        hex_seq(n / 16).push(digit_char(n % 16))
    }
}

/// The decimal digits of `n`, most significant first, no leading zeros.
pub open spec fn dec_seq(n: nat) -> Seq<char>
    decreases n,
{
    if n < 10 {
        seq![digit_char(n)]
    } else {
        dec_seq(n / 10).push(digit_char(n % 10))
    }
}

/// 16^(15 - j): the divisor that brings nibble j of a limb into place.
pub open spec fn nib_div(j: int) -> u64 {
    if j == 0 {
        0x1000000000000000
    } else if j == 1 {
        0x100000000000000
    } else if j == 2 {
        0x10000000000000
    } else if j == 3 {
        0x1000000000000
    } else if j == 4 {
        0x100000000000
    } else if j == 5 {
        0x10000000000
    } else if j == 6 {
        0x1000000000
    } else if j == 7 {
        0x100000000
    } else if j == 8 {
        0x10000000
    } else if j == 9 {
        0x1000000
    } else if j == 10 {
        0x100000
    } else if j == 11 {
        0x10000
    } else if j == 12 {
        0x1000
    } else if j == 13 {
        0x100
    } else if j == 14 {
        0x10
    } else {
        0x1
    }
}

/// All sixteen hexadecimal digits of one limb, leading zeros kept.
pub open spec fn hex_pad16(l: u64) -> Seq<char> {
    Seq::new(16, |j: int| digit_char(((l / nib_div(j)) % 16) as nat))
}

/// The hexadecimal digits of a word: the leading nonzero limb without its
/// leading zeros, then each lower limb as sixteen padded digits.
pub open spec fn word_hex(w: Word) -> Seq<char> {
    if w.w3 != 0 {
        hex_seq(w.w3 as nat) + hex_pad16(w.w2) + hex_pad16(w.w1) + hex_pad16(w.w0)
    } else if w.w2 != 0 {
        hex_seq(w.w2 as nat) + hex_pad16(w.w1) + hex_pad16(w.w0)
    } else if w.w1 != 0 {
        hex_seq(w.w1 as nat) + hex_pad16(w.w0)
    } else {
        hex_seq(w.w0 as nat)
    }
}

fn push_digit(s: &mut String, d: u64)
    requires
        d < 16,
    ensures
        final(s)@ == old(s)@.push(digit_char(d as nat)),
{
    let c: char = if d == 0 {
        '0'
    } else if d == 1 {
        '1'
    } else if d == 2 {
        '2'
    } else if d == 3 {
        '3'
    } else if d == 4 {
        '4'
    } else if d == 5 {
        '5'
    } else if d == 6 {
        '6'
    } else if d == 7 {
        '7'
    } else if d == 8 {
        '8'
    } else if d == 9 {
        '9'
    } else if d == 10 {
        'a'
    } else if d == 11 {
        'b'
    } else if d == 12 {
        'c'
    } else if d == 13 {
        'd'
    } else if d == 14 {
        'e'
    } else {
        'f'
    };
    s.push(c);
}

fn push_hex(s: &mut String, v: u64)
    ensures
        final(s)@ == old(s)@ + hex_seq(v as nat),
    decreases v,
{
    if v >= 16 {
        push_hex(s, v / 16);
        push_digit(s, v % 16);
        proof {
            assert(final(s)@ =~= old(s)@ + hex_seq(v as nat));
        }
    } else {
        push_digit(s, v);
        proof {
            assert(final(s)@ =~= old(s)@ + hex_seq(v as nat));
        }
    }
}

fn push_dec(s: &mut String, v: u64)
    ensures
        final(s)@ == old(s)@ + dec_seq(v as nat),
    decreases v,
{
    if v >= 10 {
        push_dec(s, v / 10);
        push_digit(s, v % 10);
        proof {
            assert(final(s)@ =~= old(s)@ + dec_seq(v as nat));
        }
    } else {
        push_digit(s, v);
        proof {
            assert(final(s)@ =~= old(s)@ + dec_seq(v as nat));
        }
    }
}

fn nib_div_at(j: usize) -> (d: u64)
    requires
        j < 16,
    ensures
        d == nib_div(j as int),
{
    if j == 0 {
        0x1000000000000000
    } else if j == 1 {
        0x100000000000000
    } else if j == 2 {
        0x10000000000000
    } else if j == 3 {
        0x1000000000000
    } else if j == 4 {
        0x100000000000
    } else if j == 5 {
        0x10000000000
    } else if j == 6 {
        0x1000000000
    } else if j == 7 {
        0x100000000
    } else if j == 8 {
        0x10000000
    } else if j == 9 {
        0x1000000
    } else if j == 10 {
        0x100000
    } else if j == 11 {
        0x10000
    } else if j == 12 {
        0x1000
    } else if j == 13 {
        0x100
    } else if j == 14 {
        0x10
    } else {
        0x1
    }
}

fn push_hex_pad16(s: &mut String, l: u64)
    ensures
        final(s)@ == old(s)@ + hex_pad16(l),
{
    let mut j: usize = 0;
    while j < 16
        invariant
            j <= 16,
            s@ == old(s)@ + hex_pad16(l).take(j as int),
        decreases 16 - j,
    {
        let d = (l / nib_div_at(j)) % 16;
        push_digit(s, d);
        proof {
            assert(hex_pad16(l).take(j as int + 1) =~= hex_pad16(l).take(j as int).push(
                hex_pad16(l)[j as int],
            ));
            assert(s@ =~= old(s)@ + hex_pad16(l).take(j as int + 1));
        }
        j = j + 1;
    }
    proof {
        assert(hex_pad16(l).take(16) =~= hex_pad16(l));
    }
}

fn push_word_hex(s: &mut String, w: &Word)
    ensures
        final(s)@ == old(s)@ + word_hex(*w),
{
    if w.w3 != 0 {
        push_hex(s, w.w3);
        push_hex_pad16(s, w.w2);
        push_hex_pad16(s, w.w1);
        push_hex_pad16(s, w.w0);
        proof {
            assert(final(s)@ =~= old(s)@ + word_hex(*w));
        }
    } else if w.w2 != 0 {
        push_hex(s, w.w2);
        push_hex_pad16(s, w.w1);
        push_hex_pad16(s, w.w0);
        proof {
            assert(final(s)@ =~= old(s)@ + word_hex(*w));
        }
    } else if w.w1 != 0 {
        push_hex(s, w.w1);
        push_hex_pad16(s, w.w0);
        proof {
            assert(final(s)@ =~= old(s)@ + word_hex(*w));
        }
    } else {
        push_hex(s, w.w0);
    }
}

/// Diagnostic snapshot of the execution context at a failure point: the
/// program counter, the stack contents and the memory watermark.
pub struct ErrorInfo {
    pub pc: usize,
    pub stack: Vec<Word>,
    pub active_words: usize,
}

impl ErrorInfo {
    /// Capture a self-contained snapshot of the machine state by value.
    pub fn capture(ms: &MachineState) -> (r: ErrorInfo)
        ensures
            r.pc == ms.pc,
            r.stack@ == ms.stack@,
            r.active_words == ms.active_words,
    {
        let mut stack: Vec<Word> = Vec::new();
        let mut i: usize = 0;
        while i < ms.stack.len()
            invariant
                i <= ms.stack@.len(),
                stack@ == ms.stack@.take(i as int),
            decreases ms.stack@.len() - i,
        {
            let w = ms.stack[i];
            stack.push(w);
            proof {
                assert(ms.stack@.take(i as int).push(ms.stack@[i as int]) =~= ms.stack@.take(
                    i as int + 1,
                ));
            }
            i = i + 1;
        }
        proof {
            assert(ms.stack@.take(ms.stack@.len() as int) =~= ms.stack@);
        }
        ErrorInfo { pc: ms.pc, stack, active_words: ms.active_words }
    }
}

/// The closed set of failure kinds that can terminate an execution, each
/// carrying a diagnostic snapshot of the context at the failure point.
pub enum EVMError {
    /// Fetch past the end of the bytecode, where that is treated as an error.
    NoBytecodeError(ErrorInfo),
    /// A malformed base-16 literal from external input.
    FromStrRadixError(String, ErrorInfo),
    /// The fetched byte has no handler.
    NoOpcodeError(u8, ErrorInfo),
    /// Pop from an empty (or too shallow) stack.
    EmptyStackError(ErrorInfo),
    /// A word does not fit the native indexing width.
    U256ToUSizeError(Word, ErrorInfo),
    /// A word does not fit a single byte.
    U256ToU8Error(Word, ErrorInfo),
    /// A jump to a position that is not a valid jump destination.
    InvalidJumpdestError(usize, ErrorInfo),
}

impl EVMError {
    /// The failure message with its diagnostic value rendered, as a caller
    /// displays it.
    pub fn message(&self) -> (r: String)
        ensures
            self matches EVMError::EmptyStackError(_) ==> r@ == "cannot pop from empty stack"@,
            self matches EVMError::FromStrRadixError(..) ==> r@
                == "cannot parse string to hex"@,
            self matches EVMError::NoBytecodeError(info) ==> r@ == "cannot find code at pc "@
                + dec_seq(info.pc as nat),
            self matches EVMError::NoOpcodeError(op, _) ==> r@ == "cannot find opcode "@
                + hex_seq(op as nat),
            self matches EVMError::U256ToUSizeError(w, _) ==> r@
                == "cannot convert from U256 "@ + word_hex(*w) + " to usize"@,
            self matches EVMError::U256ToU8Error(w, _) ==> r@ == "cannot convert from U256 "@
                + word_hex(*w) + " to u8"@,
            self matches EVMError::InvalidJumpdestError(v, _) ==> r@
                == "cannot jump to opcode "@ + hex_seq(v as nat),
    {
        match self {
            EVMError::EmptyStackError(_) => "cannot pop from empty stack".to_owned(),
            EVMError::FromStrRadixError(..) => "cannot parse string to hex".to_owned(),
            EVMError::NoBytecodeError(info) => {
                let mut s = "cannot find code at pc ".to_owned();
                push_dec(&mut s, info.pc as u64);
                s
            },
            EVMError::NoOpcodeError(op, _) => {
                let mut s = "cannot find opcode ".to_owned();
                push_hex(&mut s, *op as u64);
                s
            },
            EVMError::U256ToUSizeError(w, _) => {
                let mut s = "cannot convert from U256 ".to_owned();
                push_word_hex(&mut s, w);
                s.push_str(" to usize");
                s
            },
            EVMError::U256ToU8Error(w, _) => {
                let mut s = "cannot convert from U256 ".to_owned();
                push_word_hex(&mut s, w);
                s.push_str(" to u8");
                s
            },
            EVMError::InvalidJumpdestError(v, _) => {
                let mut s = "cannot jump to opcode ".to_owned();
                push_hex(&mut s, *v as u64);
                s
            },
        }
    }

    /// A short description of the failure kind.
    pub fn describe(&self) -> (r: &'static str)
        ensures
            self matches EVMError::NoBytecodeError(_) ==> r@ == "cannot find code at pc"@,
            self matches EVMError::FromStrRadixError(..) ==> r@ == "cannot parse string to hex"@,
            self matches EVMError::NoOpcodeError(..) ==> r@ == "cannot find opcode"@,
            self matches EVMError::EmptyStackError(_) ==> r@ == "cannot pop from empty stack"@,
            self matches EVMError::U256ToUSizeError(..) ==> r@
                == "cannot convert from U256 to usize"@,
            self matches EVMError::U256ToU8Error(..) ==> r@ == "cannot convert from U256 to u8"@,
            self matches EVMError::InvalidJumpdestError(..) ==> r@ == "cannot jump to opcode"@,
    {
        match self {
            EVMError::NoBytecodeError(_) => "cannot find code at pc",
            EVMError::FromStrRadixError(..) => "cannot parse string to hex",
            EVMError::NoOpcodeError(..) => "cannot find opcode",
            EVMError::EmptyStackError(_) => "cannot pop from empty stack",
            EVMError::U256ToUSizeError(..) => "cannot convert from U256 to usize",
            EVMError::U256ToU8Error(..) => "cannot convert from U256 to u8",
            EVMError::InvalidJumpdestError(..) => "cannot jump to opcode",
        }
    }
}

} // verus!
