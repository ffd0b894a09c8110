use vstd::prelude::*;

verus! {

use vstd::math::max;
use crate::word::{
    Word,
    spec_zero,
    spec_from_u64,
    word_bytes_seq,
    word_be_bytes,
    spec_and,
    spec_or,
    spec_xor,
    spec_not,
    spec_address,
    add_mod,
    sub_mod,
    mul_mod,
    div_word,
    mod_word,
    word_add,
    word_sub,
    word_mul,
    word_checked_div,
    word_checked_rem,
};
use crate::bytes::{read_byte, read_seq, be_bytes_nat, word_from_be, word_from_be32};
use crate::machine::{words_for, copy_applied};
use crate::context::{
    ExecutionContext,
    OpcodeResult,
    Halt,
    EvmResult,
    frame_kept,
    mem_kept,
    pc_out_kept,
    substate_kept,
};
use crate::errors::{EVMError, ErrorInfo};
use crate::environmental::{snap_of, stack_underflow, usize_overflow};

/// The contract of one wrapping binary arithmetic opcode: the two top words
/// are replaced by `f` of them (first popped operand first).
pub open spec fn binop_applied(
    pre: Seq<Word>,
    post: Seq<Word>,
    f: spec_fn(nat, nat) -> nat,
) -> bool {
    &&& post.len() == pre.len() - 1
    &&& post.take(pre.len() - 2) == pre.take(pre.len() - 2)
    &&& post.last().as_nat() == f(pre[pre.len() - 1].as_nat(), pre[pre.len() - 2].as_nat())
}

/// 0x01 ADD: pop two words and push their sum modulo 2^256.
pub fn op_add(ctx: &mut ExecutionContext) -> (r: OpcodeResult)
    ensures
        frame_kept(*old(ctx), *final(ctx)),
        mem_kept(*old(ctx), *final(ctx)),
        pc_out_kept(*old(ctx), *final(ctx)),
        substate_kept(*old(ctx), *final(ctx)),
        old(ctx).machine_state.stack@.len() < 2 ==> (r matches Err(e)
            && e matches EVMError::EmptyStackError(info) && snap_of(info, old(ctx).machine_state)
            && *final(ctx) == *old(ctx)),
        old(ctx).machine_state.stack@.len() >= 2 ==> (r matches Ok(None)) && binop_applied(
            old(ctx).machine_state.stack@,
            final(ctx).machine_state.stack@,
            |x: nat, y: nat| add_mod(x, y),
        ),
{
    let items = match ctx.machine_state.pop_n(2) {
        Some(v) => v,
        None => {
            return Err(stack_underflow(&ctx.machine_state));
        },
    };
    let c = word_add(&items[0], &items[1]);
    ctx.machine_state.push(c);
    proof {
        let s = old(ctx).machine_state.stack@;
        assert(final(ctx).machine_state.stack@.take(s.len() - 2) =~= s.take(s.len() - 2));
    }
    Ok(None)
}

/// 0x02 MUL: pop two words and push their product modulo 2^256.
pub fn op_mul(ctx: &mut ExecutionContext) -> (r: OpcodeResult)
    ensures
        frame_kept(*old(ctx), *final(ctx)),
        mem_kept(*old(ctx), *final(ctx)),
        pc_out_kept(*old(ctx), *final(ctx)),
        substate_kept(*old(ctx), *final(ctx)),
        old(ctx).machine_state.stack@.len() < 2 ==> (r matches Err(e)
            && e matches EVMError::EmptyStackError(info) && snap_of(info, old(ctx).machine_state)
            && *final(ctx) == *old(ctx)),
        old(ctx).machine_state.stack@.len() >= 2 ==> (r matches Ok(None)) && binop_applied(
            old(ctx).machine_state.stack@,
            final(ctx).machine_state.stack@,
            |x: nat, y: nat| mul_mod(x, y),
        ),
{
    let items = match ctx.machine_state.pop_n(2) {
        Some(v) => v,
        None => {
            return Err(stack_underflow(&ctx.machine_state));
        },
    };
    let c = word_mul(&items[0], &items[1]);
    ctx.machine_state.push(c);
    proof {
        let s = old(ctx).machine_state.stack@;
        assert(final(ctx).machine_state.stack@.take(s.len() - 2) =~= s.take(s.len() - 2));
    }
    Ok(None)
}

/// 0x03 SUB: pop two words and push their difference modulo 2^256.
pub fn op_sub(ctx: &mut ExecutionContext) -> (r: OpcodeResult)
    ensures
        frame_kept(*old(ctx), *final(ctx)),
        mem_kept(*old(ctx), *final(ctx)),
        pc_out_kept(*old(ctx), *final(ctx)),
        substate_kept(*old(ctx), *final(ctx)),
        old(ctx).machine_state.stack@.len() < 2 ==> (r matches Err(e)
            && e matches EVMError::EmptyStackError(info) && snap_of(info, old(ctx).machine_state)
            && *final(ctx) == *old(ctx)),
        old(ctx).machine_state.stack@.len() >= 2 ==> (r matches Ok(None)) && binop_applied(
            old(ctx).machine_state.stack@,
            final(ctx).machine_state.stack@,
            |x: nat, y: nat| sub_mod(x, y),
        ),
{
    let items = match ctx.machine_state.pop_n(2) {
        Some(v) => v,
        None => {
            return Err(stack_underflow(&ctx.machine_state));
        },
    };
    let c = word_sub(&items[0], &items[1]);
    ctx.machine_state.push(c);
    proof {
        let s = old(ctx).machine_state.stack@;
        assert(final(ctx).machine_state.stack@.take(s.len() - 2) =~= s.take(s.len() - 2));
    }
    Ok(None)
}

/// 0x04 DIV: pop two words and push the quotient; division by zero gives
/// zero.
pub fn op_div(ctx: &mut ExecutionContext) -> (r: OpcodeResult)
    ensures
        frame_kept(*old(ctx), *final(ctx)),
        mem_kept(*old(ctx), *final(ctx)),
        pc_out_kept(*old(ctx), *final(ctx)),
        substate_kept(*old(ctx), *final(ctx)),
        old(ctx).machine_state.stack@.len() < 2 ==> (r matches Err(e)
            && e matches EVMError::EmptyStackError(info) && snap_of(info, old(ctx).machine_state)
            && *final(ctx) == *old(ctx)),
        old(ctx).machine_state.stack@.len() >= 2 ==> (r matches Ok(None)) && binop_applied(
            old(ctx).machine_state.stack@,
            final(ctx).machine_state.stack@,
            |x: nat, y: nat| div_word(x, y),
        ),
{
    let items = match ctx.machine_state.pop_n(2) {
        Some(v) => v,
        None => {
            return Err(stack_underflow(&ctx.machine_state));
        },
    };
    let c = match word_checked_div(&items[0], &items[1]) {
        Some(q) => q,
        None => Word::zero(),
    };
    ctx.machine_state.push(c);
    proof {
        let s = old(ctx).machine_state.stack@;
        assert(final(ctx).machine_state.stack@.take(s.len() - 2) =~= s.take(s.len() - 2));
    }
    Ok(None)
}

/// 0x06 MOD: pop two words and push the remainder; a zero modulus gives
/// zero.
pub fn op_mod(ctx: &mut ExecutionContext) -> (r: OpcodeResult)
    ensures
        frame_kept(*old(ctx), *final(ctx)),
        mem_kept(*old(ctx), *final(ctx)),
        pc_out_kept(*old(ctx), *final(ctx)),
        substate_kept(*old(ctx), *final(ctx)),
        old(ctx).machine_state.stack@.len() < 2 ==> (r matches Err(e)
            && e matches EVMError::EmptyStackError(info) && snap_of(info, old(ctx).machine_state)
            && *final(ctx) == *old(ctx)),
        old(ctx).machine_state.stack@.len() >= 2 ==> (r matches Ok(None)) && binop_applied(
            old(ctx).machine_state.stack@,
            final(ctx).machine_state.stack@,
            |x: nat, y: nat| mod_word(x, y),
        ),
{
    let items = match ctx.machine_state.pop_n(2) {
        Some(v) => v,
        None => {
            return Err(stack_underflow(&ctx.machine_state));
        },
    };
    let c = match word_checked_rem(&items[0], &items[1]) {
        Some(m) => m,
        None => Word::zero(),
    };
    ctx.machine_state.push(c);
    proof {
        let s = old(ctx).machine_state.stack@;
        assert(final(ctx).machine_state.stack@.take(s.len() - 2) =~= s.take(s.len() - 2));
    }
    Ok(None)
}


/// One if `x` is below `y`, else zero.
pub open spec fn lt_val(x: nat, y: nat) -> nat {
    if x < y {
        1
    } else {
        0
    }
}

/// One if `x` is above `y`, else zero.
pub open spec fn gt_val(x: nat, y: nat) -> nat {
    if x > y {
        1
    } else {
        0
    }
}

/// One if the values are equal, else zero.
pub open spec fn eq_val(x: nat, y: nat) -> nat {
    if x == y {
        1
    } else {
        0
    }
}

/// 0x10 LT: pop two words and push one when the first is below the second,
/// else zero.
pub fn op_lt(ctx: &mut ExecutionContext) -> (r: OpcodeResult)
    ensures
        frame_kept(*old(ctx), *final(ctx)),
        mem_kept(*old(ctx), *final(ctx)),
        pc_out_kept(*old(ctx), *final(ctx)),
        substate_kept(*old(ctx), *final(ctx)),
        old(ctx).machine_state.stack@.len() < 2 ==> (r matches Err(e)
            && e matches EVMError::EmptyStackError(info) && snap_of(info, old(ctx).machine_state)
            && *final(ctx) == *old(ctx)),
        old(ctx).machine_state.stack@.len() >= 2 ==> (r matches Ok(None)) && binop_applied(
            old(ctx).machine_state.stack@,
            final(ctx).machine_state.stack@,
            |x: nat, y: nat| lt_val(x, y),
        ),
{
    let items = match ctx.machine_state.pop_n(2) {
        Some(v) => v,
        None => {
            return Err(stack_underflow(&ctx.machine_state));
        },
    };
    let c = if crate::word::word_lt(&items[0], &items[1]) {
        Word::from_u64(1)
    } else {
        Word::zero()
    };
    ctx.machine_state.push(c);
    proof {
        let s = old(ctx).machine_state.stack@;
        assert(final(ctx).machine_state.stack@.take(s.len() - 2) =~= s.take(s.len() - 2));
    }
    Ok(None)
}

/// 0x11 GT: pop two words and push one when the first is above the second,
/// else zero.
pub fn op_gt(ctx: &mut ExecutionContext) -> (r: OpcodeResult)
    ensures
        frame_kept(*old(ctx), *final(ctx)),
        mem_kept(*old(ctx), *final(ctx)),
        pc_out_kept(*old(ctx), *final(ctx)),
        substate_kept(*old(ctx), *final(ctx)),
        old(ctx).machine_state.stack@.len() < 2 ==> (r matches Err(e)
            && e matches EVMError::EmptyStackError(info) && snap_of(info, old(ctx).machine_state)
            && *final(ctx) == *old(ctx)),
        old(ctx).machine_state.stack@.len() >= 2 ==> (r matches Ok(None)) && binop_applied(
            old(ctx).machine_state.stack@,
            final(ctx).machine_state.stack@,
            |x: nat, y: nat| gt_val(x, y),
        ),
{
    let items = match ctx.machine_state.pop_n(2) {
        Some(v) => v,
        None => {
            return Err(stack_underflow(&ctx.machine_state));
        },
    };
    let c = if crate::word::word_lt(&items[1], &items[0]) {
        Word::from_u64(1)
    } else {
        Word::zero()
    };
    ctx.machine_state.push(c);
    proof {
        let s = old(ctx).machine_state.stack@;
        assert(final(ctx).machine_state.stack@.take(s.len() - 2) =~= s.take(s.len() - 2));
    }
    Ok(None)
}

/// 0x14 EQ: pop two words and push one when they are equal, else zero.
pub fn op_eq(ctx: &mut ExecutionContext) -> (r: OpcodeResult)
    ensures
        frame_kept(*old(ctx), *final(ctx)),
        mem_kept(*old(ctx), *final(ctx)),
        pc_out_kept(*old(ctx), *final(ctx)),
        substate_kept(*old(ctx), *final(ctx)),
        old(ctx).machine_state.stack@.len() < 2 ==> (r matches Err(e)
            && e matches EVMError::EmptyStackError(info) && snap_of(info, old(ctx).machine_state)
            && *final(ctx) == *old(ctx)),
        old(ctx).machine_state.stack@.len() >= 2 ==> (r matches Ok(None)) && binop_applied(
            old(ctx).machine_state.stack@,
            final(ctx).machine_state.stack@,
            |x: nat, y: nat| eq_val(x, y),
        ),
{
    let items = match ctx.machine_state.pop_n(2) {
        Some(v) => v,
        None => {
            return Err(stack_underflow(&ctx.machine_state));
        },
    };
    let c = if crate::word::word_eq(&items[0], &items[1]) {
        Word::from_u64(1)
    } else {
        Word::zero()
    };
    ctx.machine_state.push(c);
    proof {
        let s = old(ctx).machine_state.stack@;
        assert(final(ctx).machine_state.stack@.take(s.len() - 2) =~= s.take(s.len() - 2));
    }
    Ok(None)
}

/// 0x15 ISZERO: pop one word and push one when it denotes zero, else zero.
pub fn op_iszero(ctx: &mut ExecutionContext) -> (r: OpcodeResult)
    ensures
        frame_kept(*old(ctx), *final(ctx)),
        mem_kept(*old(ctx), *final(ctx)),
        pc_out_kept(*old(ctx), *final(ctx)),
        substate_kept(*old(ctx), *final(ctx)),
        old(ctx).machine_state.stack@.len() == 0 ==> (r matches Err(e)
            && e matches EVMError::EmptyStackError(info) && snap_of(info, old(ctx).machine_state)
            && *final(ctx) == *old(ctx)),
        old(ctx).machine_state.stack@.len() >= 1 ==> ({
            let s = old(ctx).machine_state.stack@;
            &&& r matches Ok(None)
            &&& final(ctx).machine_state.stack@ == s.take(s.len() - 1).push(
                if s.last().as_nat() == 0 {
                    spec_from_u64(1)
                } else {
                    spec_zero()
                },
            )
        }),
{
    let items = match ctx.machine_state.pop_n(1) {
        Some(v) => v,
        None => {
            return Err(stack_underflow(&ctx.machine_state));
        },
    };
    let c = if items[0].is_zero() {
        Word::from_u64(1)
    } else {
        Word::zero()
    };
    ctx.machine_state.push(c);
    Ok(None)
}



/// The contract of one limb-wise bitwise binary opcode: the two top words
/// are replaced by `f` of them (first popped operand first).
pub open spec fn bitop_applied(
    pre: Seq<Word>,
    post: Seq<Word>,
    f: spec_fn(Word, Word) -> Word,
) -> bool {
    post == pre.take(pre.len() - 2).push(f(pre[pre.len() - 1], pre[pre.len() - 2]))
}

/// 0x16 AND: pop two words and push their bitwise conjunction.
pub fn op_and(ctx: &mut ExecutionContext) -> (r: OpcodeResult)
    ensures
        frame_kept(*old(ctx), *final(ctx)),
        mem_kept(*old(ctx), *final(ctx)),
        pc_out_kept(*old(ctx), *final(ctx)),
        substate_kept(*old(ctx), *final(ctx)),
        old(ctx).machine_state.stack@.len() < 2 ==> (r matches Err(e)
            && e matches EVMError::EmptyStackError(info) && snap_of(info, old(ctx).machine_state)
            && *final(ctx) == *old(ctx)),
        old(ctx).machine_state.stack@.len() >= 2 ==> (r matches Ok(None)) && bitop_applied(
            old(ctx).machine_state.stack@,
            final(ctx).machine_state.stack@,
            |x: Word, y: Word| spec_and(x, y),
        ),
{
    let items = match ctx.machine_state.pop_n(2) {
        Some(v) => v,
        None => {
            return Err(stack_underflow(&ctx.machine_state));
        },
    };
    let a = items[0];
    let b = items[1];
    let c = Word { w0: a.w0 & b.w0, w1: a.w1 & b.w1, w2: a.w2 & b.w2, w3: a.w3 & b.w3 };
    ctx.machine_state.push(c);
    Ok(None)
}

/// 0x17 OR: pop two words and push their bitwise disjunction.
pub fn op_or(ctx: &mut ExecutionContext) -> (r: OpcodeResult)
    ensures
        frame_kept(*old(ctx), *final(ctx)),
        mem_kept(*old(ctx), *final(ctx)),
        pc_out_kept(*old(ctx), *final(ctx)),
        substate_kept(*old(ctx), *final(ctx)),
        old(ctx).machine_state.stack@.len() < 2 ==> (r matches Err(e)
            && e matches EVMError::EmptyStackError(info) && snap_of(info, old(ctx).machine_state)
            && *final(ctx) == *old(ctx)),
        old(ctx).machine_state.stack@.len() >= 2 ==> (r matches Ok(None)) && bitop_applied(
            old(ctx).machine_state.stack@,
            final(ctx).machine_state.stack@,
            |x: Word, y: Word| spec_or(x, y),
        ),
{
    let items = match ctx.machine_state.pop_n(2) {
        Some(v) => v,
        None => {
            return Err(stack_underflow(&ctx.machine_state));
        },
    };
    let a = items[0];
    let b = items[1];
    let c = Word { w0: a.w0 | b.w0, w1: a.w1 | b.w1, w2: a.w2 | b.w2, w3: a.w3 | b.w3 };
    ctx.machine_state.push(c);
    Ok(None)
}

/// 0x18 XOR: pop two words and push their bitwise exclusive disjunction.
pub fn op_xor(ctx: &mut ExecutionContext) -> (r: OpcodeResult)
    ensures
        frame_kept(*old(ctx), *final(ctx)),
        mem_kept(*old(ctx), *final(ctx)),
        pc_out_kept(*old(ctx), *final(ctx)),
        substate_kept(*old(ctx), *final(ctx)),
        old(ctx).machine_state.stack@.len() < 2 ==> (r matches Err(e)
            && e matches EVMError::EmptyStackError(info) && snap_of(info, old(ctx).machine_state)
            && *final(ctx) == *old(ctx)),
        old(ctx).machine_state.stack@.len() >= 2 ==> (r matches Ok(None)) && bitop_applied(
            old(ctx).machine_state.stack@,
            final(ctx).machine_state.stack@,
            |x: Word, y: Word| spec_xor(x, y),
        ),
{
    let items = match ctx.machine_state.pop_n(2) {
        Some(v) => v,
        None => {
            return Err(stack_underflow(&ctx.machine_state));
        },
    };
    let a = items[0];
    let b = items[1];
    let c = Word { w0: a.w0 ^ b.w0, w1: a.w1 ^ b.w1, w2: a.w2 ^ b.w2, w3: a.w3 ^ b.w3 };
    ctx.machine_state.push(c);
    Ok(None)
}

/// 0x19 NOT: pop one word and push its bitwise complement.
pub fn op_not(ctx: &mut ExecutionContext) -> (r: OpcodeResult)
    ensures
        frame_kept(*old(ctx), *final(ctx)),
        mem_kept(*old(ctx), *final(ctx)),
        pc_out_kept(*old(ctx), *final(ctx)),
        substate_kept(*old(ctx), *final(ctx)),
        old(ctx).machine_state.stack@.len() == 0 ==> (r matches Err(e)
            && e matches EVMError::EmptyStackError(info) && snap_of(info, old(ctx).machine_state)
            && *final(ctx) == *old(ctx)),
        old(ctx).machine_state.stack@.len() >= 1 ==> ({
            let s = old(ctx).machine_state.stack@;
            (r matches Ok(None)) && final(ctx).machine_state.stack@ == s.take(s.len() - 1).push(
                spec_not(s.last()),
            )
        }),
{
    let items = match ctx.machine_state.pop_n(1) {
        Some(v) => v,
        None => {
            return Err(stack_underflow(&ctx.machine_state));
        },
    };
    let a = items[0];
    let c = Word { w0: !a.w0, w1: !a.w1, w2: !a.w2, w3: !a.w3 };
    ctx.machine_state.push(c);
    Ok(None)
}

/// 0x52 MSTORE: pop an offset and a word, and write the word's 32
/// big-endian bytes into memory at that offset, raising the watermark.
pub fn mstore(ctx: &mut ExecutionContext) -> (r: OpcodeResult)
    ensures
        frame_kept(*old(ctx), *final(ctx)),
        pc_out_kept(*old(ctx), *final(ctx)),
        substate_kept(*old(ctx), *final(ctx)),
        old(ctx).machine_state.stack@.len() < 2 ==> (r matches Err(e)
            && e matches EVMError::EmptyStackError(info) && snap_of(info, old(ctx).machine_state)
            && *final(ctx) == *old(ctx)),
        old(ctx).machine_state.stack@.len() >= 2 ==> ({
            let s = old(ctx).machine_state.stack@;
            let off = s[s.len() - 1];
            let w = s[s.len() - 2];
            &&& final(ctx).machine_state.stack@ == s.take(s.len() - 2)
            &&& if off.as_nat() + 32 > usize::MAX {
                (r matches Err(e) && e matches EVMError::U256ToUSizeError(v, _) && v == off
                    && mem_kept(*old(ctx), *final(ctx)))
            } else {
                (r matches Ok(None)) && copy_applied(
                    old(ctx).machine_state,
                    final(ctx).machine_state,
                    word_bytes_seq(w),
                    off.as_nat(),
                    0,
                    32,
                )
            }
        }),
{
    let items = match ctx.machine_state.pop_n(2) {
        Some(v) => v,
        None => {
            return Err(stack_underflow(&ctx.machine_state));
        },
    };
    let offset = match items[0].to_usize() {
        Some(o) => o,
        None => {
            return Err(usize_overflow(items[0], &ctx.machine_state));
        },
    };
    if offset > usize::MAX - 32 {
        return Err(usize_overflow(items[0], &ctx.machine_state));
    }
    let bytes = word_be_bytes(&items[1]);
    crate::machine::copy_padded(&mut ctx.machine_state.memory, &bytes, offset, 0, 32);
    ctx.machine_state.update_active_words(offset + 32);
    Ok(None)
}

/// 0x51 MLOAD: pop an offset and push the 32 bytes of memory there
/// (zero past the materialized end), raising the watermark.
pub fn mload(ctx: &mut ExecutionContext) -> (r: OpcodeResult)
    ensures
        frame_kept(*old(ctx), *final(ctx)),
        pc_out_kept(*old(ctx), *final(ctx)),
        substate_kept(*old(ctx), *final(ctx)),
        final(ctx).machine_state.memory@ == old(ctx).machine_state.memory@,
        old(ctx).machine_state.stack@.len() == 0 ==> (r matches Err(e)
            && e matches EVMError::EmptyStackError(info) && snap_of(info, old(ctx).machine_state)
            && *final(ctx) == *old(ctx)),
        old(ctx).machine_state.stack@.len() >= 1 ==> ({
            let s = old(ctx).machine_state.stack@;
            let off = s.last();
            let post = final(ctx).machine_state.stack@;
            &&& if off.as_nat() + 32 > usize::MAX {
                (r matches Err(e) && e matches EVMError::U256ToUSizeError(v, _) && v == off
                    && post == s.take(s.len() - 1) && final(ctx).machine_state.active_words
                    == old(ctx).machine_state.active_words)
            } else {
                (r matches Ok(None)) && post.len() == s.len() && post.take(s.len() - 1)
                    == s.take(s.len() - 1) && post.last().as_nat() == be_bytes_nat(
                    read_seq(old(ctx).machine_state.memory@, off.as_nat() as int, 32),
                ) && final(ctx).machine_state.active_words == max(
                    old(ctx).machine_state.active_words as int,
                    words_for((off.as_nat() + 32) as nat) as int,
                )
            }
        }),
{
    let items = match ctx.machine_state.pop_n(1) {
        Some(v) => v,
        None => {
            return Err(stack_underflow(&ctx.machine_state));
        },
    };
    let offset = match items[0].to_usize() {
        Some(o) => o,
        None => {
            return Err(usize_overflow(items[0], &ctx.machine_state));
        },
    };
    if offset > usize::MAX - 32 {
        return Err(usize_overflow(items[0], &ctx.machine_state));
    }
    let mut buf: Vec<u8> = Vec::new();
    let mut i: usize = 0;
    while i < 32
        invariant
            i <= 32,
            buf@.len() == i,
            forall|k: int|
                0 <= k < i ==> buf@[k] == read_byte(ctx.machine_state.memory@, offset + k),
        decreases 32 - i,
    {
        let b = if offset < ctx.machine_state.memory.len() && i < ctx.machine_state.memory.len()
            - offset {
            ctx.machine_state.memory[offset + i]
        } else {
            0
        };
        buf.push(b);
        i = i + 1;
    }
    proof {
        assert(buf@ =~= read_seq(ctx.machine_state.memory@, offset as int, 32));
    }
    let v = word_from_be32(&buf);
    ctx.machine_state.push(v);
    ctx.machine_state.update_active_words(offset + 32);
    proof {
        assert(final(ctx).machine_state.stack@.take(old(ctx).machine_state.stack@.len() - 1)
            =~= old(ctx).machine_state.stack@.take(old(ctx).machine_state.stack@.len() - 1));
    }
    Ok(None)
}

/// 0x50 POP: discard the top stack word.
pub fn op_pop(ctx: &mut ExecutionContext) -> (r: OpcodeResult)
    ensures
        frame_kept(*old(ctx), *final(ctx)),
        mem_kept(*old(ctx), *final(ctx)),
        pc_out_kept(*old(ctx), *final(ctx)),
        substate_kept(*old(ctx), *final(ctx)),
        old(ctx).machine_state.stack@.len() == 0 ==> (r matches Err(e)
            && e matches EVMError::EmptyStackError(info) && snap_of(info, old(ctx).machine_state)
            && *final(ctx) == *old(ctx)),
        old(ctx).machine_state.stack@.len() >= 1 ==> (r matches Ok(None))
            && final(ctx).machine_state.stack@ == old(ctx).machine_state.stack@.take(
            old(ctx).machine_state.stack@.len() - 1,
        ),
{
    match ctx.machine_state.pop_n(1) {
        Some(_) => Ok(None),
        None => Err(stack_underflow(&ctx.machine_state)),
    }
}

/// 0x58 PC: push the current program counter.
pub fn op_pc(ctx: &mut ExecutionContext) -> (r: OpcodeResult)
    ensures
        r matches Ok(None),
        final(ctx).machine_state.stack@ == old(ctx).machine_state.stack@.push(
            spec_from_u64(old(ctx).machine_state.pc as u64),
        ),
        frame_kept(*old(ctx), *final(ctx)),
        mem_kept(*old(ctx), *final(ctx)),
        pc_out_kept(*old(ctx), *final(ctx)),
        substate_kept(*old(ctx), *final(ctx)),
{
    let w = Word::from_u64(ctx.machine_state.pc as u64);
    ctx.machine_state.push(w);
    Ok(None)
}

/// 0x60..0x7f PUSH1..PUSH32: push the next `n` bytecode bytes as one word
/// (zero-padded past the end of the code) and step over them.
pub fn push_n(ctx: &mut ExecutionContext, n: usize) -> (r: OpcodeResult)
    requires
        1 <= n <= 32,
        old(ctx).machine_state.pc < old(ctx).input.bytecode@.len(),
        old(ctx).input.bytecode@.len() + 33 <= usize::MAX,
    ensures
        r matches Ok(None),
        frame_kept(*old(ctx), *final(ctx)),
        mem_kept(*old(ctx), *final(ctx)),
        substate_kept(*old(ctx), *final(ctx)),
        final(ctx).machine_state.output@ == old(ctx).machine_state.output@,
        final(ctx).machine_state.pc == old(ctx).machine_state.pc + 1 + n,
        final(ctx).machine_state.stack@.len() == old(ctx).machine_state.stack@.len() + 1,
        final(ctx).machine_state.stack@.drop_last() == old(ctx).machine_state.stack@,
        final(ctx).machine_state.stack@.last().as_nat() == be_bytes_nat(
            read_seq(old(ctx).input.bytecode@, old(ctx).machine_state.pc + 1, n as nat),
        ),
{
    let pc = ctx.machine_state.pc;
    let mut buf: Vec<u8> = Vec::new();
    let mut i: usize = 0;
    while i < n
        invariant
            i <= n,
            n <= 32,
            pc < ctx.input.bytecode@.len(),
            ctx.input.bytecode@.len() + 33 <= usize::MAX,
            buf@.len() == i,
            forall|k: int|
                0 <= k < i ==> buf@[k] == read_byte(ctx.input.bytecode@, pc + 1 + k),
        decreases n - i,
    {
        let idx = pc + 1 + i;
        let b = if idx < ctx.input.bytecode.len() {
            ctx.input.bytecode[idx]
        } else {
            0
        };
        buf.push(b);
        i = i + 1;
    }
    proof {
        assert(buf@ =~= read_seq(ctx.input.bytecode@, pc + 1, n as nat));
    }
    let v = word_from_be(&buf);
    ctx.machine_state.push(v);
    ctx.machine_state.pc = pc + 1 + n;
    proof {
        assert(final(ctx).machine_state.stack@.drop_last() =~= old(ctx).machine_state.stack@);
    }
    Ok(None)
}

/// 0xf3 RETURN: pop an offset and a length, move that memory slice (zero-
/// padded past the materialized end) into the output buffer, and halt
/// successfully.
pub fn return_op(ctx: &mut ExecutionContext) -> (r: OpcodeResult)
    ensures
        frame_kept(*old(ctx), *final(ctx)),
        substate_kept(*old(ctx), *final(ctx)),
        final(ctx).machine_state.pc == old(ctx).machine_state.pc,
        final(ctx).machine_state.memory@ == old(ctx).machine_state.memory@,
        old(ctx).machine_state.stack@.len() < 2 ==> (r matches Err(e)
            && e matches EVMError::EmptyStackError(info) && snap_of(info, old(ctx).machine_state)
            && *final(ctx) == *old(ctx)),
        old(ctx).machine_state.stack@.len() >= 2 ==> ({
            let s = old(ctx).machine_state.stack@;
            let off = s[s.len() - 1];
            let sz = s[s.len() - 2];
            &&& final(ctx).machine_state.stack@ == s.take(s.len() - 2)
            &&& if off.as_nat() > usize::MAX {
                (r matches Err(e) && e matches EVMError::U256ToUSizeError(w, _) && w == off
                    && final(ctx).machine_state.output@ == old(ctx).machine_state.output@
                    && final(ctx).machine_state.active_words == old(
                    ctx,
                ).machine_state.active_words)
            } else if sz.as_nat() > usize::MAX {
                (r matches Err(e) && e matches EVMError::U256ToUSizeError(w, _) && w == sz
                    && final(ctx).machine_state.output@ == old(ctx).machine_state.output@
                    && final(ctx).machine_state.active_words == old(
                    ctx,
                ).machine_state.active_words)
            } else if off.as_nat() + sz.as_nat() > usize::MAX {
                (r matches Err(e) && e matches EVMError::U256ToUSizeError(w, _) && w == sz
                    && final(ctx).machine_state.output@ == old(ctx).machine_state.output@
                    && final(ctx).machine_state.active_words == old(
                    ctx,
                ).machine_state.active_words)
            } else {
                (r matches Ok(h) && h == Some(Halt::Return) && final(ctx).machine_state.output@
                    == read_seq(old(ctx).machine_state.memory@, off.as_nat() as int, sz.as_nat())
                    && final(ctx).machine_state.active_words == max(
                    old(ctx).machine_state.active_words as int,
                    words_for((off.as_nat() + sz.as_nat()) as nat) as int,
                ))
            }
        }),
{
    let items = match ctx.machine_state.pop_n(2) {
        Some(v) => v,
        None => {
            return Err(stack_underflow(&ctx.machine_state));
        },
    };
    let offset = match items[0].to_usize() {
        Some(o) => o,
        None => {
            return Err(usize_overflow(items[0], &ctx.machine_state));
        },
    };
    let size = match items[1].to_usize() {
        Some(z) => z,
        None => {
            return Err(usize_overflow(items[1], &ctx.machine_state));
        },
    };
    if size > usize::MAX - offset {
        return Err(usize_overflow(items[1], &ctx.machine_state));
    }
    let mut out: Vec<u8> = Vec::new();
    let mut i: usize = 0;
    while i < size
        invariant
            i <= size,
            out@.len() == i,
            forall|k: int|
                0 <= k < i ==> out@[k] == read_byte(ctx.machine_state.memory@, offset + k),
        decreases size - i,
    {
        let b = if offset < ctx.machine_state.memory.len() && i < ctx.machine_state.memory.len()
            - offset {
            ctx.machine_state.memory[offset + i]
        } else {
            0
        };
        out.push(b);
        i = i + 1;
    }
    proof {
        assert(out@ =~= read_seq(ctx.machine_state.memory@, offset as int, size as nat));
    }
    ctx.machine_state.output = out;
    ctx.machine_state.update_active_words(offset + size);
    Ok(Some(Halt::Return))
}

/// Number of immediate data bytes following an opcode byte: a push opcode
/// carries its operand inline, any other opcode carries none.
pub open spec fn push_span(op: u8) -> nat {
    if 0x60 <= op <= 0x7f {
        (op - 0x5f) as nat
    } else {
        0
    }
}

/// The positions, at or after scan position `i`, of JUMPDEST bytes that are
/// opcodes (not bytes embedded in the data span of a push).
pub open spec fn dests_from(code: Seq<u8>, i: nat) -> Set<nat>
    decreases code.len() - i,
{
    if i >= code.len() {
        Set::empty()
    } else {
        let next = i + 1 + push_span(code[i as int]);
        let rest = if next <= code.len() {
            dests_from(code, next)
        } else {
            Set::<nat>::empty()
        };
        if code[i as int] == 0x5b {
            rest.insert(i)
        } else {
            rest
        }
    }
}

/// A position is a valid jump destination when the scan from the start of
/// the code finds a JUMPDEST opcode there.
pub open spec fn is_jumpdest(code: Seq<u8>, d: nat) -> bool {
    dests_from(code, 0).contains(d)
}

/// Every destination found from position `i` lies at or after `i`, and
/// inside the code.
proof fn lemma_dests_from_lower(code: Seq<u8>, i: nat)
    ensures
        forall|d: nat| #[trigger] dests_from(code, i).contains(d) ==> i <= d < code.len(),
    decreases code.len() - i,
{
    if i < code.len() {
        let next = i + 1 + push_span(code[i as int]);
        if next <= code.len() {
            lemma_dests_from_lower(code, next);
        }
        assert forall|d: nat| #[trigger] dests_from(code, i).contains(d) implies i <= d
            < code.len() by {
            if d != i {
                if next <= code.len() {
                    assert(dests_from(code, next).contains(d));
                } else {
                    assert(false);
                }
            }
        }
    }
}

/// Mark every valid jump destination of `code`.
pub fn valid_jumpdests(code: &Vec<u8>) -> (marks: Vec<bool>)
    requires
        code@.len() + 33 <= usize::MAX,
    ensures
        marks@.len() == code@.len(),
        forall|d: int|
            0 <= d < code@.len() ==> (marks@[d] <==> #[trigger] is_jumpdest(code@, d as nat)),
{
    let n = code.len();
    let mut marks: Vec<bool> = Vec::new();
    let mut j: usize = 0;
    while j < n
        invariant
            j <= n,
            marks@.len() == j,
            forall|d: int| 0 <= d < j ==> !marks@[d],
        decreases n - j,
    {
        marks.push(false);
        j = j + 1;
    }
    let mut i: usize = 0;
    while i < n
        invariant
            n == code@.len(),
            n + 33 <= usize::MAX,
            marks@.len() == n,
            forall|d: int|
                0 <= d < n && d < i ==> (marks@[d] <==> #[trigger] is_jumpdest(
                    code@,
                    d as nat,
                )),
            forall|d: int| i <= d < n ==> !marks@[d],
            forall|d: nat|
                d >= i ==> (is_jumpdest(code@, d) <==> #[trigger] dests_from(
                    code@,
                    i as nat,
                ).contains(d)),
        decreases n - i,
    {
        let ghost i0 = i as nat;
        let op = code[i];
        if op == 0x5b {
            marks.set(i, true);
        }
        let span = if 0x60 <= op && op <= 0x7f {
            (op - 0x5f) as usize
        } else {
            0
        };
        let ghost marks_mid = marks@;
        let next_i = i + 1 + span;
        i = if next_i > n {
            n
        } else {
            next_i
        };
        proof {
            let c = code@;
            let next = i0 + 1 + push_span(op);
            assert(next_i as nat == next);
            assert(dests_from(c, i0) == (if op == 0x5b {
                (if next <= c.len() {
                    dests_from(c, next)
                } else {
                    Set::<nat>::empty()
                }).insert(i0)
            } else {
                (if next <= c.len() {
                    dests_from(c, next)
                } else {
                    Set::<nat>::empty()
                })
            }));
            if next <= c.len() {
                lemma_dests_from_lower(c, next);
            }
            lemma_dests_from_lower(c, 0);
            assert forall|d: nat| d >= i implies (is_jumpdest(c, d) <==> #[trigger] dests_from(
                c,
                i as nat,
            ).contains(d)) by {
                if d >= next {
                    assert(is_jumpdest(c, d) <==> dests_from(c, i0).contains(d));
                    if next > c.len() {
                        assert(!dests_from(c, next).contains(d));
                        assert(!dests_from(c, i0).contains(d));
                    }
                } else {
                    assert(i as nat == n && next > n);
                    assert(d >= c.len());
                    assert(!is_jumpdest(c, d));
                    assert(!dests_from(c, i as nat).contains(d));
                }
            }
            assert forall|d: int| 0 <= d < n && d < i implies (marks_mid[d]
                <==> is_jumpdest(c, d as nat)) by {
                if d < i0 {
                } else if d == i0 {
                    assert(dests_from(c, i0).contains(i0) <==> op == 0x5b);
                    assert(is_jumpdest(c, i0) <==> dests_from(c, i0).contains(i0));
                } else {
                    assert(!marks_mid[d]);
                    assert(is_jumpdest(c, d as nat) <==> dests_from(c, i0).contains(d as nat));
                    assert(!dests_from(c, i0).contains(d as nat));
                }
            }
        }
    }
    marks
}

/// 0x56 JUMP: pop a destination and redirect the program counter there;
/// a destination that is not a JUMPDEST opcode fails.
pub fn jump(ctx: &mut ExecutionContext, marks: &Vec<bool>) -> (r: OpcodeResult)
    requires
        marks@.len() == old(ctx).input.bytecode@.len(),
        forall|d: int|
            0 <= d < marks@.len() ==> (marks@[d] <==> #[trigger] is_jumpdest(
                old(ctx).input.bytecode@,
                d as nat,
            )),
    ensures
        frame_kept(*old(ctx), *final(ctx)),
        mem_kept(*old(ctx), *final(ctx)),
        substate_kept(*old(ctx), *final(ctx)),
        final(ctx).machine_state.output@ == old(ctx).machine_state.output@,
        old(ctx).machine_state.stack@.len() == 0 ==> (r matches Err(e)
            && e matches EVMError::EmptyStackError(info) && snap_of(info, old(ctx).machine_state)
            && *final(ctx) == *old(ctx)),
        old(ctx).machine_state.stack@.len() >= 1 ==> ({
            let s = old(ctx).machine_state.stack@;
            let dest = s.last();
            &&& final(ctx).machine_state.stack@ == s.take(s.len() - 1)
            &&& if dest.as_nat() > usize::MAX {
                (r matches Err(e) && e matches EVMError::U256ToUSizeError(w, _) && w == dest
                    && final(ctx).machine_state.pc == old(ctx).machine_state.pc)
            } else if dest.as_nat() < old(ctx).input.bytecode@.len() && is_jumpdest(
                old(ctx).input.bytecode@,
                dest.as_nat(),
            ) {
                (r matches Ok(None)) && final(ctx).machine_state.pc == dest.as_nat()
            } else {
                (r matches Err(e) && e matches EVMError::InvalidJumpdestError(v, _) && v
                    == dest.as_nat() && final(ctx).machine_state.pc == old(
                    ctx,
                ).machine_state.pc)
            }
        }),
{
    let items = match ctx.machine_state.pop_n(1) {
        Some(v) => v,
        None => {
            return Err(stack_underflow(&ctx.machine_state));
        },
    };
    let dest = match items[0].to_usize() {
        Some(d) => d,
        None => {
            return Err(usize_overflow(items[0], &ctx.machine_state));
        },
    };
    if dest < marks.len() && marks[dest] {
        ctx.machine_state.pc = dest;
        Ok(None)
    } else {
        Err(EVMError::InvalidJumpdestError(dest, ErrorInfo::capture(&ctx.machine_state)))
    }
}

/// 0x57 JUMPI: pop a destination and a condition; jump when the condition
/// is nonzero, otherwise fall through to the next opcode.
pub fn jumpi(ctx: &mut ExecutionContext, marks: &Vec<bool>) -> (r: OpcodeResult)
    requires
        old(ctx).machine_state.pc < old(ctx).input.bytecode@.len(),
        old(ctx).input.bytecode@.len() + 33 <= usize::MAX,
        marks@.len() == old(ctx).input.bytecode@.len(),
        forall|d: int|
            0 <= d < marks@.len() ==> (marks@[d] <==> #[trigger] is_jumpdest(
                old(ctx).input.bytecode@,
                d as nat,
            )),
    ensures
        frame_kept(*old(ctx), *final(ctx)),
        mem_kept(*old(ctx), *final(ctx)),
        substate_kept(*old(ctx), *final(ctx)),
        final(ctx).machine_state.output@ == old(ctx).machine_state.output@,
        old(ctx).machine_state.stack@.len() < 2 ==> (r matches Err(e)
            && e matches EVMError::EmptyStackError(info) && snap_of(info, old(ctx).machine_state)
            && *final(ctx) == *old(ctx)),
        old(ctx).machine_state.stack@.len() >= 2 ==> ({
            let s = old(ctx).machine_state.stack@;
            let dest = s[s.len() - 1];
            let cond = s[s.len() - 2];
            &&& final(ctx).machine_state.stack@ == s.take(s.len() - 2)
            &&& if cond.as_nat() == 0 {
                (r matches Ok(None)) && final(ctx).machine_state.pc == old(
                    ctx,
                ).machine_state.pc + 1
            } else if dest.as_nat() > usize::MAX {
                (r matches Err(e) && e matches EVMError::U256ToUSizeError(w, _) && w == dest
                    && final(ctx).machine_state.pc == old(ctx).machine_state.pc)
            } else if dest.as_nat() < old(ctx).input.bytecode@.len() && is_jumpdest(
                old(ctx).input.bytecode@,
                dest.as_nat(),
            ) {
                (r matches Ok(None)) && final(ctx).machine_state.pc == dest.as_nat()
            } else {
                (r matches Err(e) && e matches EVMError::InvalidJumpdestError(v, _) && v
                    == dest.as_nat() && final(ctx).machine_state.pc == old(
                    ctx,
                ).machine_state.pc)
            }
        }),
{
    let items = match ctx.machine_state.pop_n(2) {
        Some(v) => v,
        None => {
            return Err(stack_underflow(&ctx.machine_state));
        },
    };
    if items[1].is_zero() {
        ctx.machine_state.pc = ctx.machine_state.pc + 1;
        return Ok(None);
    }
    let dest = match items[0].to_usize() {
        Some(d) => d,
        None => {
            return Err(usize_overflow(items[0], &ctx.machine_state));
        },
    };
    if dest < marks.len() && marks[dest] {
        ctx.machine_state.pc = dest;
        Ok(None)
    } else {
        Err(EVMError::InvalidJumpdestError(dest, ErrorInfo::capture(&ctx.machine_state)))
    }
}


/// The output buffer is untouched.
pub open spec fn out_kept(pre: ExecutionContext, post: ExecutionContext) -> bool {
    post.machine_state.output@ == pre.machine_state.output@
}

/// The program counter moved to the next opcode.
pub open spec fn advanced(pre: ExecutionContext, post: ExecutionContext) -> bool {
    post.machine_state.pc == pre.machine_state.pc + 1
}

/// A failed stack check: the whole context is unchanged and the step
/// reports the empty-stack failure with a snapshot of that state.
pub open spec fn underflow_step(pre: ExecutionContext, post: ExecutionContext, r: OpcodeResult) -> bool {
    post == pre && (r matches Err(e) && e matches EVMError::EmptyStackError(info) && snap_of(
        info,
        pre.machine_state,
    ))
}

/// One step of an opcode that only pushes a value and continues.
pub open spec fn push_value_step(
    pre: ExecutionContext,
    post: ExecutionContext,
    r: OpcodeResult,
    w: Word,
) -> bool {
    &&& r matches Ok(None)
    &&& post.machine_state.stack@ == pre.machine_state.stack@.push(w)
    &&& frame_kept(pre, post) && mem_kept(pre, post) && substate_kept(pre, post) && out_kept(
        pre,
        post,
    ) && advanced(pre, post)
}

/// One step of a wrapping binary arithmetic or comparison opcode.
pub open spec fn binop_step(
    pre: ExecutionContext,
    post: ExecutionContext,
    r: OpcodeResult,
    f: spec_fn(nat, nat) -> nat,
) -> bool {
    &&& frame_kept(pre, post) && mem_kept(pre, post) && substate_kept(pre, post) && out_kept(
        pre,
        post,
    )
    &&& if pre.machine_state.stack@.len() < 2 {
        underflow_step(pre, post, r)
    } else {
        (r matches Ok(None)) && binop_applied(
            pre.machine_state.stack@,
            post.machine_state.stack@,
            f,
        ) && advanced(pre, post)
    }
}

/// One step of a limb-wise bitwise binary opcode.
pub open spec fn bitop_step(
    pre: ExecutionContext,
    post: ExecutionContext,
    r: OpcodeResult,
    f: spec_fn(Word, Word) -> Word,
) -> bool {
    &&& frame_kept(pre, post) && mem_kept(pre, post) && substate_kept(pre, post) && out_kept(
        pre,
        post,
    )
    &&& if pre.machine_state.stack@.len() < 2 {
        underflow_step(pre, post, r)
    } else {
        (r matches Ok(None)) && bitop_applied(
            pre.machine_state.stack@,
            post.machine_state.stack@,
            f,
        ) && advanced(pre, post)
    }
}

/// One step of an opcode replacing the top word by a function of it.
pub open spec fn unary_step(
    pre: ExecutionContext,
    post: ExecutionContext,
    r: OpcodeResult,
    f: spec_fn(Word) -> Word,
) -> bool {
    &&& frame_kept(pre, post) && mem_kept(pre, post) && substate_kept(pre, post) && out_kept(
        pre,
        post,
    )
    &&& if pre.machine_state.stack@.len() < 1 {
        underflow_step(pre, post, r)
    } else {
        let s = pre.machine_state.stack@;
        (r matches Ok(None)) && post.machine_state.stack@ == s.take(s.len() - 1).push(
            f(s.last()),
        ) && advanced(pre, post)
    }
}

/// One step of BALANCE.
pub open spec fn balance_step(pre: ExecutionContext, post: ExecutionContext, r: OpcodeResult) -> bool {
    &&& frame_kept(pre, post) && mem_kept(pre, post) && out_kept(pre, post)
    &&& if pre.machine_state.stack@.len() == 0 {
        underflow_step(pre, post, r)
    } else {
        let s = pre.machine_state.stack@;
        let a = spec_address(s.last());
        (r matches Ok(None)) && post.machine_state.stack@ == s.take(s.len() - 1).push(
            crate::state::balance_of(pre.global_state, a),
        ) && crate::state::marked(pre.accrued_substate, post.accrued_substate, a) && advanced(
            pre,
            post,
        )
    }
}

/// One step of EXTCODESIZE.
pub open spec fn extcodesize_step(
    pre: ExecutionContext,
    post: ExecutionContext,
    r: OpcodeResult,
) -> bool {
    &&& frame_kept(pre, post) && mem_kept(pre, post) && out_kept(pre, post)
    &&& if pre.machine_state.stack@.len() == 0 {
        underflow_step(pre, post, r)
    } else {
        let s = pre.machine_state.stack@;
        let a = spec_address(s.last());
        (r matches Ok(None)) && post.machine_state.stack@ == s.take(s.len() - 1).push(
            spec_from_u64(crate::state::code_of(pre.global_state, a).len() as u64),
        ) && crate::state::marked(pre.accrued_substate, post.accrued_substate, a) && advanced(
            pre,
            post,
        )
    }
}

/// One step of EXTCODEHASH.
pub open spec fn extcodehash_step(
    pre: ExecutionContext,
    post: ExecutionContext,
    r: OpcodeResult,
) -> bool {
    &&& frame_kept(pre, post) && mem_kept(pre, post) && out_kept(pre, post)
    &&& if pre.machine_state.stack@.len() == 0 {
        underflow_step(pre, post, r)
    } else {
        let s = pre.machine_state.stack@;
        let a = spec_address(s.last());
        let ps = post.machine_state.stack@;
        &&& r matches Ok(None)
        &&& ps.len() == s.len()
        &&& ps.take(s.len() - 1) == s.take(s.len() - 1)
        &&& (pre.global_state.spec_get(a) matches Some(acct) ==> ps.last().as_nat()
            == be_bytes_nat(crate::crypto::keccak256_of(acct.code@)))
        &&& (pre.global_state.spec_get(a) is None ==> ps.last() == spec_zero())
        &&& crate::state::marked(pre.accrued_substate, post.accrued_substate, a)
        &&& advanced(pre, post)
    }
}

/// One step of CALLDATALOAD.
pub open spec fn calldataload_step(
    pre: ExecutionContext,
    post: ExecutionContext,
    r: OpcodeResult,
) -> bool {
    &&& frame_kept(pre, post) && mem_kept(pre, post) && substate_kept(pre, post) && out_kept(
        pre,
        post,
    )
    &&& if pre.machine_state.stack@.len() == 0 {
        underflow_step(pre, post, r)
    } else {
        let s = pre.machine_state.stack@;
        let off = s.last();
        let ps = post.machine_state.stack@;
        if off.as_nat() > usize::MAX {
            (r matches Err(e) && e matches EVMError::U256ToUSizeError(w, _) && w == off) && ps
                == s.take(s.len() - 1) && post.machine_state.pc == pre.machine_state.pc
        } else {
            (r matches Ok(None)) && ps.len() == s.len() && ps.take(s.len() - 1) == s.take(
                s.len() - 1,
            ) && ps.last().as_nat() == be_bytes_nat(
                read_seq(pre.input.data@, off.as_nat() as int, 32),
            ) && advanced(pre, post)
        }
    }
}

/// One step of a three-operand copy opcode reading from `src`.
pub open spec fn copy3_step(
    pre: ExecutionContext,
    post: ExecutionContext,
    r: OpcodeResult,
    src: Seq<u8>,
) -> bool {
    &&& frame_kept(pre, post) && substate_kept(pre, post) && out_kept(pre, post)
    &&& if pre.machine_state.stack@.len() < 3 {
        underflow_step(pre, post, r)
    } else {
        let s = pre.machine_state.stack@;
        &&& crate::environmental::copy_outcome(
            pre,
            post,
            r,
            src,
            s[s.len() - 1],
            s[s.len() - 2],
            s[s.len() - 3],
            3,
        )
        &&& (r matches Ok(None) ==> advanced(pre, post))
        &&& (r is Err ==> post.machine_state.pc == pre.machine_state.pc)
    }
}

/// One step of EXTCODECOPY.
pub open spec fn extcodecopy_step(
    pre: ExecutionContext,
    post: ExecutionContext,
    r: OpcodeResult,
) -> bool {
    &&& frame_kept(pre, post) && out_kept(pre, post)
    &&& if pre.machine_state.stack@.len() < 4 {
        underflow_step(pre, post, r)
    } else {
        let s = pre.machine_state.stack@;
        let a = spec_address(s[s.len() - 1]);
        &&& crate::environmental::copy_outcome(
            pre,
            post,
            r,
            crate::state::code_of(pre.global_state, a),
            s[s.len() - 2],
            s[s.len() - 3],
            s[s.len() - 4],
            4,
        )
        &&& (r matches Ok(None) ==> crate::state::marked(
            pre.accrued_substate,
            post.accrued_substate,
            a,
        ) && advanced(pre, post))
        &&& (r is Err ==> substate_kept(pre, post) && post.machine_state.pc
            == pre.machine_state.pc)
    }
}

/// One step of POP.
pub open spec fn pop_step(pre: ExecutionContext, post: ExecutionContext, r: OpcodeResult) -> bool {
    &&& frame_kept(pre, post) && mem_kept(pre, post) && substate_kept(pre, post) && out_kept(
        pre,
        post,
    )
    &&& if pre.machine_state.stack@.len() == 0 {
        underflow_step(pre, post, r)
    } else {
        let s = pre.machine_state.stack@;
        (r matches Ok(None)) && post.machine_state.stack@ == s.take(s.len() - 1) && advanced(
            pre,
            post,
        )
    }
}

/// One step of MLOAD.
pub open spec fn mload_step(pre: ExecutionContext, post: ExecutionContext, r: OpcodeResult) -> bool {
    &&& frame_kept(pre, post) && substate_kept(pre, post) && out_kept(pre, post)
    &&& post.machine_state.memory@ == pre.machine_state.memory@
    &&& if pre.machine_state.stack@.len() == 0 {
        underflow_step(pre, post, r)
    } else {
        let s = pre.machine_state.stack@;
        let off = s.last();
        let ps = post.machine_state.stack@;
        if off.as_nat() + 32 > usize::MAX {
            (r matches Err(e) && e matches EVMError::U256ToUSizeError(v, _) && v == off) && ps
                == s.take(s.len() - 1) && post.machine_state.active_words
                == pre.machine_state.active_words && post.machine_state.pc
                == pre.machine_state.pc
        } else {
            (r matches Ok(None)) && ps.len() == s.len() && ps.take(s.len() - 1) == s.take(
                s.len() - 1,
            ) && ps.last().as_nat() == be_bytes_nat(
                read_seq(pre.machine_state.memory@, off.as_nat() as int, 32),
            ) && post.machine_state.active_words == max(
                pre.machine_state.active_words as int,
                words_for((off.as_nat() + 32) as nat) as int,
            ) && advanced(pre, post)
        }
    }
}

/// One step of MSTORE.
pub open spec fn mstore_step(pre: ExecutionContext, post: ExecutionContext, r: OpcodeResult) -> bool {
    &&& frame_kept(pre, post) && substate_kept(pre, post) && out_kept(pre, post)
    &&& if pre.machine_state.stack@.len() < 2 {
        underflow_step(pre, post, r)
    } else {
        let s = pre.machine_state.stack@;
        let off = s[s.len() - 1];
        let w = s[s.len() - 2];
        &&& post.machine_state.stack@ == s.take(s.len() - 2)
        &&& if off.as_nat() + 32 > usize::MAX {
            (r matches Err(e) && e matches EVMError::U256ToUSizeError(v, _) && v == off
                && mem_kept(pre, post) && post.machine_state.pc == pre.machine_state.pc)
        } else {
            (r matches Ok(None)) && copy_applied(
                pre.machine_state,
                post.machine_state,
                word_bytes_seq(w),
                off.as_nat(),
                0,
                32,
            ) && advanced(pre, post)
        }
    }
}

/// One step of JUMP.
pub open spec fn jump_step(pre: ExecutionContext, post: ExecutionContext, r: OpcodeResult) -> bool {
    &&& frame_kept(pre, post) && mem_kept(pre, post) && substate_kept(pre, post) && out_kept(
        pre,
        post,
    )
    &&& if pre.machine_state.stack@.len() == 0 {
        underflow_step(pre, post, r)
    } else {
        let s = pre.machine_state.stack@;
        let dest = s.last();
        &&& post.machine_state.stack@ == s.take(s.len() - 1)
        &&& if dest.as_nat() > usize::MAX {
            (r matches Err(e) && e matches EVMError::U256ToUSizeError(w, _) && w == dest
                && post.machine_state.pc == pre.machine_state.pc)
        } else if dest.as_nat() < pre.input.bytecode@.len() && is_jumpdest(
            pre.input.bytecode@,
            dest.as_nat(),
        ) {
            (r matches Ok(None)) && post.machine_state.pc == dest.as_nat()
        } else {
            (r matches Err(e) && e matches EVMError::InvalidJumpdestError(v, _) && v
                == dest.as_nat() && post.machine_state.pc == pre.machine_state.pc)
        }
    }
}

/// One step of JUMPI.
pub open spec fn jumpi_step(pre: ExecutionContext, post: ExecutionContext, r: OpcodeResult) -> bool {
    &&& frame_kept(pre, post) && mem_kept(pre, post) && substate_kept(pre, post) && out_kept(
        pre,
        post,
    )
    &&& if pre.machine_state.stack@.len() < 2 {
        underflow_step(pre, post, r)
    } else {
        let s = pre.machine_state.stack@;
        let dest = s[s.len() - 1];
        let cond = s[s.len() - 2];
        &&& post.machine_state.stack@ == s.take(s.len() - 2)
        &&& if cond.as_nat() == 0 {
            (r matches Ok(None)) && advanced(pre, post)
        } else if dest.as_nat() > usize::MAX {
            (r matches Err(e) && e matches EVMError::U256ToUSizeError(w, _) && w == dest
                && post.machine_state.pc == pre.machine_state.pc)
        } else if dest.as_nat() < pre.input.bytecode@.len() && is_jumpdest(
            pre.input.bytecode@,
            dest.as_nat(),
        ) {
            (r matches Ok(None)) && post.machine_state.pc == dest.as_nat()
        } else {
            (r matches Err(e) && e matches EVMError::InvalidJumpdestError(v, _) && v
                == dest.as_nat() && post.machine_state.pc == pre.machine_state.pc)
        }
    }
}

/// One step of a push opcode carrying `n` immediate bytes.
pub open spec fn push_n_step(
    pre: ExecutionContext,
    post: ExecutionContext,
    r: OpcodeResult,
    n: nat,
) -> bool {
    &&& r matches Ok(None)
    &&& frame_kept(pre, post) && mem_kept(pre, post) && substate_kept(pre, post) && out_kept(
        pre,
        post,
    )
    &&& post.machine_state.stack@.len() == pre.machine_state.stack@.len() + 1
    &&& post.machine_state.stack@.drop_last() == pre.machine_state.stack@
    &&& post.machine_state.stack@.last().as_nat() == be_bytes_nat(
        read_seq(pre.input.bytecode@, pre.machine_state.pc + 1, n),
    )
    &&& post.machine_state.pc == pre.machine_state.pc + 1 + n
}

/// One step of RETURN.
pub open spec fn return_step(pre: ExecutionContext, post: ExecutionContext, r: OpcodeResult) -> bool {
    &&& frame_kept(pre, post) && substate_kept(pre, post)
    &&& post.machine_state.pc == pre.machine_state.pc
    &&& post.machine_state.memory@ == pre.machine_state.memory@
    &&& if pre.machine_state.stack@.len() < 2 {
        underflow_step(pre, post, r)
    } else {
        let s = pre.machine_state.stack@;
        let off = s[s.len() - 1];
        let sz = s[s.len() - 2];
        &&& post.machine_state.stack@ == s.take(s.len() - 2)
        &&& if off.as_nat() > usize::MAX {
            (r matches Err(e) && e matches EVMError::U256ToUSizeError(w, _) && w == off
                && out_kept(pre, post) && post.machine_state.active_words
                == pre.machine_state.active_words)
        } else if sz.as_nat() > usize::MAX {
            (r matches Err(e) && e matches EVMError::U256ToUSizeError(w, _) && w == sz
                && out_kept(pre, post) && post.machine_state.active_words
                == pre.machine_state.active_words)
        } else if off.as_nat() + sz.as_nat() > usize::MAX {
            (r matches Err(e) && e matches EVMError::U256ToUSizeError(w, _) && w == sz
                && out_kept(pre, post) && post.machine_state.active_words
                == pre.machine_state.active_words)
        } else {
            (r matches Ok(h) && h == Some(Halt::Return)) && post.machine_state.output@
                == read_seq(pre.machine_state.memory@, off.as_nat() as int, sz.as_nat())
                && post.machine_state.active_words == max(
                pre.machine_state.active_words as int,
                words_for((off.as_nat() + sz.as_nat()) as nat) as int,
            )
        }
    }
}

/// One dispatch step at the opcode under the program counter: exactly what
/// fetching, decoding and executing that opcode does to the context, and
/// what the step reports.
pub open spec fn step_rel(pre: ExecutionContext, post: ExecutionContext, r: OpcodeResult) -> bool
    recommends
        pre.machine_state.pc < pre.input.bytecode@.len(),
{
    let op = pre.input.bytecode@[pre.machine_state.pc as int];
    if op == 0x00 {
        post == pre && r == Ok::<Option<Halt>, EVMError>(Some(Halt::Stop))
    } else if op == 0x01 {
        binop_step(pre, post, r, |x: nat, y: nat| add_mod(x, y))
    } else if op == 0x02 {
        binop_step(pre, post, r, |x: nat, y: nat| mul_mod(x, y))
    } else if op == 0x03 {
        binop_step(pre, post, r, |x: nat, y: nat| sub_mod(x, y))
    } else if op == 0x04 {
        binop_step(pre, post, r, |x: nat, y: nat| div_word(x, y))
    } else if op == 0x06 {
        binop_step(pre, post, r, |x: nat, y: nat| mod_word(x, y))
    } else if op == 0x10 {
        binop_step(pre, post, r, |x: nat, y: nat| lt_val(x, y))
    } else if op == 0x11 {
        binop_step(pre, post, r, |x: nat, y: nat| gt_val(x, y))
    } else if op == 0x14 {
        binop_step(pre, post, r, |x: nat, y: nat| eq_val(x, y))
    } else if op == 0x15 {
        unary_step(
            pre,
            post,
            r,
            |x: Word|
                if x.as_nat() == 0 {
                    spec_from_u64(1)
                } else {
                    spec_zero()
                },
        )
    } else if op == 0x16 {
        bitop_step(pre, post, r, |x: Word, y: Word| spec_and(x, y))
    } else if op == 0x17 {
        bitop_step(pre, post, r, |x: Word, y: Word| spec_or(x, y))
    } else if op == 0x18 {
        bitop_step(pre, post, r, |x: Word, y: Word| spec_xor(x, y))
    } else if op == 0x19 {
        unary_step(pre, post, r, |x: Word| spec_not(x))
    } else if op == 0x30 {
        push_value_step(pre, post, r, pre.input.address)
    } else if op == 0x31 {
        balance_step(pre, post, r)
    } else if op == 0x32 {
        push_value_step(pre, post, r, pre.input.origin)
    } else if op == 0x33 {
        push_value_step(pre, post, r, pre.input.sender)
    } else if op == 0x34 {
        push_value_step(pre, post, r, pre.input.value)
    } else if op == 0x35 {
        calldataload_step(pre, post, r)
    } else if op == 0x36 {
        push_value_step(pre, post, r, spec_from_u64(pre.input.data@.len() as u64))
    } else if op == 0x37 {
        copy3_step(pre, post, r, pre.input.data@)
    } else if op == 0x38 {
        push_value_step(pre, post, r, spec_from_u64(pre.input.bytecode@.len() as u64))
    } else if op == 0x39 {
        copy3_step(pre, post, r, pre.input.bytecode@)
    } else if op == 0x3a {
        push_value_step(pre, post, r, pre.input.price)
    } else if op == 0x3b {
        extcodesize_step(pre, post, r)
    } else if op == 0x3c {
        extcodecopy_step(pre, post, r)
    } else if op == 0x3d {
        push_value_step(pre, post, r, spec_from_u64(pre.machine_state.output@.len() as u64))
    } else if op == 0x3e {
        copy3_step(pre, post, r, pre.machine_state.output@)
    } else if op == 0x3f {
        extcodehash_step(pre, post, r)
    } else if op == 0x50 {
        pop_step(pre, post, r)
    } else if op == 0x51 {
        mload_step(pre, post, r)
    } else if op == 0x52 {
        mstore_step(pre, post, r)
    } else if op == 0x56 {
        jump_step(pre, post, r)
    } else if op == 0x57 {
        jumpi_step(pre, post, r)
    } else if op == 0x58 {
        push_value_step(pre, post, r, spec_from_u64(pre.machine_state.pc as u64))
    } else if op == 0x5b {
        (r matches Ok(None)) && post.machine_state.stack@ == pre.machine_state.stack@
            && frame_kept(pre, post) && mem_kept(pre, post) && substate_kept(pre, post)
            && out_kept(pre, post) && advanced(pre, post)
    } else if 0x60 <= op <= 0x7f {
        push_n_step(pre, post, r, (op - 0x5f) as nat)
    } else if op == 0xf3 {
        return_step(pre, post, r)
    } else {
        post == pre && (r matches Err(e) && e matches EVMError::NoOpcodeError(b, info) && b == op
            && snap_of(info, pre.machine_state))
    }
}

/// A step that continues the run: taken below the end of the code, it
/// neither halts nor fails.
pub open spec fn cont_step(pre: ExecutionContext, post: ExecutionContext) -> bool {
    &&& pre.machine_state.pc < pre.input.bytecode@.len()
    &&& step_rel(pre, post, Ok::<Option<Halt>, EVMError>(None))
}

/// A step that halts the run successfully.
pub open spec fn halt_step(pre: ExecutionContext, post: ExecutionContext) -> bool {
    &&& pre.machine_state.pc < pre.input.bytecode@.len()
    &&& exists|h: Halt| step_rel(pre, post, Ok::<Option<Halt>, EVMError>(Some(h)))
}

/// A step that fails the run with `e`.
pub open spec fn fail_step(pre: ExecutionContext, post: ExecutionContext, e: EVMError) -> bool {
    &&& pre.machine_state.pc < pre.input.bytecode@.len()
    &&& step_rel(pre, post, Err::<Option<Halt>, EVMError>(e))
}

/// `post` follows from `pre` by exactly `n` continuing dispatch steps.
pub open spec fn steps_to(pre: ExecutionContext, post: ExecutionContext, n: nat) -> bool
    decreases n,
{
    if n == 0 {
        post == pre
    } else {
        exists|mid: ExecutionContext|
            steps_to(pre, mid, (n - 1) as nat) && #[trigger] cont_step(mid, post)
    }
}

/// The opcode bytes this engine dispatches.
pub open spec fn handled(op: u8) -> bool {
    op == 0x00 || op == 0x01 || op == 0x02 || op == 0x03 || op == 0x04 || op == 0x06 || op
        == 0x10 || op == 0x11 || op == 0x14 || op == 0x15 || op == 0x16 || op == 0x17 || op
        == 0x18 || op == 0x19 || (0x30 <= op <= 0x3f) || op == 0x50 || op == 0x51 || op == 0x52
        || op == 0x56 || op == 0x57 || op == 0x58 || op == 0x5b || (0x60 <= op <= 0x7f) || op
        == 0xf3
}

/// One finished execution: the final context, the success flag, and the
/// failure that ended it, if any.
pub struct ExecutionSummary {
    pub ctx: ExecutionContext,
    pub success: bool,
    pub error: Option<EVMError>,
}

/// Run the fetch-decode-execute loop until the code halts, fails, or
/// `step_limit` opcodes have run (the step bound stands in for the external
/// gas accounting; None reports an exhausted bound).  Running off the end
/// of the bytecode is an implicit stop.  A failure ends the execution at
/// once and is reported, never masked.
#[verifier::rlimit(100)]
pub fn execute(ctx: ExecutionContext, step_limit: u64) -> (r: Option<ExecutionSummary>)
    requires
        ctx.wf(),
        ctx.input.bytecode@.len() + 33 <= usize::MAX,
    ensures
        r matches Some(s) ==> s.ctx.wf() && s.ctx.input == ctx.input && s.ctx.global_state
            == ctx.global_state && (s.success <==> s.error is None),
        r matches Some(s) ==> (exists|n: nat, mid: ExecutionContext|
            n <= step_limit && #[trigger] steps_to(ctx, mid, n) && (if s.error is None {
                s.success && ((s.ctx == mid && mid.machine_state.pc
                    >= ctx.input.bytecode@.len()) || halt_step(mid, s.ctx))
            } else {
                !s.success && (s.error matches Some(e) && fail_step(mid, s.ctx, e))
            })),
        r matches Some(s) ==> (s.success ==> ({
            let pc = s.ctx.machine_state.pc;
            let code = ctx.input.bytecode@;
            pc >= code.len() || code[pc as int] == 0x00 || code[pc as int] == 0xf3
        })),
        r matches Some(s) ==> (s.error matches Some(e) ==> (e matches EVMError::NoOpcodeError(
            b,
            _,
        ) ==> ({
            let pc = s.ctx.machine_state.pc;
            let code = ctx.input.bytecode@;
            pc < code.len() && code[pc as int] == b && !handled(b)
        }))),
        r is None ==> (exists|mid: ExecutionContext| #[trigger] steps_to(
            ctx,
            mid,
            step_limit as nat,
        )),
        step_limit == 0 ==> r is None,
        ctx.input.bytecode@.len() == 0 && step_limit > 0 ==> (r matches Some(s) && s.success
            && s.ctx.machine_state == ctx.machine_state),
{
    let mut cur = ctx;
    let marks = valid_jumpdests(&cur.input.bytecode);
    let mut steps: u64 = 0;
    let ghost mut nsteps: nat = 0;
    while steps < step_limit
        invariant
            cur.wf(),
            steps <= step_limit,
            nsteps == steps,
            steps_to(ctx, cur, nsteps),
            ctx.input.bytecode@.len() == 0 ==> cur == ctx && steps == 0,
            cur.input == ctx.input,
            cur.global_state == ctx.global_state,
            cur.input.bytecode@.len() + 33 <= usize::MAX,
            marks@.len() == cur.input.bytecode@.len(),
            forall|d: int|
                0 <= d < marks@.len() ==> (marks@[d] <==> #[trigger] is_jumpdest(
                    cur.input.bytecode@,
                    d as nat,
                )),
        decreases step_limit - steps,
    {
        if cur.machine_state.pc >= cur.input.bytecode.len() {
            return Some(ExecutionSummary { ctx: cur, success: true, error: None });
        }
        let ghost prev = cur;
        let op = cur.input.bytecode[cur.machine_state.pc];
        let moves_pc = op == 0x56 || op == 0x57 || (0x60 <= op && op <= 0x7f);
        let res: OpcodeResult = if op == 0x00 {
            Ok(Some(Halt::Stop))
        } else if op == 0x01 {
            op_add(&mut cur)
        } else if op == 0x02 {
            op_mul(&mut cur)
        } else if op == 0x03 {
            op_sub(&mut cur)
        } else if op == 0x04 {
            op_div(&mut cur)
        } else if op == 0x06 {
            op_mod(&mut cur)
        } else if op == 0x10 {
            op_lt(&mut cur)
        } else if op == 0x11 {
            op_gt(&mut cur)
        } else if op == 0x14 {
            op_eq(&mut cur)
        } else if op == 0x15 {
            op_iszero(&mut cur)
        } else if op == 0x16 {
            op_and(&mut cur)
        } else if op == 0x17 {
            op_or(&mut cur)
        } else if op == 0x18 {
            op_xor(&mut cur)
        } else if op == 0x19 {
            op_not(&mut cur)
        } else if op == 0x30 {
            crate::environmental::address(&mut cur)
        } else if op == 0x31 {
            crate::environmental::balance(&mut cur)
        } else if op == 0x32 {
            crate::environmental::origin(&mut cur)
        } else if op == 0x33 {
            crate::environmental::caller(&mut cur)
        } else if op == 0x34 {
            crate::environmental::callvalue(&mut cur)
        } else if op == 0x35 {
            crate::environmental::calldataload(&mut cur)
        } else if op == 0x36 {
            crate::environmental::calldatasize(&mut cur)
        } else if op == 0x37 {
            crate::environmental::calldatacopy(&mut cur)
        } else if op == 0x38 {
            crate::environmental::codesize(&mut cur)
        } else if op == 0x39 {
            crate::environmental::codecopy(&mut cur)
        } else if op == 0x3a {
            crate::environmental::gasprice(&mut cur)
        } else if op == 0x3b {
            crate::environmental::extcodesize(&mut cur)
        } else if op == 0x3c {
            crate::environmental::extcodecopy(&mut cur)
        } else if op == 0x3d {
            crate::environmental::returndatasize(&mut cur)
        } else if op == 0x3e {
            crate::environmental::returndatacopy(&mut cur)
        } else if op == 0x3f {
            crate::environmental::extcodehash(&mut cur)
        } else if op == 0x50 {
            op_pop(&mut cur)
        } else if op == 0x51 {
            mload(&mut cur)
        } else if op == 0x52 {
            mstore(&mut cur)
        } else if op == 0x56 {
            jump(&mut cur, &marks)
        } else if op == 0x57 {
            jumpi(&mut cur, &marks)
        } else if op == 0x58 {
            op_pc(&mut cur)
        } else if op == 0x5b {
            Ok(None)
        } else if 0x60 <= op && op <= 0x7f {
            push_n(&mut cur, (op - 0x5f) as usize)
        } else if op == 0xf3 {
            return_op(&mut cur)
        } else {
            Err(EVMError::NoOpcodeError(op, ErrorInfo::capture(&cur.machine_state)))
        };
        let ghost gres = res;
        match res {
            Ok(None) => {
                if !moves_pc {
                    cur.machine_state.pc = cur.machine_state.pc + 1;
                }
                proof {
                    assert(step_rel(prev, cur, gres));
                    assert(cont_step(prev, cur));
                    nsteps = nsteps + 1;
                    assert(steps_to(ctx, prev, (nsteps - 1) as nat));
                    assert(steps_to(ctx, cur, nsteps));
                }
            },
            Ok(Some(_)) => {
                proof {
                    assert(step_rel(prev, cur, gres));
                    assert(halt_step(prev, cur));
                    assert(steps_to(ctx, prev, nsteps));
                }
                return Some(ExecutionSummary { ctx: cur, success: true, error: None });
            },
            Err(e) => {
                proof {
                    assert(step_rel(prev, cur, gres));
                    assert(fail_step(prev, cur, e));
                    assert(steps_to(ctx, prev, nsteps));
                }
                return Some(ExecutionSummary { ctx: cur, success: false, error: Some(e) });
            },
        }
        steps = steps + 1;
    }
    proof {
        assert(steps_to(ctx, cur, step_limit as nat));
    }
    None
}

impl EvmResult {
    /// Package a finished execution for a caller: the final stack reversed
    /// from internal push order (top first), and the success flag.
    pub fn from_summary(s: &ExecutionSummary) -> (r: EvmResult)
        ensures
            r.success == s.success,
            r.stack@.len() == s.ctx.machine_state.stack@.len(),
            forall|i: int|
                0 <= i < r.stack@.len() ==> r.stack@[i] == s.ctx.machine_state.stack@[
                    s.ctx.machine_state.stack@.len() - 1 - i
                ],
    {
        let n = s.ctx.machine_state.stack.len();
        let mut rev: Vec<Word> = Vec::new();
        let mut i: usize = 0;
        while i < n
            invariant
                i <= n,
                n == s.ctx.machine_state.stack@.len(),
                rev@.len() == i,
                forall|k: int|
                    0 <= k < i ==> rev@[k] == s.ctx.machine_state.stack@[n - 1 - k],
            decreases n - i,
        {
            let w = s.ctx.machine_state.stack[n - 1 - i];
            rev.push(w);
            i = i + 1;
        }
        EvmResult { stack: rev, success: s.success }
    }
}

} // verus!
