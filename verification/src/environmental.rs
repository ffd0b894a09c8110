use vstd::prelude::*;

verus! {

use crate::word::{Word, spec_zero, spec_from_u64, spec_address, modulo_address_size};
use crate::bytes::{read_byte, read_seq, be_bytes_nat, word_from_be32};
use crate::machine::{MachineState, copy_applied};
use crate::state::{balance_of, code_of, marked};
use crate::context::{
    ExecutionContext,
    OpcodeResult,
    frame_kept,
    mem_kept,
    pc_out_kept,
    substate_kept,
    non_stack_kept,
};
use crate::errors::{EVMError, ErrorInfo};
use crate::crypto::{keccak256, keccak256_of};

/// The snapshot `info` reproduces machine state `ms`.
pub open spec fn snap_of(info: ErrorInfo, ms: MachineState) -> bool {
    info.pc == ms.pc && info.stack@ == ms.stack@ && info.active_words == ms.active_words
}

/// The stack-underflow failure, with a snapshot of the untouched state.
pub(crate) fn stack_underflow(ms: &MachineState) -> (e: EVMError)
    ensures
        (e matches EVMError::EmptyStackError(info) && snap_of(info, *ms)),
{
    EVMError::EmptyStackError(ErrorInfo::capture(ms))
}

/// The native-width conversion failure, carrying the offending word.
pub(crate) fn usize_overflow(w: Word, ms: &MachineState) -> (e: EVMError)
    ensures
        (e matches EVMError::U256ToUSizeError(v, info) && v == w && snap_of(info, *ms)),
{
    EVMError::U256ToUSizeError(w, ErrorInfo::capture(ms))
}

/// 0x30 ADDRESS: push the target address of the running code.
pub fn address(ctx: &mut ExecutionContext) -> (r: OpcodeResult)
    ensures
        r matches Ok(None),
        final(ctx).machine_state.stack@ == old(ctx).machine_state.stack@.push(
            old(ctx).input.address,
        ),
        non_stack_kept(*old(ctx), *final(ctx)),
{
    let w = ctx.input.address;
    ctx.machine_state.push(w);
    Ok(None)
}

/// 0x32 ORIGIN: push the topmost-caller address.
pub fn origin(ctx: &mut ExecutionContext) -> (r: OpcodeResult)
    ensures
        r matches Ok(None),
        final(ctx).machine_state.stack@ == old(ctx).machine_state.stack@.push(
            old(ctx).input.origin,
        ),
        non_stack_kept(*old(ctx), *final(ctx)),
{
    let w = ctx.input.origin;
    ctx.machine_state.push(w);
    Ok(None)
}

/// 0x33 CALLER: push the sender address.
pub fn caller(ctx: &mut ExecutionContext) -> (r: OpcodeResult)
    ensures
        r matches Ok(None),
        final(ctx).machine_state.stack@ == old(ctx).machine_state.stack@.push(
            old(ctx).input.sender,
        ),
        non_stack_kept(*old(ctx), *final(ctx)),
{
    let w = ctx.input.sender;
    ctx.machine_state.push(w);
    Ok(None)
}

/// 0x34 CALLVALUE: push the call value.
pub fn callvalue(ctx: &mut ExecutionContext) -> (r: OpcodeResult)
    ensures
        r matches Ok(None),
        final(ctx).machine_state.stack@ == old(ctx).machine_state.stack@.push(
            old(ctx).input.value,
        ),
        non_stack_kept(*old(ctx), *final(ctx)),
{
    let w = ctx.input.value;
    ctx.machine_state.push(w);
    Ok(None)
}

/// 0x3a GASPRICE: push the gas price of the call.
pub fn gasprice(ctx: &mut ExecutionContext) -> (r: OpcodeResult)
    ensures
        r matches Ok(None),
        final(ctx).machine_state.stack@ == old(ctx).machine_state.stack@.push(
            old(ctx).input.price,
        ),
        non_stack_kept(*old(ctx), *final(ctx)),
{
    let w = ctx.input.price;
    ctx.machine_state.push(w);
    Ok(None)
}

/// 0x36 CALLDATASIZE: push the length of the call data.
pub fn calldatasize(ctx: &mut ExecutionContext) -> (r: OpcodeResult)
    ensures
        r matches Ok(None),
        final(ctx).machine_state.stack@ == old(ctx).machine_state.stack@.push(
            spec_from_u64(old(ctx).input.data@.len() as u64),
        ),
        non_stack_kept(*old(ctx), *final(ctx)),
{
    let n = ctx.input.data.len();
    let w = Word::from_u64(n as u64);
    ctx.machine_state.push(w);
    Ok(None)
}

/// 0x38 CODESIZE: push the length of the running bytecode.
pub fn codesize(ctx: &mut ExecutionContext) -> (r: OpcodeResult)
    ensures
        r matches Ok(None),
        final(ctx).machine_state.stack@ == old(ctx).machine_state.stack@.push(
            spec_from_u64(old(ctx).input.bytecode@.len() as u64),
        ),
        non_stack_kept(*old(ctx), *final(ctx)),
{
    let n = ctx.input.bytecode.len();
    let w = Word::from_u64(n as u64);
    ctx.machine_state.push(w);
    Ok(None)
}

/// 0x3d RETURNDATASIZE: push the length of the output buffer.
pub fn returndatasize(ctx: &mut ExecutionContext) -> (r: OpcodeResult)
    ensures
        r matches Ok(None),
        final(ctx).machine_state.stack@ == old(ctx).machine_state.stack@.push(
            spec_from_u64(old(ctx).machine_state.output@.len() as u64),
        ),
        non_stack_kept(*old(ctx), *final(ctx)),
{
    let n = ctx.machine_state.output.len();
    let w = Word::from_u64(n as u64);
    ctx.machine_state.push(w);
    Ok(None)
}

/// 0x31 BALANCE: pop an address word, push the balance of that account (zero
/// when absent), and record the access.
pub fn balance(ctx: &mut ExecutionContext) -> (r: OpcodeResult)
    requires
        old(ctx).wf(),
    ensures
        final(ctx).wf(),
        frame_kept(*old(ctx), *final(ctx)),
        mem_kept(*old(ctx), *final(ctx)),
        pc_out_kept(*old(ctx), *final(ctx)),
        old(ctx).machine_state.stack@.len() == 0 ==> (r matches Err(e)
            && e matches EVMError::EmptyStackError(info) && snap_of(info, old(ctx).machine_state)
            && *final(ctx) == *old(ctx)),
        old(ctx).machine_state.stack@.len() >= 1 ==> ({
            let s = old(ctx).machine_state.stack@;
            let a = spec_address(s.last());
            &&& r matches Ok(None)
            &&& final(ctx).machine_state.stack@ == s.take(s.len() - 1).push(
                balance_of(old(ctx).global_state, a),
            )
            &&& marked(old(ctx).accrued_substate, final(ctx).accrued_substate, a)
        }),
{
    let items = match ctx.machine_state.pop_n(1) {
        Some(v) => v,
        None => {
            return Err(stack_underflow(&ctx.machine_state));
        },
    };
    let address = modulo_address_size(&items[0]);
    let bal = match ctx.global_state.get(&address) {
        Some(account_state) => account_state.balance,
        None => Word::zero(),
    };
    ctx.machine_state.push(bal);
    ctx.accrued_substate.mark(address);
    Ok(None)
}

/// 0x3b EXTCODESIZE: pop an address word, push the length of that account's
/// code (zero when absent), and record the access.
pub fn extcodesize(ctx: &mut ExecutionContext) -> (r: OpcodeResult)
    requires
        old(ctx).wf(),
    ensures
        final(ctx).wf(),
        frame_kept(*old(ctx), *final(ctx)),
        mem_kept(*old(ctx), *final(ctx)),
        pc_out_kept(*old(ctx), *final(ctx)),
        old(ctx).machine_state.stack@.len() == 0 ==> (r matches Err(e)
            && e matches EVMError::EmptyStackError(info) && snap_of(info, old(ctx).machine_state)
            && *final(ctx) == *old(ctx)),
        old(ctx).machine_state.stack@.len() >= 1 ==> ({
            let s = old(ctx).machine_state.stack@;
            let a = spec_address(s.last());
            &&& r matches Ok(None)
            &&& final(ctx).machine_state.stack@ == s.take(s.len() - 1).push(
                spec_from_u64(code_of(old(ctx).global_state, a).len() as u64),
            )
            &&& marked(old(ctx).accrued_substate, final(ctx).accrued_substate, a)
        }),
{
    let items = match ctx.machine_state.pop_n(1) {
        Some(v) => v,
        None => {
            return Err(stack_underflow(&ctx.machine_state));
        },
    };
    let address = modulo_address_size(&items[0]);
    let size = match ctx.global_state.get(&address) {
        Some(account_state) => account_state.code.len(),
        None => 0,
    };
    let w = Word::from_u64(size as u64);
    ctx.machine_state.push(w);
    ctx.accrued_substate.mark(address);
    Ok(None)
}

/// 0x3f EXTCODEHASH: pop an address word, push the canonical 256-bit hash of
/// that account's code (zero when the account is absent), and record the
/// access.
pub fn extcodehash(ctx: &mut ExecutionContext) -> (r: OpcodeResult)
    requires
        old(ctx).wf(),
    ensures
        final(ctx).wf(),
        frame_kept(*old(ctx), *final(ctx)),
        mem_kept(*old(ctx), *final(ctx)),
        pc_out_kept(*old(ctx), *final(ctx)),
        old(ctx).machine_state.stack@.len() == 0 ==> (r matches Err(e)
            && e matches EVMError::EmptyStackError(info) && snap_of(info, old(ctx).machine_state)
            && *final(ctx) == *old(ctx)),
        old(ctx).machine_state.stack@.len() >= 1 ==> ({
            let s = old(ctx).machine_state.stack@;
            let a = spec_address(s.last());
            let post = final(ctx).machine_state.stack@;
            &&& r matches Ok(None)
            &&& post.len() == s.len()
            &&& post.take(s.len() - 1) == s.take(s.len() - 1)
            &&& (old(ctx).global_state.spec_get(a) matches Some(acct) ==> post.last().as_nat()
                == be_bytes_nat(keccak256_of(acct.code@)))
            &&& (old(ctx).global_state.spec_get(a) is None ==> post.last() == spec_zero())
            &&& marked(old(ctx).accrued_substate, final(ctx).accrued_substate, a)
        }),
{
    let items = match ctx.machine_state.pop_n(1) {
        Some(v) => v,
        None => {
            return Err(stack_underflow(&ctx.machine_state));
        },
    };
    let address = modulo_address_size(&items[0]);
    let hash_word = match ctx.global_state.get(&address) {
        Some(account_state) => {
            let digest = keccak256(&account_state.code);
            word_from_be32(&digest)
        },
        None => Word::zero(),
    };
    ctx.machine_state.push(hash_word);
    ctx.accrued_substate.mark(address);
    proof {
        assert(final(ctx).machine_state.stack@.take(old(ctx).machine_state.stack@.len() - 1)
            =~= old(ctx).machine_state.stack@.take(old(ctx).machine_state.stack@.len() - 1));
    }
    Ok(None)
}

/// 0x35 CALLDATALOAD: pop an offset, push the 32 bytes of call data starting
/// there, zero-padded past the end of the data.
pub fn calldataload(ctx: &mut ExecutionContext) -> (r: OpcodeResult)
    ensures
        frame_kept(*old(ctx), *final(ctx)),
        mem_kept(*old(ctx), *final(ctx)),
        pc_out_kept(*old(ctx), *final(ctx)),
        substate_kept(*old(ctx), *final(ctx)),
        old(ctx).machine_state.stack@.len() == 0 ==> (r matches Err(e)
            && e matches EVMError::EmptyStackError(info) && snap_of(info, old(ctx).machine_state)
            && *final(ctx) == *old(ctx)),
        old(ctx).machine_state.stack@.len() >= 1 ==> ({
            let s = old(ctx).machine_state.stack@;
            let off = s.last();
            let post = final(ctx).machine_state.stack@;
            if off.as_nat() > usize::MAX {
                &&& r matches Err(e) && e matches EVMError::U256ToUSizeError(w, info) && w == off
                    && snap_of(info, final(ctx).machine_state)
                &&& post == s.take(s.len() - 1)
            } else {
                &&& r matches Ok(None)
                &&& post.len() == s.len()
                &&& post.take(s.len() - 1) == s.take(s.len() - 1)
                &&& post.last().as_nat() == be_bytes_nat(
                    read_seq(old(ctx).input.data@, off.as_nat() as int, 32),
                )
            }
        }),
{
    let items = match ctx.machine_state.pop_n(1) {
        Some(v) => v,
        None => {
            return Err(stack_underflow(&ctx.machine_state));
        },
    };
    let offset = match items[0].to_usize() {
        Some(o) => o,
        None => {
            return Err(usize_overflow(items[0], &ctx.machine_state));
        },
    };
    let mut buf: Vec<u8> = Vec::new();
    let mut i: usize = 0;
    while i < 32
        invariant
            i <= 32,
            buf@.len() == i,
            forall|k: int| 0 <= k < i ==> buf@[k] == read_byte(ctx.input.data@, offset + k),
        decreases 32 - i,
    {
        let b = if offset < ctx.input.data.len() && i < ctx.input.data.len() - offset {
            ctx.input.data[offset + i]
        } else {
            0
        };
        buf.push(b);
        i = i + 1;
    }
    proof {
        assert(buf@ =~= read_seq(ctx.input.data@, offset as int, 32));
    }
    let v = word_from_be32(&buf);
    ctx.machine_state.push(v);
    proof {
        assert(final(ctx).machine_state.stack@.take(old(ctx).machine_state.stack@.len() - 1)
            =~= old(ctx).machine_state.stack@.take(old(ctx).machine_state.stack@.len() - 1));
    }
    Ok(None)
}

/// The shared contract of the four copy-style opcodes, after the stack
/// check: `d`, `o`, `z` are the popped destination, source offset and
/// length words (`k` items were popped in all).  Each word is converted in
/// that order; a word (or the destination end) past the native width fails,
/// carrying the offending word, with the memory untouched.  Otherwise the
/// slice of `src` is copied with zero padding and the watermark raised.
pub open spec fn copy_outcome(
    pre: ExecutionContext,
    post: ExecutionContext,
    r: OpcodeResult,
    src: Seq<u8>,
    d: Word,
    o: Word,
    z: Word,
    k: nat,
) -> bool {
    let s = pre.machine_state.stack@;
    &&& post.machine_state.stack@ == s.take(s.len() - k)
    &&& if d.as_nat() > usize::MAX {
        (r matches Err(e) && e matches EVMError::U256ToUSizeError(w, _) && w == d && mem_kept(
            pre,
            post,
        ))
    } else if o.as_nat() > usize::MAX {
        (r matches Err(e) && e matches EVMError::U256ToUSizeError(w, _) && w == o && mem_kept(
            pre,
            post,
        ))
    } else if z.as_nat() > usize::MAX {
        (r matches Err(e) && e matches EVMError::U256ToUSizeError(w, _) && w == z && mem_kept(
            pre,
            post,
        ))
    } else if d.as_nat() + z.as_nat() > usize::MAX {
        (r matches Err(e) && e matches EVMError::U256ToUSizeError(w, _) && w == z && mem_kept(
            pre,
            post,
        ))
    } else {
        (r matches Ok(None)) && copy_applied(
            pre.machine_state,
            post.machine_state,
            src,
            d.as_nat(),
            o.as_nat(),
            z.as_nat(),
        )
    }
}

/// 0x37 CALLDATACOPY: pop destination, offset and length, and copy that
/// slice of the call data into memory, zero-padded past its end.
pub fn calldatacopy(ctx: &mut ExecutionContext) -> (r: OpcodeResult)
    ensures
        frame_kept(*old(ctx), *final(ctx)),
        pc_out_kept(*old(ctx), *final(ctx)),
        substate_kept(*old(ctx), *final(ctx)),
        old(ctx).machine_state.stack@.len() < 3 ==> (r matches Err(e)
            && e matches EVMError::EmptyStackError(info) && snap_of(info, old(ctx).machine_state)
            && *final(ctx) == *old(ctx)),
        old(ctx).machine_state.stack@.len() >= 3 ==> ({
            let s = old(ctx).machine_state.stack@;
            copy_outcome(
                *old(ctx),
                *final(ctx),
                r,
                old(ctx).input.data@,
                s[s.len() - 1],
                s[s.len() - 2],
                s[s.len() - 3],
                3,
            )
        }),
{
    let items = match ctx.machine_state.pop_n(3) {
        Some(v) => v,
        None => {
            return Err(stack_underflow(&ctx.machine_state));
        },
    };
    let dest_offset = match items[0].to_usize() {
        Some(d) => d,
        None => {
            return Err(usize_overflow(items[0], &ctx.machine_state));
        },
    };
    let offset = match items[1].to_usize() {
        Some(o) => o,
        None => {
            return Err(usize_overflow(items[1], &ctx.machine_state));
        },
    };
    let size = match items[2].to_usize() {
        Some(z) => z,
        None => {
            return Err(usize_overflow(items[2], &ctx.machine_state));
        },
    };
    if size > usize::MAX - dest_offset {
        return Err(usize_overflow(items[2], &ctx.machine_state));
    }
    crate::machine::copy_padded(&mut ctx.machine_state.memory, &ctx.input.data, dest_offset, offset, size);
    ctx.machine_state.update_active_words(dest_offset + size);
    Ok(None)
}

/// 0x39 CODECOPY: pop destination, offset and length, and copy that slice
/// of the running bytecode into memory, zero-padded past its end.
pub fn codecopy(ctx: &mut ExecutionContext) -> (r: OpcodeResult)
    ensures
        frame_kept(*old(ctx), *final(ctx)),
        pc_out_kept(*old(ctx), *final(ctx)),
        substate_kept(*old(ctx), *final(ctx)),
        old(ctx).machine_state.stack@.len() < 3 ==> (r matches Err(e)
            && e matches EVMError::EmptyStackError(info) && snap_of(info, old(ctx).machine_state)
            && *final(ctx) == *old(ctx)),
        old(ctx).machine_state.stack@.len() >= 3 ==> ({
            let s = old(ctx).machine_state.stack@;
            copy_outcome(
                *old(ctx),
                *final(ctx),
                r,
                old(ctx).input.bytecode@,
                s[s.len() - 1],
                s[s.len() - 2],
                s[s.len() - 3],
                3,
            )
        }),
{
    let items = match ctx.machine_state.pop_n(3) {
        Some(v) => v,
        None => {
            return Err(stack_underflow(&ctx.machine_state));
        },
    };
    let dest_offset = match items[0].to_usize() {
        Some(d) => d,
        None => {
            return Err(usize_overflow(items[0], &ctx.machine_state));
        },
    };
    let offset = match items[1].to_usize() {
        Some(o) => o,
        None => {
            return Err(usize_overflow(items[1], &ctx.machine_state));
        },
    };
    let size = match items[2].to_usize() {
        Some(z) => z,
        None => {
            return Err(usize_overflow(items[2], &ctx.machine_state));
        },
    };
    if size > usize::MAX - dest_offset {
        return Err(usize_overflow(items[2], &ctx.machine_state));
    }
    crate::machine::copy_padded(&mut ctx.machine_state.memory, &ctx.input.bytecode, dest_offset, offset, size);
    ctx.machine_state.update_active_words(dest_offset + size);
    Ok(None)
}

/// 0x3e RETURNDATACOPY: pop destination, offset and length, and copy that
/// slice of the output buffer into memory, zero-padded past its end.
pub fn returndatacopy(ctx: &mut ExecutionContext) -> (r: OpcodeResult)
    ensures
        frame_kept(*old(ctx), *final(ctx)),
        pc_out_kept(*old(ctx), *final(ctx)),
        substate_kept(*old(ctx), *final(ctx)),
        old(ctx).machine_state.stack@.len() < 3 ==> (r matches Err(e)
            && e matches EVMError::EmptyStackError(info) && snap_of(info, old(ctx).machine_state)
            && *final(ctx) == *old(ctx)),
        old(ctx).machine_state.stack@.len() >= 3 ==> ({
            let s = old(ctx).machine_state.stack@;
            copy_outcome(
                *old(ctx),
                *final(ctx),
                r,
                old(ctx).machine_state.output@,
                s[s.len() - 1],
                s[s.len() - 2],
                s[s.len() - 3],
                3,
            )
        }),
{
    let items = match ctx.machine_state.pop_n(3) {
        Some(v) => v,
        None => {
            return Err(stack_underflow(&ctx.machine_state));
        },
    };
    let dest_offset = match items[0].to_usize() {
        Some(d) => d,
        None => {
            return Err(usize_overflow(items[0], &ctx.machine_state));
        },
    };
    let offset = match items[1].to_usize() {
        Some(o) => o,
        None => {
            return Err(usize_overflow(items[1], &ctx.machine_state));
        },
    };
    let size = match items[2].to_usize() {
        Some(z) => z,
        None => {
            return Err(usize_overflow(items[2], &ctx.machine_state));
        },
    };
    if size > usize::MAX - dest_offset {
        return Err(usize_overflow(items[2], &ctx.machine_state));
    }
    crate::machine::copy_padded(&mut ctx.machine_state.memory, &ctx.machine_state.output, dest_offset, offset, size);
    ctx.machine_state.update_active_words(dest_offset + size);
    Ok(None)
}

/// 0x3c EXTCODECOPY: pop an address word, destination, offset and length,
/// copy that slice of the account's code into memory (zero-padded; an
/// absent account has empty code), and record the access.
pub fn extcodecopy(ctx: &mut ExecutionContext) -> (r: OpcodeResult)
    requires
        old(ctx).wf(),
    ensures
        final(ctx).wf(),
        frame_kept(*old(ctx), *final(ctx)),
        pc_out_kept(*old(ctx), *final(ctx)),
        old(ctx).machine_state.stack@.len() < 4 ==> (r matches Err(e)
            && e matches EVMError::EmptyStackError(info) && snap_of(info, old(ctx).machine_state)
            && *final(ctx) == *old(ctx)),
        old(ctx).machine_state.stack@.len() >= 4 ==> ({
            let s = old(ctx).machine_state.stack@;
            let a = spec_address(s[s.len() - 1]);
            &&& copy_outcome(
                *old(ctx),
                *final(ctx),
                r,
                code_of(old(ctx).global_state, a),
                s[s.len() - 2],
                s[s.len() - 3],
                s[s.len() - 4],
                4,
            )
            &&& (r matches Ok(None) ==> marked(
                old(ctx).accrued_substate,
                final(ctx).accrued_substate,
                a,
            ))
            &&& (r is Err ==> substate_kept(*old(ctx), *final(ctx)))
        }),
{
    let items = match ctx.machine_state.pop_n(4) {
        Some(v) => v,
        None => {
            return Err(stack_underflow(&ctx.machine_state));
        },
    };
    let address = modulo_address_size(&items[0]);
    let dest_offset = match items[1].to_usize() {
        Some(d) => d,
        None => {
            return Err(usize_overflow(items[1], &ctx.machine_state));
        },
    };
    let offset = match items[2].to_usize() {
        Some(o) => o,
        None => {
            return Err(usize_overflow(items[2], &ctx.machine_state));
        },
    };
    let size = match items[3].to_usize() {
        Some(z) => z,
        None => {
            return Err(usize_overflow(items[3], &ctx.machine_state));
        },
    };
    if size > usize::MAX - dest_offset {
        return Err(usize_overflow(items[3], &ctx.machine_state));
    }
    let empty_code: Vec<u8> = Vec::new();
    let code = match ctx.global_state.get(&address) {
        Some(account_state) => &account_state.code,
        None => &empty_code,
    };
    crate::machine::copy_padded(&mut ctx.machine_state.memory, code, dest_offset, offset, size);
    ctx.machine_state.update_active_words(dest_offset + size);
    ctx.accrued_substate.mark(address);
    Ok(None)
}

} // verus!
