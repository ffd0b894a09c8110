use evm_core::context::ExecutionContext;
use evm_core::environmental::{
    balance, calldatacopy, calldataload, codecopy, extcodecopy, extcodehash, extcodesize,
    returndatacopy,
};
use evm_core::errors::{EVMError, ErrorInfo};
use evm_core::machine::MachineState;
use evm_core::state::{AccountState, AccruedSubstate, GlobalState};
use evm_core::word::{modulo_address_size, Word};

fn w(x: u64) -> Word {
    Word::from_u64(x)
}

#[test]
fn word_constructors_and_conversions() {
    assert_eq!(Word::zero(), Word { w0: 0, w1: 0, w2: 0, w3: 0 });
    assert_eq!(w(7).to_usize(), Some(7));
    assert_eq!(w(255).to_u8(), Some(255));
    assert_eq!(w(256).to_u8(), None);
    let big = Word { w0: 0, w1: 0, w2: 0, w3: 1 };
    assert_eq!(big.to_usize(), None);
    assert!(Word::zero().is_zero());
    assert!(!w(1).is_zero());
}

#[test]
fn address_truncation_keeps_low_160_bits() {
    let v = Word { w0: 1, w1: 2, w2: 0xFFFF_FFFF_0000_0003, w3: 7 };
    let a = modulo_address_size(&v);
    assert_eq!(a, Word { w0: 1, w1: 2, w2: 3, w3: 0 });
    let small = Word { w0: 9, w1: 0, w2: 0, w3: 0 };
    assert_eq!(modulo_address_size(&small), small);
}

#[test]
fn calldataload_one_byte_is_left_aligned() {
    let mut ctx = ExecutionContext::new();
    ctx.input.data = vec![0x01];
    ctx.machine_state.push(Word::zero());
    let r = calldataload(&mut ctx);
    assert!(r.is_ok());
    let top = *ctx.machine_state.stack.last().unwrap();
    // 0x01 followed by 31 zero bytes: the value 1 << 248.
    assert_eq!(top, Word { w0: 0, w1: 0, w2: 0, w3: 0x0100_0000_0000_0000 });
}

#[test]
fn calldataload_past_end_is_zero() {
    let mut ctx = ExecutionContext::new();
    ctx.input.data = vec![0x01];
    ctx.machine_state.push(w(5));
    let r = calldataload(&mut ctx);
    assert!(r.is_ok());
    assert_eq!(*ctx.machine_state.stack.last().unwrap(), Word::zero());
}

#[test]
fn calldataload_huge_offset_fails_conversion() {
    let mut ctx = ExecutionContext::new();
    ctx.input.data = vec![0x01];
    ctx.machine_state.push(Word { w0: 0, w1: 0, w2: 0, w3: 1 });
    match calldataload(&mut ctx) {
        Err(EVMError::U256ToUSizeError(v, _)) => {
            assert_eq!(v, Word { w0: 0, w1: 0, w2: 0, w3: 1 })
        }
        _ => panic!("expected a conversion failure"),
    }
}

#[test]
fn pop_from_empty_stack_fails_and_leaves_it_empty() {
    let mut ms = MachineState::new();
    assert!(ms.pop_n(1).is_none());
    assert_eq!(ms.stack.len(), 0);
    let mut ctx = ExecutionContext::new();
    match balance(&mut ctx) {
        Err(EVMError::EmptyStackError(info)) => assert_eq!(info.stack.len(), 0),
        _ => panic!("expected the empty-stack error"),
    }
    assert_eq!(ctx.machine_state.stack.len(), 0);
}

#[test]
fn absent_account_reads_zero_and_marks_once() {
    let mut ctx = ExecutionContext::new();
    ctx.machine_state.push(w(5));
    assert!(balance(&mut ctx).is_ok());
    assert_eq!(*ctx.machine_state.stack.last().unwrap(), Word::zero());
    ctx.machine_state.push(w(5));
    assert!(extcodesize(&mut ctx).is_ok());
    assert_eq!(*ctx.machine_state.stack.last().unwrap(), Word::zero());
    ctx.machine_state.push(w(5));
    assert!(extcodehash(&mut ctx).is_ok());
    assert_eq!(*ctx.machine_state.stack.last().unwrap(), Word::zero());
    assert_eq!(ctx.accrued_substate.accessed_accounts.len(), 1);
    assert_eq!(ctx.accrued_substate.accessed_accounts[0], w(5));
}

#[test]
fn watermark_is_monotonic() {
    let mut ms = MachineState::new();
    ms.update_active_words(100);
    assert_eq!(ms.active_words, 4);
    ms.update_active_words(10);
    assert_eq!(ms.active_words, 4);
    ms.update_active_words(129);
    assert_eq!(ms.active_words, 5);
}

#[test]
fn codecopy_pads_with_zeros() {
    let mut ctx = ExecutionContext::new();
    ctx.input.bytecode = vec![1, 2, 3, 4, 5];
    ctx.machine_state.push(w(8)); // size
    ctx.machine_state.push(w(0)); // offset
    ctx.machine_state.push(w(0)); // destination
    assert!(codecopy(&mut ctx).is_ok());
    assert_eq!(ctx.machine_state.memory, vec![1, 2, 3, 4, 5, 0, 0, 0]);
    assert_eq!(ctx.machine_state.active_words, 1);
}

#[test]
fn calldatacopy_copies_a_slice() {
    let mut ctx = ExecutionContext::new();
    ctx.input.data = vec![1, 2, 3];
    ctx.machine_state.push(w(2)); // size
    ctx.machine_state.push(w(1)); // offset
    ctx.machine_state.push(w(0)); // destination
    assert!(calldatacopy(&mut ctx).is_ok());
    assert_eq!(ctx.machine_state.memory, vec![2, 3]);
}

#[test]
fn returndatacopy_reads_the_output_buffer() {
    let mut ctx = ExecutionContext::new();
    ctx.machine_state.output = vec![1, 2, 3];
    ctx.machine_state.push(w(5)); // size
    ctx.machine_state.push(w(0)); // offset
    ctx.machine_state.push(w(2)); // destination
    assert!(returndatacopy(&mut ctx).is_ok());
    assert_eq!(ctx.machine_state.memory, vec![0, 0, 1, 2, 3, 0, 0]);
}

#[test]
fn extcodecopy_reads_account_code() {
    let mut ctx = ExecutionContext::new();
    ctx.global_state
        .insert(w(5), AccountState { balance: Word::zero(), code: vec![9, 8, 7] });
    ctx.machine_state.push(w(5)); // size
    ctx.machine_state.push(w(1)); // offset
    ctx.machine_state.push(w(0)); // destination
    ctx.machine_state.push(w(5)); // address
    assert!(extcodecopy(&mut ctx).is_ok());
    assert_eq!(ctx.machine_state.memory, vec![8, 7, 0, 0, 0]);
    assert_eq!(ctx.accrued_substate.accessed_accounts, vec![w(5)]);
}

#[test]
fn extcodehash_of_empty_code_is_the_empty_digest() {
    let mut ctx = ExecutionContext::new();
    ctx.global_state
        .insert(w(7), AccountState { balance: Word::zero(), code: Vec::new() });
    ctx.machine_state.push(w(7));
    assert!(extcodehash(&mut ctx).is_ok());
    // Keccak-256 of the empty byte string.
    let expected = Word {
        w3: 0xc5d2_4601_86f7_233c,
        w2: 0x927e_7db2_dcc7_03c0,
        w1: 0xe500_b653_ca82_273b,
        w0: 0x7bfa_d804_5d85_a470,
    };
    assert_eq!(*ctx.machine_state.stack.last().unwrap(), expected);
}

#[test]
fn global_state_lookup_and_shadowing() {
    let mut gs = GlobalState::new();
    assert!(gs.get(&w(1)).is_none());
    gs.insert(w(1), AccountState { balance: w(10), code: Vec::new() });
    gs.insert(w(1), AccountState { balance: w(20), code: Vec::new() });
    assert_eq!(gs.get(&w(1)).unwrap().balance, w(20));
    assert!(gs.get(&w(2)).is_none());
}

#[test]
fn substate_mark_absorbs_duplicates() {
    let mut sub = AccruedSubstate::new();
    sub.mark(w(3));
    sub.mark(w(4));
    sub.mark(w(3));
    assert_eq!(sub.accessed_accounts, vec![w(3), w(4)]);
}

#[test]
fn error_descriptions_name_the_kind() {
    let info = || ErrorInfo { pc: 0, stack: Vec::new(), active_words: 0 };
    assert_eq!(
        EVMError::EmptyStackError(info()).describe(),
        "cannot pop from empty stack"
    );
    assert_eq!(EVMError::NoOpcodeError(0xEF, info()).describe(), "cannot find opcode");
    assert_eq!(EVMError::NoBytecodeError(info()).describe(), "cannot find code at pc");
    assert_eq!(
        EVMError::FromStrRadixError(String::from("zz"), info()).describe(),
        "cannot parse string to hex"
    );
    assert_eq!(
        EVMError::U256ToUSizeError(Word::zero(), info()).describe(),
        "cannot convert from U256 to usize"
    );
    assert_eq!(
        EVMError::U256ToU8Error(Word::zero(), info()).describe(),
        "cannot convert from U256 to u8"
    );
    assert_eq!(
        EVMError::InvalidJumpdestError(3, info()).describe(),
        "cannot jump to opcode"
    );
}

#[test]
fn error_messages_render_their_values() {
    let info = || ErrorInfo { pc: 0, stack: Vec::new(), active_words: 0 };
    assert_eq!(
        EVMError::NoOpcodeError(0xEF, info()).message(),
        "cannot find opcode ef"
    );
    assert_eq!(
        EVMError::InvalidJumpdestError(0, info()).message(),
        "cannot jump to opcode 0"
    );
    assert_eq!(
        EVMError::InvalidJumpdestError(0x1a, info()).message(),
        "cannot jump to opcode 1a"
    );
    let at_twelve = ErrorInfo { pc: 12, stack: Vec::new(), active_words: 0 };
    assert_eq!(
        EVMError::NoBytecodeError(at_twelve).message(),
        "cannot find code at pc 12"
    );
    assert_eq!(
        EVMError::EmptyStackError(info()).message(),
        "cannot pop from empty stack"
    );
    let big = Word { w0: 0x05, w1: 0, w2: 0, w3: 1 };
    let expected = format!("cannot convert from U256 1{}5 to usize", "0".repeat(47));
    assert_eq!(EVMError::U256ToUSizeError(big, info()).message(), expected);
    assert_eq!(
        EVMError::U256ToU8Error(Word::from_u64(0x100), info()).message(),
        "cannot convert from U256 100 to u8"
    );
}
