use evm_core::context::{EvmResult, ExecutionContext};
use evm_core::dispatch::{execute, ExecutionSummary};
use evm_core::errors::EVMError;
use evm_core::state::AccountState;
use evm_core::word::Word;

fn w(x: u64) -> Word {
    Word::from_u64(x)
}

fn run(bytecode: Vec<u8>) -> ExecutionSummary {
    let mut ctx = ExecutionContext::new();
    ctx.input.bytecode = bytecode;
    execute(ctx, 10_000).expect("step bound was generous enough")
}

fn run_ctx(ctx: ExecutionContext) -> ExecutionSummary {
    execute(ctx, 10_000).expect("step bound was generous enough")
}

#[test]
fn push_add_leaves_three() {
    // PUSH1 1, PUSH1 2, ADD
    let s = run(vec![0x60, 0x01, 0x60, 0x02, 0x01]);
    assert!(s.success);
    assert_eq!(s.ctx.machine_state.stack, vec![w(3)]);
    let r = EvmResult::from_summary(&s);
    assert!(r.success);
    assert_eq!(r.stack, vec![w(3)]);
}

#[test]
fn unknown_opcode_fails() {
    let s = run(vec![0xEF]);
    assert!(!s.success);
    assert!(matches!(s.error, Some(EVMError::NoOpcodeError(0xEF, _))));
}

#[test]
fn jump_to_non_jumpdest_fails() {
    // PUSH1 0, JUMP: offset 0 holds PUSH1, not JUMPDEST.
    let s = run(vec![0x60, 0x00, 0x56]);
    assert!(!s.success);
    assert!(matches!(s.error, Some(EVMError::InvalidJumpdestError(0, _))));
}

#[test]
fn jump_to_jumpdest_succeeds() {
    // PUSH1 4, JUMP, <bad byte>, JUMPDEST, PUSH1 9
    let s = run(vec![0x60, 0x04, 0x56, 0xEF, 0x5b, 0x60, 0x09]);
    assert!(s.success);
    assert_eq!(s.ctx.machine_state.stack, vec![w(9)]);
}

#[test]
fn jumpdest_inside_push_data_is_invalid() {
    // PUSH1 2, JUMP where offset 2 is the 0x5b byte embedded in push data:
    // PUSH2 carries 0x5b 0x00 as its immediate operand.
    let s = run(vec![0x61, 0x5b, 0x00, 0x60, 0x01, 0x56]);
    assert!(!s.success);
    assert!(matches!(s.error, Some(EVMError::InvalidJumpdestError(1, _))));
}

#[test]
fn jumpi_taken_and_untaken() {
    // PUSH1 1 (condition), PUSH1 6 (destination), JUMPI, <bad>, JUMPDEST
    let taken = run(vec![0x60, 0x01, 0x60, 0x06, 0x57, 0xEF, 0x5b]);
    assert!(taken.success);
    // PUSH1 0 (condition), PUSH1 6 (destination), JUMPI, PUSH1 7
    let untaken = run(vec![0x60, 0x00, 0x60, 0x06, 0x57, 0x60, 0x07]);
    assert!(untaken.success);
    assert_eq!(untaken.ctx.machine_state.stack, vec![w(7)]);
}

#[test]
fn arithmetic_scenarios() {
    // SUB: 10 - 7
    assert_eq!(run(vec![0x60, 0x07, 0x60, 0x0a, 0x03]).ctx.machine_state.stack, vec![w(3)]);
    // MUL: 3 * 4
    assert_eq!(run(vec![0x60, 0x03, 0x60, 0x04, 0x02]).ctx.machine_state.stack, vec![w(12)]);
    // DIV: 7 / 2
    assert_eq!(run(vec![0x60, 0x02, 0x60, 0x07, 0x04]).ctx.machine_state.stack, vec![w(3)]);
    // MOD: 7 % 3
    assert_eq!(run(vec![0x60, 0x03, 0x60, 0x07, 0x06]).ctx.machine_state.stack, vec![w(1)]);
}

#[test]
fn zero_divisor_gives_zero() {
    // DIV: 7 / 0 and MOD: 7 % 0 both give zero, and ADD with 0 keeps the word.
    assert_eq!(run(vec![0x60, 0x00, 0x60, 0x07, 0x04]).ctx.machine_state.stack, vec![w(0)]);
    assert_eq!(run(vec![0x60, 0x00, 0x60, 0x07, 0x06]).ctx.machine_state.stack, vec![w(0)]);
    assert_eq!(run(vec![0x60, 0x00, 0x60, 0x05, 0x01]).ctx.machine_state.stack, vec![w(5)]);
    assert_eq!(run(vec![0x60, 0x00, 0x60, 0x05, 0x02]).ctx.machine_state.stack, vec![w(0)]);
}

#[test]
fn wrapping_addition_overflows_to_zero() {
    // PUSH32 of 2^256 - 1, PUSH1 1, ADD wraps to zero.
    let mut code = vec![0x7f];
    code.extend(vec![0xFF; 32]);
    code.extend(vec![0x60, 0x01, 0x01]);
    let s = run(code);
    assert!(s.success);
    assert_eq!(s.ctx.machine_state.stack, vec![Word::zero()]);
}

#[test]
fn stop_halts_early() {
    let s = run(vec![0x60, 0x01, 0x00, 0x60, 0x02]);
    assert!(s.success);
    assert_eq!(s.ctx.machine_state.stack, vec![w(1)]);
}

#[test]
fn empty_bytecode_is_an_implicit_stop() {
    let s = run(Vec::new());
    assert!(s.success);
    assert!(s.ctx.machine_state.stack.is_empty());
    assert!(s.error.is_none());
}

#[test]
fn truncated_push_pads_with_zero() {
    let s = run(vec![0x60]);
    assert!(s.success);
    assert_eq!(s.ctx.machine_state.stack, vec![w(0)]);
}

#[test]
fn push32_assembles_all_limbs() {
    let mut code = vec![0x7f];
    code.extend(vec![0x11; 32]);
    let s = run(code);
    let expected = Word {
        w0: 0x1111_1111_1111_1111,
        w1: 0x1111_1111_1111_1111,
        w2: 0x1111_1111_1111_1111,
        w3: 0x1111_1111_1111_1111,
    };
    assert_eq!(s.ctx.machine_state.stack, vec![expected]);
}

#[test]
fn return_sets_the_output_buffer() {
    // PUSH1 2 (size), PUSH1 0 (offset), RETURN
    let s = run(vec![0x60, 0x02, 0x60, 0x00, 0xf3]);
    assert!(s.success);
    assert_eq!(s.ctx.machine_state.output, vec![0, 0]);
}

#[test]
fn environmental_pushes_read_the_input() {
    let mut ctx = ExecutionContext::new();
    ctx.input.address = w(0xAB);
    ctx.input.sender = w(0xCD);
    ctx.input.origin = w(0xEF);
    ctx.input.value = w(0x12);
    ctx.input.price = w(0x34);
    ctx.input.data = vec![1, 2, 3];
    // ADDRESS, CALLER, ORIGIN, CALLVALUE, GASPRICE, CALLDATASIZE,
    // RETURNDATASIZE, CODESIZE
    ctx.input.bytecode = vec![0x30, 0x33, 0x32, 0x34, 0x3a, 0x36, 0x3d, 0x38];
    let s = run_ctx(ctx);
    assert!(s.success);
    assert_eq!(
        s.ctx.machine_state.stack,
        vec![w(0xAB), w(0xCD), w(0xEF), w(0x12), w(0x34), w(3), w(0), w(8)]
    );
}

#[test]
fn pc_opcode_pushes_its_own_position() {
    let s = run(vec![0x58, 0x58]);
    assert!(s.success);
    assert_eq!(s.ctx.machine_state.stack, vec![w(0), w(1)]);
}

#[test]
fn pop_discards_the_top() {
    let s = run(vec![0x60, 0x01, 0x60, 0x02, 0x50]);
    assert!(s.success);
    assert_eq!(s.ctx.machine_state.stack, vec![w(1)]);
}

#[test]
fn balance_of_known_account() {
    let mut ctx = ExecutionContext::new();
    ctx.global_state
        .insert(w(5), AccountState { balance: w(42), code: vec![0xAA, 0xBB, 0xCC] });
    // PUSH1 5, BALANCE, PUSH1 5, EXTCODESIZE
    ctx.input.bytecode = vec![0x60, 0x05, 0x31, 0x60, 0x05, 0x3b];
    let s = run_ctx(ctx);
    assert!(s.success);
    assert_eq!(s.ctx.machine_state.stack, vec![w(42), w(3)]);
    assert_eq!(s.ctx.accrued_substate.accessed_accounts, vec![w(5)]);
}

#[test]
fn calldatacopy_program_copies_into_memory() {
    let mut ctx = ExecutionContext::new();
    ctx.input.data = vec![1, 2, 3];
    // PUSH1 2 (size), PUSH1 1 (offset), PUSH1 0 (dest), CALLDATACOPY
    ctx.input.bytecode = vec![0x60, 0x02, 0x60, 0x01, 0x60, 0x00, 0x37];
    let s = run_ctx(ctx);
    assert!(s.success);
    assert_eq!(s.ctx.machine_state.memory, vec![2, 3]);
    assert_eq!(s.ctx.machine_state.active_words, 1);
}

#[test]
fn add_on_short_stack_underflows() {
    let s = run(vec![0x60, 0x01, 0x01]);
    assert!(!s.success);
    assert!(matches!(s.error, Some(EVMError::EmptyStackError(_))));
    // The failed pop left the one operand in place.
    assert_eq!(s.ctx.machine_state.stack, vec![w(1)]);
}

#[test]
fn step_bound_exhaustion_reports_none() {
    // JUMPDEST, PUSH1 0, JUMP: a tight infinite loop.
    let mut ctx = ExecutionContext::new();
    ctx.input.bytecode = vec![0x5b, 0x60, 0x00, 0x56];
    assert!(execute(ctx, 10).is_none());
}

#[test]
fn reversed_result_stack_is_top_first() {
    let s = run(vec![0x60, 0x01, 0x60, 0x02]);
    let r = EvmResult::from_summary(&s);
    assert_eq!(r.stack, vec![w(2), w(1)]);
}

#[test]
fn comparison_opcodes() {
    // LT: 1 < 2 (operands pushed second-first: top is the left operand)
    assert_eq!(run(vec![0x60, 0x02, 0x60, 0x01, 0x10]).ctx.machine_state.stack, vec![w(1)]);
    assert_eq!(run(vec![0x60, 0x01, 0x60, 0x02, 0x10]).ctx.machine_state.stack, vec![w(0)]);
    // GT: 2 > 1
    assert_eq!(run(vec![0x60, 0x01, 0x60, 0x02, 0x11]).ctx.machine_state.stack, vec![w(1)]);
    // EQ
    assert_eq!(run(vec![0x60, 0x05, 0x60, 0x05, 0x14]).ctx.machine_state.stack, vec![w(1)]);
    assert_eq!(run(vec![0x60, 0x05, 0x60, 0x06, 0x14]).ctx.machine_state.stack, vec![w(0)]);
    // ISZERO
    assert_eq!(run(vec![0x60, 0x00, 0x15]).ctx.machine_state.stack, vec![w(1)]);
    assert_eq!(run(vec![0x60, 0x09, 0x15]).ctx.machine_state.stack, vec![w(0)]);
}

#[test]
fn lt_compares_high_limbs() {
    // PUSH32 (1 << 128), PUSH1 1, LT: 2^128 < 1 is false, and the reverse
    // order makes it true.
    let mut big = vec![0x7f];
    let mut word_bytes = vec![0u8; 32];
    word_bytes[15] = 1;
    big.extend(word_bytes);
    let mut code = big.clone();
    code.extend(vec![0x60, 0x01, 0x10]); // top = 1, so 1 < 2^128
    assert_eq!(run(code).ctx.machine_state.stack, vec![w(1)]);
}

#[test]
fn mstore_then_mload_round_trips() {
    // PUSH1 0x42, PUSH1 0, MSTORE, PUSH1 0, MLOAD
    let s = run(vec![0x60, 0x42, 0x60, 0x00, 0x52, 0x60, 0x00, 0x51]);
    assert!(s.success);
    assert_eq!(s.ctx.machine_state.stack, vec![w(0x42)]);
    assert_eq!(s.ctx.machine_state.active_words, 1);
    // The stored word sits big-endian: byte 31 holds 0x42.
    assert_eq!(s.ctx.machine_state.memory[31], 0x42);
    assert_eq!(s.ctx.machine_state.memory[30], 0x00);
}

#[test]
fn mload_of_untouched_memory_is_zero() {
    let s = run(vec![0x60, 0x40, 0x51]);
    assert!(s.success);
    assert_eq!(s.ctx.machine_state.stack, vec![w(0)]);
    assert_eq!(s.ctx.machine_state.active_words, 3);
}

#[test]
fn bitwise_opcodes() {
    // AND / OR / XOR on 0b1100 and 0b1010, NOT of zero.
    assert_eq!(run(vec![0x60, 0x0a, 0x60, 0x0c, 0x16]).ctx.machine_state.stack, vec![w(0x08)]);
    assert_eq!(run(vec![0x60, 0x0a, 0x60, 0x0c, 0x17]).ctx.machine_state.stack, vec![w(0x0e)]);
    assert_eq!(run(vec![0x60, 0x0a, 0x60, 0x0c, 0x18]).ctx.machine_state.stack, vec![w(0x06)]);
    let all_ones = Word {
        w0: u64::MAX,
        w1: u64::MAX,
        w2: u64::MAX,
        w3: u64::MAX,
    };
    assert_eq!(run(vec![0x60, 0x00, 0x19]).ctx.machine_state.stack, vec![all_ones]);
}

#[test]
fn failed_runs_carry_rendered_messages() {
    let s = run(vec![0xEF]);
    assert_eq!(s.error.expect("failed").message(), "cannot find opcode ef");
    let s2 = run(vec![0x60, 0x00, 0x56]);
    assert_eq!(s2.error.expect("failed").message(), "cannot jump to opcode 0");
}
