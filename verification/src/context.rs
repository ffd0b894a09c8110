use vstd::prelude::*;

verus! {

use crate::word::Word;
use crate::machine::MachineState;
use crate::state::{GlobalState, AccruedSubstate};
use crate::errors::EVMError;

/// The immutable per-call parameters of one execution.
pub struct ExecutionInput {
    pub address: Word,
    pub sender: Word,
    pub origin: Word,
    pub value: Word,
    pub price: Word,
    pub data: Vec<u8>,
    pub bytecode: Vec<u8>,
}

impl ExecutionInput {
    pub fn new() -> (r: ExecutionInput)
        ensures
            r.address.as_nat() == 0,
            r.sender.as_nat() == 0,
            r.origin.as_nat() == 0,
            r.value.as_nat() == 0,
            r.price.as_nat() == 0,
            r.data@.len() == 0,
            r.bytecode@.len() == 0,
    {
        ExecutionInput {
            address: Word::zero(),
            sender: Word::zero(),
            origin: Word::zero(),
            value: Word::zero(),
            price: Word::zero(),
            data: Vec::new(),
            bytecode: Vec::new(),
        }
    }
}

/// Everything an opcode handler sees: the mutable machine state, the
/// read-only call input and global snapshot, and the accrued substate.
pub struct ExecutionContext {
    pub machine_state: MachineState,
    pub input: ExecutionInput,
    pub global_state: GlobalState,
    pub accrued_substate: AccruedSubstate,
}

impl ExecutionContext {
    /// A context is well formed when its substate log is.
    pub open spec fn wf(self) -> bool {
        self.accrued_substate.wf()
    }

    pub fn new() -> (r: ExecutionContext)
        ensures
            r.wf(),
            r.machine_state.stack@.len() == 0,
            r.machine_state.memory@.len() == 0,
            r.machine_state.active_words == 0,
            r.machine_state.pc == 0,
            r.machine_state.output@.len() == 0,
            r.input.data@.len() == 0,
            r.input.bytecode@.len() == 0,
            r.accrued_substate.accessed_accounts@.len() == 0,
            forall|a: Word| r.global_state.spec_get(a) is None,
    {
        ExecutionContext {
            machine_state: MachineState::new(),
            input: ExecutionInput::new(),
            global_state: GlobalState::new(),
            accrued_substate: AccruedSubstate::new(),
        }
    }
}

/// A successful halt of the dispatch loop.
pub enum Halt {
    /// An explicit stop with no output.
    Stop,
    /// A return carrying the output now stored in the machine state.
    Return,
}

/// What one opcode handler reports: continue, halt, or a failure.
pub type OpcodeResult = Result<Option<Halt>, EVMError>;

/// The per-call input and the global snapshot are never written by handlers.
pub open spec fn frame_kept(pre: ExecutionContext, post: ExecutionContext) -> bool {
    post.input == pre.input && post.global_state == pre.global_state
}

/// Memory bytes and the active-word watermark are untouched.
pub open spec fn mem_kept(pre: ExecutionContext, post: ExecutionContext) -> bool {
    post.machine_state.memory@ == pre.machine_state.memory@ && post.machine_state.active_words
        == pre.machine_state.active_words
}

/// Program counter and output buffer are untouched.
pub open spec fn pc_out_kept(pre: ExecutionContext, post: ExecutionContext) -> bool {
    post.machine_state.pc == pre.machine_state.pc && post.machine_state.output@
        == pre.machine_state.output@
}

/// The substate log is untouched.
pub open spec fn substate_kept(pre: ExecutionContext, post: ExecutionContext) -> bool {
    post.accrued_substate == pre.accrued_substate
}

/// Everything except the stack is untouched.
pub open spec fn non_stack_kept(pre: ExecutionContext, post: ExecutionContext) -> bool {
    frame_kept(pre, post) && mem_kept(pre, post) && pc_out_kept(pre, post) && substate_kept(
        pre,
        post,
    )
}

/// The final stack, memory and outcome of one finished execution.
pub struct EvmResult {
    pub stack: Vec<Word>,
    pub success: bool,
}

} // verus!
