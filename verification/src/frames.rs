//! Call frames: what a step of a runtime does with an executor behind it,
//! and how the executor runs the code of a call or of a creation in a frame
//! of its own.
//!
//! The functions of `ExecutorView` in this file define what execution means.
//! Every interpreter step spends one of the executor's steps; an executor
//! with no steps left ends the frame with `OutOfGas`.

use crate::account::StackExitKind;
use crate::address::Address;
use crate::backend::{Backend, LogView, PrecompileSet};
use crate::context::{CallScheme, Context, CreateScheme, Transfer};
use crate::error::{Capture, ExitError, ExitFatal, ExitReason, ExitSucceed};
use crate::executor::{static_fault, ExecutorView, StackExecutor};
use crate::hash::{keccak256, keccak256_digest};
use crate::opcode::ExternalOpcode;
use crate::runtime::{Flow, Runtime, RuntimeView};
use crate::word::Word;
use vstd::prelude::*;

verus! {

/// What a call returned: how it ended, and the bytes it gave back.
pub type CallOutcome = (ExitReason, Seq<u8>);

/// What a creation returned: how it ended, the address of the new contract
/// where it succeeded, and the bytes it gave back where it reverted.
pub type CreateOutcome = (ExitReason, Option<Address>, Seq<u8>);

/// The smaller of a word and a length.
pub open spec fn min_len(w: Word, n: nat) -> Word {
    if w.value() <= n {
        w
    } else {
        Word::spec_from_usize(n as usize)
    }
}

impl RuntimeView {
    /// `SHA3`: takes an offset and a length off the stack and pushes the
    /// Keccak-256 digest of that range of memory.
    pub open spec fn eval_sha3(self) -> (RuntimeView, Flow) {
        if self.machine.stack.len() < 2 {
            (self, Flow::Exit(ExitReason::Error(ExitError::StackUnderflow)))
        } else {
            let from = self.arg(0);
            let len = self.arg(1);
            let (rt, resized) = self.dropped(2).resized(from, len);
            match resized {
                Err(e) => (rt, Flow::Exit(ExitReason::Error(e))),
                Ok(()) => match rt.memory_range(from, len) {
                    Err(reason) => (rt, Flow::Exit(reason)),
                    Ok(data) => (rt.pushed(Word::from_be(keccak256(data))), Flow::Continue),
                },
            }
        }
    }

    /// `EXTCODECOPY` of an account with the code `source`: takes the
    /// account, the offset in memory, the offset in the code and the length
    /// off the stack and copies from the code into memory.
    pub open spec fn eval_ext_code_copy(self, source: Seq<u8>) -> (RuntimeView, Flow) {
        let memory_offset = self.arg(1);
        let data_offset = self.arg(2);
        let len = self.arg(3);
        let (rt, resized) = self.dropped(4).resized(memory_offset, len);
        match resized {
            Err(e) => (rt, Flow::Exit(ExitReason::Error(e))),
            Ok(()) => {
                let (rt2, copied) = rt.copied(memory_offset, data_offset, len, source);
                match copied {
                    Err(e) => (rt2, Flow::Exit(ExitReason::Fatal(e))),
                    Ok(()) => (rt2, Flow::Continue),
                }
            },
        }
    }

    /// `RETURNDATACOPY`: copies from the return-data buffer into memory; a
    /// range that goes beyond the buffer is `OutOfOffset`.
    pub open spec fn eval_return_data_copy(self) -> (RuntimeView, Flow) {
        if self.machine.stack.len() < 3 {
            (self, Flow::Exit(ExitReason::Error(ExitError::StackUnderflow)))
        } else {
            let memory_offset = self.arg(0);
            let data_offset = self.arg(1);
            let len = self.arg(2);
            let (rt, resized) = self.dropped(3).resized(memory_offset, len);
            match resized {
                Err(e) => (rt, Flow::Exit(ExitReason::Error(e))),
                Ok(()) => if data_offset.value() + len.value() > self.return_data_buffer.len() {
                    (rt, Flow::Exit(ExitReason::Error(ExitError::OutOfOffset)))
                } else {
                    let (rt2, copied) = rt.copied(memory_offset, data_offset, len, self.return_data_buffer);
                    match copied {
                        Err(e) => (rt2, Flow::Exit(ExitReason::Fatal(e))),
                        Ok(()) => (rt2, Flow::Continue),
                    }
                },
            }
        }
    }
}

/// What a call operation asks for, once its operands are read.
pub struct CallRequest {
    /// The callee.
    pub to: Address,
    /// The value sent along.
    pub value: Word,
    /// The input.
    pub input: Seq<u8>,
    /// Where in memory the output goes.
    pub out_offset: Word,
    /// How many bytes of output memory has room for.
    pub out_len: Word,
}

/// What a call operation asks for, once its operands are read.
pub struct CallArgs {
    /// The callee.
    pub to: Address,
    /// The value sent along.
    pub value: Word,
    /// The input.
    pub input: Vec<u8>,
    /// Where in memory the output goes.
    pub out_offset: Word,
    /// How many bytes of output memory has room for.
    pub out_len: Word,
}

impl View for CallArgs {
    type V = CallRequest;

    open spec fn view(&self) -> CallRequest {
        CallRequest {
            to: self.to,
            value: self.value,
            input: self.input@,
            out_offset: self.out_offset,
            out_len: self.out_len,
        }
    }
}

impl RuntimeView {
    /// The first part of a call operation: the return-data buffer is
    /// emptied; the gas, the callee, the value (for `CALL` and `CALLCODE`;
    /// zero for the others) and the ranges of memory for the input and the
    /// output are taken off the stack; a `CALL` with a value in a static
    /// frame faults; the memory is made to cover both ranges, and the input
    /// is read.
    pub open spec fn call_prepare(self, scheme: CallScheme, frame_is_static: bool) -> (
        RuntimeView,
        Result<CallRequest, ExitReason>,
    ) {
        let has_value = scheme == CallScheme::Call || scheme == CallScheme::CallCode;
        let count: int = if has_value {
            7
        } else {
            6
        };
        let rt0 = self.with_buffer(Seq::empty());
        if rt0.machine.stack.len() < count {
            (rt0, Err(ExitReason::Error(ExitError::StackUnderflow)))
        } else {
            let to = Address::spec_from_word(rt0.arg(1));
            let value = if has_value {
                rt0.arg(2)
            } else {
                Word::spec_zero()
            };
            let in_offset = rt0.arg(count - 4);
            let in_len = rt0.arg(count - 3);
            let out_offset = rt0.arg(count - 2);
            let out_len = rt0.arg(count - 1);
            let rt1 = rt0.dropped(count);
            if scheme == CallScheme::Call && value.value() != 0 && frame_is_static {
                (rt1, Err(ExitReason::Error(static_fault())))
            } else {
                let (rt2, resized_in) = rt1.resized(in_offset, in_len);
                match resized_in {
                    Err(e) => (rt2, Err(ExitReason::Error(e))),
                    Ok(()) => {
                        let (rt3, resized_out) = rt2.resized(out_offset, out_len);
                        match resized_out {
                            Err(e) => (rt3, Err(ExitReason::Error(e))),
                            Ok(()) => match rt3.memory_range(in_offset, in_len) {
                                Err(reason) => (rt3, Err(reason)),
                                Ok(input) => (
                                    rt3,
                                    Ok(CallRequest { to, value, input, out_offset, out_len }),
                                ),
                            },
                        }
                    },
                }
            }
        }
    }

    /// The last part of a call operation, for a call that ended with
    /// `reason` and gave `return_data` back: the data becomes the return
    /// data; 1 is pushed where the call succeeded, else 0; where the call
    /// succeeded or reverted the data is copied to the output range as far
    /// as it reaches (a copy that fails after a success turns the 1 into a
    /// 0); a fatal end of the call ends this frame too.
    pub open spec fn call_returned(
        self,
        reason: ExitReason,
        return_data: Seq<u8>,
        out_offset: Word,
        out_len: Word,
    ) -> (RuntimeView, Flow) {
        let rt0 = self.with_buffer(return_data);
        let (rt1, copied) = rt0.copied(
            out_offset,
            Word::spec_zero(),
            min_len(out_len, return_data.len()),
            return_data,
        );
        match reason {
            ExitReason::Succeed(_) => match copied {
                Ok(()) => (rt1.pushed(Word::spec_one()), Flow::Continue),
                Err(_) => (rt1.pushed(Word::spec_zero()), Flow::Continue),
            },
            ExitReason::Revert(_) => (rt1.pushed(Word::spec_zero()), Flow::Continue),
            ExitReason::Error(_) => (rt0.pushed(Word::spec_zero()), Flow::Continue),
            ExitReason::Fatal(e) => (rt0.pushed(Word::spec_zero()), Flow::Exit(ExitReason::Fatal(e))),
        }
    }
}

/// What a create operation asks for, once its operands are read.
pub struct CreateRequest {
    /// The value given to the new account.
    pub value: Word,
    /// The init code.
    pub code: Seq<u8>,
    /// The salt of `CREATE2`; zero for `CREATE`.
    pub salt: Word,
}

/// What a create operation asks for, once its operands are read.
pub struct CreateArgs {
    /// The value given to the new account.
    pub value: Word,
    /// The init code.
    pub code: Vec<u8>,
    /// The salt of `CREATE2`; zero for `CREATE`.
    pub salt: Word,
}

impl View for CreateArgs {
    type V = CreateRequest;

    open spec fn view(&self) -> CreateRequest {
        CreateRequest { value: self.value, code: self.code@, salt: self.salt }
    }
}

impl CreateRequest {
    /// How the address of the new contract is chosen.
    pub open spec fn scheme(self, is_create2: bool, caller: Address) -> CreateScheme {
        if is_create2 {
            CreateScheme::Create2 {
                caller,
                code_hash: Word::from_be(keccak256(self.code)),
                salt: self.salt,
            }
        } else {
            CreateScheme::Legacy { caller }
        }
    }
}

impl RuntimeView {
    /// The first part of a create operation: the return-data buffer is
    /// emptied; the value, the range of memory that holds the init code and,
    /// for `CREATE2`, the salt are taken off the stack; a static frame
    /// faults; the memory is made to cover the range, and the init code is
    /// read.
    pub open spec fn create_prepare(self, is_create2: bool, frame_is_static: bool) -> (
        RuntimeView,
        Result<CreateRequest, ExitReason>,
    ) {
        let count: int = if is_create2 {
            4
        } else {
            3
        };
        let rt0 = self.with_buffer(Seq::empty());
        if rt0.machine.stack.len() < count {
            (rt0, Err(ExitReason::Error(ExitError::StackUnderflow)))
        } else {
            let value = rt0.arg(0);
            let code_offset = rt0.arg(1);
            let len = rt0.arg(2);
            let salt = if is_create2 {
                rt0.arg(3)
            } else {
                Word::spec_zero()
            };
            let rt1 = rt0.dropped(count);
            if frame_is_static {
                (rt1, Err(ExitReason::Error(static_fault())))
            } else {
                let (rt2, resized) = rt1.resized(code_offset, len);
                match resized {
                    Err(e) => (rt2, Err(ExitReason::Error(e))),
                    Ok(()) => match rt2.memory_range(code_offset, len) {
                        Err(reason) => (rt2, Err(reason)),
                        Ok(code) => (rt2, Ok(CreateRequest { value, code, salt })),
                    },
                }
            }
        }
    }

    /// The last part of a create operation, for a creation that ended with
    /// `reason`: what it gave back becomes the return data; the new address
    /// is pushed where the creation succeeded, else zero; a fatal end of the
    /// creation ends this frame too.
    pub open spec fn create_returned(self, reason: ExitReason, address: Option<Address>, return_data: Seq<u8>) -> (
        RuntimeView,
        Flow,
    ) {
        let rt0 = self.with_buffer(return_data);
        match reason {
            ExitReason::Succeed(_) => (
                rt0.pushed(
                    match address {
                        Some(a) => a.spec_to_word(),
                        None => Word::spec_zero(),
                    },
                ),
                Flow::Continue,
            ),
            ExitReason::Fatal(e) => (rt0.pushed(Word::spec_zero()), Flow::Exit(ExitReason::Fatal(e))),
            _ => (rt0.pushed(Word::spec_zero()), Flow::Continue),
        }
    }
}

impl<B: Backend, P: PrecompileSet> ExecutorView<B, P> {
    /// `after` may come from `self` by running code in the current frame:
    /// the frames are the same in number, those below the current one are
    /// unchanged, no step was gained, and the executor is well formed.
    pub open spec fn leads_to(self, after: Self) -> bool {
        &&& after.wf()
        &&& after.substates.len() == self.substates.len()
        &&& after.substates.drop_last() == self.substates.drop_last()
        &&& after.steps_left <= self.steps_left
        &&& after.config == self.config
    }

    /// The executor with one step spent.
    pub open spec fn spent(self) -> Self {
        ExecutorView { steps_left: (self.steps_left - 1) as u64, ..self }
    }

    /// The word that an operation without operands pushes.
    pub open spec fn query_value(self, rt: RuntimeView, opcode: ExternalOpcode) -> Word {
        match opcode {
            ExternalOpcode::Address => rt.context.address.spec_to_word(),
            ExternalOpcode::SelfBalance => self.balance(rt.context.address),
            ExternalOpcode::Origin => self.backend.spec_origin().spec_to_word(),
            ExternalOpcode::Caller => rt.context.caller.spec_to_word(),
            ExternalOpcode::CallValue => rt.context.apparent_value,
            ExternalOpcode::GasPrice => self.backend.spec_gas_price(),
            ExternalOpcode::ReturnDataSize => Word::spec_from_usize(rt.return_data_buffer.len() as usize),
            ExternalOpcode::Coinbase => self.backend.spec_block_coinbase().spec_to_word(),
            ExternalOpcode::Timestamp => self.backend.spec_block_timestamp(),
            ExternalOpcode::Number => self.backend.spec_block_number(),
            ExternalOpcode::Difficulty => self.backend.spec_block_difficulty(),
            ExternalOpcode::GasLimit => self.backend.spec_block_gas_limit(),
            ExternalOpcode::ChainId => self.backend.spec_chain_id(),
            _ => self.backend.spec_gas_left(),
        }
    }

    /// The word by which an operation with one operand replaces it.
    pub open spec fn lookup_value(self, rt: RuntimeView, opcode: ExternalOpcode, w: Word) -> Word {
        match opcode {
            ExternalOpcode::Balance => self.balance(Address::spec_from_word(w)),
            ExternalOpcode::ExtCodeSize => self.code_size(Address::spec_from_word(w)),
            ExternalOpcode::ExtCodeHash => self.code_hash(Address::spec_from_word(w)),
            ExternalOpcode::BlockHash => self.backend.spec_block_hash(w),
            _ => self.storage(rt.context.address, w),
        }
    }

    /// What an operation that only reads the executor does to the runtime.
    /// A byte that names no operation ends the frame with `OutOfGas`.
    pub open spec fn eval_query(self, rt: RuntimeView, opcode: ExternalOpcode) -> (RuntimeView, Flow) {
        match opcode {
            ExternalOpcode::Sha3 => rt.eval_sha3(),
            ExternalOpcode::ExtCodeCopy => if rt.machine.stack.len() < 4 {
                (rt, Flow::Exit(ExitReason::Error(ExitError::StackUnderflow)))
            } else {
                rt.eval_ext_code_copy(self.code(Address::spec_from_word(rt.arg(0))))
            },
            ExternalOpcode::ReturnDataCopy => rt.eval_return_data_copy(),
            ExternalOpcode::Balance
            | ExternalOpcode::ExtCodeSize
            | ExternalOpcode::ExtCodeHash
            | ExternalOpcode::BlockHash
            | ExternalOpcode::SLoad => rt.map_top(|w: Word| self.lookup_value(rt, opcode, w)),
            ExternalOpcode::Other(_) => (rt, Flow::Exit(ExitReason::Error(ExitError::OutOfGas))),
            _ => rt.push_flow(self.query_value(rt, opcode)),
        }
    }

    /// `SSTORE`: takes an index and a value off the stack and stages the
    /// value in the storage of the frame's account. A static frame faults.
    pub open spec fn eval_sstore(self, rt: RuntimeView) -> (Self, RuntimeView, Flow) {
        if rt.machine.stack.len() < 2 {
            (self, rt, Flow::Exit(ExitReason::Error(ExitError::StackUnderflow)))
        } else if self.is_static() {
            (self, rt.dropped(2), Flow::Exit(ExitReason::Error(static_fault())))
        } else {
            (
                self.set_storage(rt.context.address, rt.arg(0), rt.arg(1)),
                rt.dropped(2),
                Flow::Continue,
            )
        }
    }

    /// `LOGn`: takes an offset, a length and `n` topics off the stack and
    /// adds a log of that range of memory. A static frame faults.
    pub open spec fn eval_log(self, rt: RuntimeView, n: u8) -> (Self, RuntimeView, Flow) {
        if rt.machine.stack.len() < 2 + n {
            (self, rt, Flow::Exit(ExitReason::Error(ExitError::StackUnderflow)))
        } else {
            let offset = rt.arg(0);
            let len = rt.arg(1);
            let topics = Seq::new(n as nat, |i: int| rt.arg(2 + i));
            let rt1 = rt.dropped(2 + n);
            if self.is_static() {
                (self, rt1, Flow::Exit(ExitReason::Error(static_fault())))
            } else {
                let (rt2, resized) = rt1.resized(offset, len);
                match resized {
                    Err(e) => (self, rt2, Flow::Exit(ExitReason::Error(e))),
                    Ok(()) => match rt2.memory_range(offset, len) {
                        Err(reason) => (self, rt2, Flow::Exit(reason)),
                        Ok(data) => (
                            self.log(LogView { address: rt.context.address, topics, data }),
                            rt2,
                            Flow::Continue,
                        ),
                    },
                }
            }
        }
    }

    /// `SELFDESTRUCT`: takes the beneficiary off the stack and destroys the
    /// frame's account in its favour. A static frame faults.
    pub open spec fn eval_suicide(self, rt: RuntimeView) -> (Self, RuntimeView, Flow) {
        if rt.machine.stack.len() < 1 {
            (self, rt, Flow::Exit(ExitReason::Error(ExitError::StackUnderflow)))
        } else if self.is_static() {
            (self, rt.dropped(1), Flow::Exit(ExitReason::Error(static_fault())))
        } else {
            let (s, r) = self.mark_delete(rt.context.address, Address::spec_from_word(rt.arg(0)));
            match r {
                Err(e) => (s, rt.dropped(1), Flow::Exit(ExitReason::Error(e))),
                Ok(()) => (s, rt.dropped(1), Flow::Exit(ExitReason::Succeed(ExitSucceed::Suicided))),
            }
        }
    }

    /// How the frame of a call ends once its code has run with `reason` and
    /// `out`: merged where it succeeded, dropped otherwise; the bytes are
    /// handed on where it succeeded or reverted.
    pub open spec fn call_finish(self, reason: ExitReason, out: Seq<u8>) -> (Self, CallOutcome) {
        match reason {
            ExitReason::Succeed(_) => (self.exit_substate(StackExitKind::Succeeded), (reason, out)),
            ExitReason::Error(_) => (self.exit_substate(StackExitKind::Failed), (reason, Seq::empty())),
            ExitReason::Revert(_) => (self.exit_substate(StackExitKind::Reverted), (reason, out)),
            ExitReason::Fatal(_) => (self.exit_substate(StackExitKind::Failed), (reason, Seq::empty())),
        }
    }

    /// How the frame of a creation ends once the init code has run with
    /// `reason` and `out`. Where it succeeded, `out` is the code of the new
    /// contract: over the limit of the configuration it is refused with
    /// `CreateContractLimit` and the frame is dropped, else the frame is
    /// merged and the code staged. Otherwise the frame is dropped; the bytes
    /// are handed on where it reverted.
    pub open spec fn create_finish(self, address: Address, reason: ExitReason, out: Seq<u8>) -> (
        Self,
        CreateOutcome,
    ) {
        match reason {
            ExitReason::Succeed(_) => if self.config.create_contract_limit is Some && out.len()
                > self.config.create_contract_limit->0 {
                (
                    self.exit_substate(StackExitKind::Failed),
                    (ExitReason::Error(ExitError::CreateContractLimit), None, Seq::empty()),
                )
            } else {
                (
                    self.exit_substate(StackExitKind::Succeeded).set_code(address, out),
                    (reason, Some(address), Seq::empty()),
                )
            },
            ExitReason::Error(_) => (
                self.exit_substate(StackExitKind::Failed),
                (reason, None, Seq::empty()),
            ),
            ExitReason::Revert(_) => (self.exit_substate(StackExitKind::Reverted), (reason, None, out)),
            ExitReason::Fatal(_) => (
                self.exit_substate(StackExitKind::Failed),
                (reason, None, Seq::empty()),
            ),
        }
    }

    /// The executor once a frame for a creation at `address` is open and
    /// ready, or why the creation fails before any code runs. The creator's
    /// nonce was raised before. A frame is opened; where the address has
    /// code or a nonce the creation collides and the frame is dropped;
    /// else the storage of the address is emptied, the value is
    /// transferred (a failure drops the frame) and, where the configuration
    /// asks for it, the nonce of the new account is raised.
    pub open spec fn create_open(self, caller: Address, address: Address, value: Word) -> (
        Self,
        Result<(), ExitError>,
    ) {
        let s1 = self.enter_substate(false).account_mut(address);
        let staged = s1.resolved(address).code;
        let code = match staged {
            Some(c) => c,
            None => self.backend.spec_code(address),
        };
        let s2 = if staged is None {
            s1.set_code(address, code)
        } else {
            s1
        };
        if code.len() != 0 || s2.nonce(address).value() != 0 {
            (s2.exit_substate(StackExitKind::Failed), Err(ExitError::CreateCollision))
        } else {
            let (s3, moved) = s2.reset_storage(address).transfer(
                Transfer { source: caller, target: address, value },
            );
            match moved {
                Err(e) => (s3.exit_substate(StackExitKind::Reverted), Err(e)),
                Ok(()) => if self.config.create_increase_nonce {
                    (s3.bump_nonce(address), Ok(()))
                } else {
                    (s3, Ok(()))
                },
            }
        }
    }

    /// The executor once a frame for a call is open and ready, or why the
    /// call fails before any code runs: a frame is opened (static where
    /// asked for), it gets a record of the context's account, a frame deeper
    /// than the call stack limit is refused with `CallTooDeep`, and the
    /// transfer, if any, is made. A failure drops the frame.
    pub open spec fn call_open(self, transfer: Option<Transfer>, is_static: bool, context: Context) -> (
        Self,
        Result<(), ExitError>,
    ) {
        let s1 = self.enter_substate(is_static).account_mut(context.address);
        if s1.top().depth is Some && s1.top().depth->0 > self.config.call_stack_limit {
            (s1.exit_substate(StackExitKind::Reverted), Err(ExitError::CallTooDeep))
        } else {
            match transfer {
                None => (s1, Ok(())),
                Some(t) => {
                    let (s2, moved) = s1.transfer(t);
                    match moved {
                        Err(e) => (s2.exit_substate(StackExitKind::Reverted), Err(e)),
                        Ok(()) => (s2, Ok(())),
                    }
                },
            }
        }
    }

    /// One step of a runtime. A stopped runtime reports why it stopped. An
    /// executor without steps ends the runtime with `OutOfGas`. Otherwise a
    /// step is spent; an operation that the configuration does not have ends
    /// the runtime with `NotSupported`; else the machine steps, and what
    /// it cannot do alone is done with the executor.
    pub open spec fn step(self, rt: RuntimeView) -> (Self, RuntimeView, Result<(), ExitReason>)
        decreases self.steps_left, 0int,
    {
        match rt.status {
            Err(e) => (self, rt, Err(e)),
            Ok(()) => if self.steps_left == 0 {
                let reason = ExitReason::Error(ExitError::OutOfGas);
                (self, rt.exited(reason), Err(reason))
            } else if rt.machine.position is Ok && rt.machine.position->Ok_0 < rt.machine.code.len()
                && !rt.config.spec_supports(
                crate::opcode::Opcode::spec_parse(rt.machine.code[rt.machine.position->Ok_0 as int]),
            ) {
                let reason = ExitReason::Fatal(ExitFatal::NotSupported);
                (self.spent(), rt.exited(reason), Err(reason))
            } else {
                let (m, r) = rt.machine.step();
                match r {
                    Ok(()) => (self.spent(), rt.with_machine(m), Ok(())),
                    Err(Capture::Exit(e)) => (
                        self.spent(),
                        RuntimeView { status: Err(e), ..rt.with_machine(m) },
                        Err(e),
                    ),
                    Err(Capture::Trap(opcode)) => {
                        let (s, rt2, flow) = self.spent().eval(rt.with_machine(m), opcode);
                        match flow {
                            Flow::Continue => (s, rt2, Ok(())),
                            Flow::Exit(e) => (s, rt2.exited(e), Err(e)),
                        }
                    },
                }
            },
        }
    }

    /// A runtime run to its end: it steps until it stops. (Every step that
    /// does not stop spends a step of the executor; the test for it below
    /// only makes the definition well founded.)
    pub open spec fn run(self, rt: RuntimeView) -> (Self, RuntimeView, ExitReason)
        decreases self.steps_left, 1int,
    {
        let (s, rt2, r) = self.step(rt);
        match r {
            Err(reason) => (s, rt2, reason),
            Ok(()) => if s.steps_left < self.steps_left {
                s.run(rt2)
            } else {
                (s, rt2, ExitReason::Fatal(ExitFatal::UnhandledInterrupt))
            },
        }
    }

    /// A call: the code at `code_address` runs on `input` in a frame of its
    /// own, under `context`. A precompile at the address takes the place of
    /// the code.
    pub open spec fn call_inner(
        self,
        code_address: Address,
        transfer: Option<Transfer>,
        input: Seq<u8>,
        is_static: bool,
        context: Context,
    ) -> (Self, CallOutcome)
        decreases self.steps_left, 2int,
    {
        let code = self.code(code_address);
        let (s, opened) = self.call_open(transfer, is_static, context);
        match opened {
            Err(e) => (s, (ExitReason::Error(e), Seq::empty())),
            Ok(()) => match self.precompile.spec_resolve(code_address, input, context) {
                Some(Ok((exit, out))) => (
                    s.exit_substate(StackExitKind::Succeeded),
                    (ExitReason::Succeed(exit), out),
                ),
                Some(Err(e)) => (
                    s.exit_substate(StackExitKind::Failed),
                    (ExitReason::Error(e), Seq::empty()),
                ),
                None => {
                    let (s2, rt, reason) = s.run(RuntimeView::new(code, input, context, self.config));
                    s2.call_finish(reason, rt.machine.return_value())
                },
            },
        }
    }

    /// A creation: a frame deeper than the call stack limit would be is
    /// refused with `CallTooDeep`, a creator without the funds with
    /// `OutOfFund`; else the address is derived, the creator's nonce is
    /// raised, and `init_code` runs in a frame of its own; what it returns
    /// becomes the code of the new contract.
    pub open spec fn create_inner(
        self,
        caller: Address,
        scheme: CreateScheme,
        value: Word,
        init_code: Seq<u8>,
    ) -> (Self, CreateOutcome)
        decreases self.steps_left, 2int,
    {
        if self.top().depth is Some && self.top().depth->0 >= self.config.call_stack_limit {
            (self, (ExitReason::Error(ExitError::CallTooDeep), None, Seq::empty()))
        } else if self.balance(caller).value() < value.value() {
            (self, (ExitReason::Error(ExitError::OutOfFund), None, Seq::empty()))
        } else {
            let address = self.create_address(scheme);
            let (s, opened) = self.bump_nonce(caller).create_open(caller, address, value);
            match opened {
                Err(e) => (s, (ExitReason::Error(e), None, Seq::empty())),
                Ok(()) => {
                    let context = Context { address, caller, apparent_value: value };
                    let (s2, rt, reason) = s.run(
                        RuntimeView::new(init_code, Seq::empty(), context, self.config),
                    );
                    s2.create_finish(address, reason, rt.machine.return_value())
                },
            }
        }
    }

    /// `CREATE` and `CREATE2`: the operands are read, the creation is made
    /// in the name of the frame's account, and what it returned is handed to
    /// the runtime.
    pub open spec fn eval_create(self, rt: RuntimeView, is_create2: bool) -> (Self, RuntimeView, Flow)
        decreases self.steps_left, 3int,
    {
        let (rt1, prepared) = rt.create_prepare(is_create2, self.is_static());
        match prepared {
            Err(reason) => (self, rt1, Flow::Exit(reason)),
            Ok(request) => {
                let (s, (reason, address, return_data)) = self.create_inner(
                    rt.context.address,
                    request.scheme(is_create2, rt.context.address),
                    request.value,
                    request.code,
                );
                let (rt2, flow) = rt1.create_returned(reason, address, return_data);
                (s, rt2, flow)
            },
        }
    }

    /// The context of the frame that a call of kind `scheme` to `to` with
    /// `value` opens from a frame with the context `current`.
    pub open spec fn call_context(scheme: CallScheme, current: Context, to: Address, value: Word) -> Context {
        match scheme {
            CallScheme::Call | CallScheme::StaticCall => Context {
                address: to,
                caller: current.address,
                apparent_value: value,
            },
            CallScheme::CallCode => Context {
                address: current.address,
                caller: current.address,
                apparent_value: value,
            },
            CallScheme::DelegateCall => Context {
                address: current.address,
                caller: current.caller,
                apparent_value: current.apparent_value,
            },
        }
    }

    /// The transfer that a call of kind `scheme` to `to` with `value` makes.
    pub open spec fn call_transfer(scheme: CallScheme, current: Context, to: Address, value: Word) -> Option<
        Transfer,
    > {
        match scheme {
            CallScheme::Call => Some(Transfer { source: current.address, target: to, value }),
            CallScheme::CallCode => Some(
                Transfer { source: current.address, target: current.address, value },
            ),
            _ => None,
        }
    }

    /// `CALL`, `CALLCODE`, `DELEGATECALL` and `STATICCALL`: the operands are
    /// read, the call is made, and what it returned is handed to the
    /// runtime.
    pub open spec fn eval_call(self, rt: RuntimeView, scheme: CallScheme) -> (Self, RuntimeView, Flow)
        decreases self.steps_left, 3int,
    {
        let (rt1, prepared) = rt.call_prepare(scheme, self.is_static());
        match prepared {
            Err(reason) => (self, rt1, Flow::Exit(reason)),
            Ok(request) => {
                let (s, (reason, return_data)) = self.call_inner(
                    request.to,
                    Self::call_transfer(scheme, rt.context, request.to, request.value),
                    request.input,
                    scheme == CallScheme::StaticCall,
                    Self::call_context(scheme, rt.context, request.to, request.value),
                );
                let (rt2, flow) = rt1.call_returned(
                    reason,
                    return_data,
                    request.out_offset,
                    request.out_len,
                );
                (s, rt2, flow)
            },
        }
    }

    /// What an operation that the machine cannot do alone does to the
    /// executor and the runtime.
    pub open spec fn eval(self, rt: RuntimeView, opcode: ExternalOpcode) -> (Self, RuntimeView, Flow)
        decreases self.steps_left, 4int,
    {
        match opcode {
            ExternalOpcode::SStore => self.eval_sstore(rt),
            ExternalOpcode::Log(n) => self.eval_log(rt, n),
            ExternalOpcode::Suicide => self.eval_suicide(rt),
            ExternalOpcode::Create => self.eval_create(rt, false),
            ExternalOpcode::Create2 => self.eval_create(rt, true),
            ExternalOpcode::Call => self.eval_call(rt, CallScheme::Call),
            ExternalOpcode::CallCode => self.eval_call(rt, CallScheme::CallCode),
            ExternalOpcode::DelegateCall => self.eval_call(rt, CallScheme::DelegateCall),
            ExternalOpcode::StaticCall => self.eval_call(rt, CallScheme::StaticCall),
            _ => {
                let (rt2, flow) = self.eval_query(rt, opcode);
                (self, rt2, flow)
            },
        }
    }

    /// A `CALL` transaction: the caller's nonce is raised, and `address` is
    /// called with a transfer of `value`.
    pub open spec fn transact_call(self, caller: Address, address: Address, value: Word, data: Seq<u8>) -> (
        Self,
        CallOutcome,
    ) {
        self.bump_nonce(caller).call_inner(
            address,
            Some(Transfer { source: caller, target: address, value }),
            data,
            false,
            Context { caller, address, apparent_value: value },
        )
    }

    /// A `CREATE` transaction.
    pub open spec fn transact_create(self, caller: Address, value: Word, init_code: Seq<u8>) -> (
        Self,
        ExitReason,
    ) {
        let (s, outcome) = self.create_inner(caller, CreateScheme::Legacy { caller }, value, init_code);
        (s, outcome.0)
    }

    /// A `CREATE2` transaction.
    pub open spec fn transact_create2(self, caller: Address, value: Word, init_code: Seq<u8>, salt: Word) -> (
        Self,
        ExitReason,
    ) {
        let (s, outcome) = self.create_inner(
            caller,
            CreateScheme::Create2 { caller, code_hash: Word::from_be(keccak256(init_code)), salt },
            value,
            init_code,
        );
        (s, outcome.0)
    }
}

/// A frame that only changes its own substate leads on: the frames below it
/// stay as they are.
pub proof fn lemma_top_changes_lead_on<B: Backend, P: PrecompileSet>(
    before: ExecutorView<B, P>,
    after: ExecutorView<B, P>,
)
    requires
        before.wf(),
        after.substates.len() == before.substates.len(),
        after.substates.drop_last() == before.substates.drop_last(),
        after.top().depth == before.top().depth,
        after.steps_left <= before.steps_left,
        after.config == before.config,
    ensures
        before.leads_to(after),
{
    let n = before.substates.len() as int;
    assert(after.substates[n - 1] == after.top());
    assert forall|i: int| 0 <= i < n - 1 implies after.substates[i] == before.substates[i] by {
        assert(after.substates[i] == after.substates.drop_last()[i]);
        assert(before.substates[i] == before.substates.drop_last()[i]);
    }
}

/// What follows from leading on twice.
pub proof fn lemma_leads_to_is_transitive<B: Backend, P: PrecompileSet>(
    a: ExecutorView<B, P>,
    b: ExecutorView<B, P>,
    c: ExecutorView<B, P>,
)
    requires
        a.leads_to(b),
        b.leads_to(c),
    ensures
        a.leads_to(c),
{
}

impl<B: Backend, P: PrecompileSet> ExecutorView<B, P> {
    /// `child` is this executor with one more frame on top.
    pub open spec fn opened(self, child: Self) -> bool {
        &&& child.wf()
        &&& child.substates.len() == self.substates.len() + 1
        &&& child.substates.drop_last() == self.substates
        &&& child.steps_left <= self.steps_left
        &&& child.config == self.config
    }

    /// Opening a frame puts one more frame on top.
    pub proof fn lemma_enter(self, is_static: bool)
        requires
            self.wf(),
            self.substates.len() < usize::MAX,
        ensures
            self.opened(self.enter_substate(is_static)),
            self.enter_substate(is_static).exit_substate(StackExitKind::Failed) == self,
    {
        let s0 = self.enter_substate(is_static);
        assert(s0.substates.drop_last() =~= self.substates);
        let n = self.substates.len() as int;
        assert forall|i: int| 1 <= i < s0.substates.len() implies (#[trigger] s0.substates[i]).depth
            == Some((i - 1) as usize) by {
            if i < n {
                assert(s0.substates[i] == self.substates[i]);
            } else {
                assert(s0.substates[i] == self.top().child(is_static));
                if n >= 2 {
                    assert(self.substates[n - 1].depth == Some((n - 2) as usize));
                }
            }
        }
        assert(s0.substates[0] == self.substates[0]);
    }

    /// Changing the top frame without touching its depth keeps the frames
    /// below and the well-formedness.
    pub proof fn lemma_with_top(self, top: crate::account::SubstateView)
        requires
            self.wf(),
            top.depth == self.top().depth,
        ensures
            self.with_top(top).wf(),
            self.with_top(top).substates.len() == self.substates.len(),
            self.with_top(top).substates.drop_last() == self.substates.drop_last(),
            self.with_top(top).top() == top,
    {
        let s = self.with_top(top);
        assert(s.substates.drop_last() =~= self.substates.drop_last());
        let n = self.substates.len() as int;
        assert forall|i: int| 1 <= i < s.substates.len() implies (#[trigger] s.substates[i]).depth
            == Some((i - 1) as usize) by {
            if i < n - 1 {
                assert(s.substates[i] == self.substates[i]);
            } else {
                assert(self.substates[i].depth == Some((i - 1) as usize));
            }
        }
        if n > 1 {
            assert(s.substates[0] == self.substates[0]);
        }
    }

    /// Staging a record in the top frame keeps the frames below and the
    /// well-formedness.
    pub proof fn lemma_with_account(self, address: Address, account: crate::account::AccountView)
        requires
            self.wf(),
        ensures
            self.with_account(address, account).wf(),
            self.with_account(address, account).substates.len() == self.substates.len(),
            self.with_account(address, account).substates.drop_last() == self.substates.drop_last(),
    {
        self.lemma_with_top(
            crate::account::SubstateView {
                state: self.top().state.insert(address, account),
                ..self.top()
            },
        );
    }

    /// A transfer keeps the frames below and the well-formedness.
    pub proof fn lemma_transfer(self, transfer: Transfer)
        requires
            self.wf(),
        ensures
            self.transfer(transfer).0.wf(),
            self.transfer(transfer).0.substates.len() == self.substates.len(),
            self.transfer(transfer).0.substates.drop_last() == self.substates.drop_last(),
            self.transfer(transfer).0.steps_left == self.steps_left,
            self.transfer(transfer).0.config == self.config,
    {
        let a = self.resolved(transfer.source);
        self.lemma_with_account(transfer.source, a);
        self.lemma_with_account(
            transfer.source,
            crate::account::AccountView {
                basic: crate::backend::Basic {
                    balance: a.basic.balance.spec_wrapping_sub(transfer.value),
                    ..a.basic
                },
                ..a
            },
        );
        let (w, withdrawn) = self.withdraw(transfer.source, transfer.value);
        if withdrawn is Ok {
            let b = w.resolved(transfer.target);
            w.lemma_with_account(transfer.target, b);
            w.lemma_with_account(
                transfer.target,
                crate::account::AccountView {
                    basic: crate::backend::Basic {
                        balance: b.basic.balance.spec_wrapping_add(transfer.value),
                        ..b.basic
                    },
                    ..b
                },
            );
        }
    }

    /// Dropping the top frame of an opened executor gives the executor back.
    pub proof fn lemma_drop_opened(self, child: Self)
        requires
            self.opened(child),
            child.steps_left == self.steps_left,
            child.backend == self.backend,
            child.precompile == self.precompile,
        ensures
            child.exit_substate(StackExitKind::Failed) == self,
            child.exit_substate(StackExitKind::Reverted) == self,
    {
    }

    /// The frame of a call is opened on top of the frames that are there;
    /// where opening fails, the executor is as it was.
    pub proof fn lemma_call_open(self, transfer: Option<Transfer>, is_static: bool, context: Context)
        requires
            self.wf(),
            self.substates.len() < usize::MAX,
        ensures
            self.call_open(transfer, is_static, context).1 is Ok ==> self.opened(
                self.call_open(transfer, is_static, context).0,
            ),
            self.call_open(transfer, is_static, context).1 is Err ==> self.call_open(
                transfer,
                is_static,
                context,
            ).0 == self,
    {
        let s0 = self.enter_substate(is_static);
        self.lemma_enter(is_static);
        s0.lemma_with_account(context.address, s0.resolved(context.address));
        let s1 = s0.account_mut(context.address);
        self.lemma_drop_opened(s1);
        if transfer is Some {
            s1.lemma_transfer(transfer->0);
            let (s2, moved) = s1.transfer(transfer->0);
            assert(s2.backend == self.backend && s2.precompile == self.precompile);
            self.lemma_drop_opened(s2);
        }
    }

    /// The frame of a creation is opened on top of the frames that are
    /// there; where opening fails, the executor is as it was.
    pub proof fn lemma_create_open(self, caller: Address, address: Address, value: Word)
        requires
            self.wf(),
            self.substates.len() < usize::MAX,
        ensures
            self.create_open(caller, address, value).1 is Ok ==> self.opened(
                self.create_open(caller, address, value).0,
            ),
            self.create_open(caller, address, value).1 is Err ==> self.create_open(
                caller,
                address,
                value,
            ).0 == self,
    {
        let s0 = self.enter_substate(false);
        self.lemma_enter(false);
        s0.lemma_with_account(address, s0.resolved(address));
        let s1 = s0.account_mut(address);
        let staged = s1.resolved(address).code;
        let code = match staged {
            Some(c) => c,
            None => self.backend.spec_code(address),
        };
        s1.lemma_with_account(
            address,
            crate::account::AccountView { code: Some(code), ..s1.resolved(address) },
        );
        let s2 = if staged is None {
            s1.set_code(address, code)
        } else {
            s1
        };
        self.lemma_drop_opened(s2);
        s2.lemma_with_account(
            address,
            crate::account::AccountView {
                storage: Map::empty(),
                reset_storage: true,
                ..s2.resolved(address)
            },
        );
        let r = s2.reset_storage(address);
        let t = Transfer { source: caller, target: address, value };
        r.lemma_transfer(t);
        let (s3, moved) = r.transfer(t);
        assert(s3.backend == self.backend && s3.precompile == self.precompile);
        self.lemma_drop_opened(s3);
        let a = s3.resolved(address);
        s3.lemma_with_account(
            address,
            crate::account::AccountView {
                basic: crate::backend::Basic {
                    nonce: a.basic.nonce.spec_wrapping_add(Word::spec_one()),
                    ..a.basic
                },
                ..a
            },
        );
    }

    /// When a frame ends, the frames below the one that opened it are as
    /// they were; unless the frame succeeded, all frames are as they were.
    pub proof fn lemma_frame_ends(self, child: Self, kind: StackExitKind)
        requires
            self.wf(),
            self.opened(child),
        ensures
            self.leads_to(child.exit_substate(kind)),
            kind != StackExitKind::Succeeded ==> child.exit_substate(kind).substates == self.substates,
    {
        let after = child.exit_substate(kind);
        if kind == StackExitKind::Succeeded {
            assert(after.substates.drop_last() =~= self.substates.drop_last());
        }
        lemma_top_changes_lead_on(self, after);
    }
}

/// `SHA3`.
fn eval_sha3(rt: &mut Runtime) -> (r: Flow)
    requires
        old(rt).wf(),
    ensures
        final(rt).wf(),
        (final(rt)@, r) == old(rt)@.eval_sha3(),
{
    if rt.stack_len() < 2 {
        return Flow::Exit(ExitReason::Error(ExitError::StackUnderflow));
    }
    let args = rt.pop_args(2);
    match rt.resize_offset(args[0], args[1]) {
        Ok(()) => {},
        Err(e) => {
            return Flow::Exit(ExitReason::Error(e));
        },
    }
    match rt.memory_range(args[0], args[1]) {
        Ok(data) => {
            let digest = keccak256_digest(data.as_slice());
            rt.push_result(Word::from_be_vec(&digest));
            Flow::Continue
        },
        Err(reason) => Flow::Exit(reason),
    }
}

/// `EXTCODECOPY` of an account with the code `source`.
fn eval_ext_code_copy(rt: &mut Runtime, source: &[u8]) -> (r: Flow)
    requires
        old(rt).wf(),
        4 <= old(rt)@.machine.stack.len(),
    ensures
        final(rt).wf(),
        (final(rt)@, r) == old(rt)@.eval_ext_code_copy(source@),
{
    let args = rt.pop_args(4);
    let memory_offset = args[1];
    let data_offset = args[2];
    let len = args[3];
    match rt.resize_offset(memory_offset, len) {
        Ok(()) => {},
        Err(e) => {
            return Flow::Exit(ExitReason::Error(e));
        },
    }
    match rt.memory_copy(memory_offset, data_offset, len, source) {
        Ok(()) => Flow::Continue,
        Err(e) => Flow::Exit(ExitReason::Fatal(e)),
    }
}

/// `RETURNDATACOPY`.
fn eval_return_data_copy(rt: &mut Runtime) -> (r: Flow)
    requires
        old(rt).wf(),
    ensures
        final(rt).wf(),
        (final(rt)@, r) == old(rt)@.eval_return_data_copy(),
{
    if rt.stack_len() < 3 {
        return Flow::Exit(ExitReason::Error(ExitError::StackUnderflow));
    }
    let args = rt.pop_args(3);
    match rt.resize_offset(args[0], args[2]) {
        Ok(()) => {},
        Err(e) => {
            return Flow::Exit(ExitReason::Error(e));
        },
    }
    let buffer = crate::account::copy_bytes(rt.buffer().as_slice());
    let in_range = match args[1].checked_add(args[2]) {
        Some(end) => !end.gt(&Word::from_usize(buffer.len())),
        None => false,
    };
    if !in_range {
        proof {
            crate::word::lemma_word_of_value(Word::from_usize(buffer.len()));
        }
        return Flow::Exit(ExitReason::Error(ExitError::OutOfOffset));
    }
    match rt.memory_copy(args[0], args[1], args[2], buffer.as_slice()) {
        Ok(()) => Flow::Continue,
        Err(e) => Flow::Exit(ExitReason::Fatal(e)),
    }
}

/// An operation that replaces its operand by what the executor knows of it.
fn eval_lookup<B: Backend, P: PrecompileSet>(
    rt: &mut Runtime,
    handler: &StackExecutor<'_, B, P>,
    opcode: ExternalOpcode,
) -> (r: Flow)
    requires
        old(rt).wf(),
    ensures
        final(rt).wf(),
        (final(rt)@, r) == old(rt)@.map_top(|w: Word| handler@.lookup_value(old(rt)@, opcode, w)),
{
    if rt.stack_len() < 1 {
        return Flow::Exit(ExitReason::Error(ExitError::StackUnderflow));
    }
    let context = rt.context();
    let args = rt.pop_args(1);
    let w = args[0];
    let v = match opcode {
        ExternalOpcode::Balance => handler.balance(Address::from_word(w)),
        ExternalOpcode::ExtCodeSize => handler.code_size(Address::from_word(w)),
        ExternalOpcode::ExtCodeHash => handler.code_hash(Address::from_word(w)),
        ExternalOpcode::BlockHash => handler.backend().block_hash(w),
        _ => handler.storage(context.address, w),
    };
    rt.push_result(v);
    Flow::Continue
}

/// The word that an operation without operands pushes.
fn query_value<B: Backend, P: PrecompileSet>(
    rt: &Runtime,
    handler: &StackExecutor<'_, B, P>,
    opcode: ExternalOpcode,
) -> (r: Word)
    ensures
        r == handler@.query_value(rt@, opcode),
{
    let context = rt.context();
    match opcode {
        ExternalOpcode::Address => context.address.to_word(),
        ExternalOpcode::SelfBalance => handler.balance(context.address),
        ExternalOpcode::Origin => handler.backend().origin().to_word(),
        ExternalOpcode::Caller => context.caller.to_word(),
        ExternalOpcode::CallValue => context.apparent_value,
        ExternalOpcode::GasPrice => handler.backend().gas_price(),
        ExternalOpcode::ReturnDataSize => Word::from_usize(rt.buffer().len()),
        ExternalOpcode::Coinbase => handler.backend().block_coinbase().to_word(),
        ExternalOpcode::Timestamp => handler.backend().block_timestamp(),
        ExternalOpcode::Number => handler.backend().block_number(),
        ExternalOpcode::Difficulty => handler.backend().block_difficulty(),
        ExternalOpcode::GasLimit => handler.backend().block_gas_limit(),
        ExternalOpcode::ChainId => handler.backend().chain_id(),
        _ => handler.backend().gas_left(),
    }
}

/// Performs an operation that only reads the executor.
fn eval_query<B: Backend, P: PrecompileSet>(
    rt: &mut Runtime,
    handler: &StackExecutor<'_, B, P>,
    opcode: ExternalOpcode,
) -> (r: Flow)
    requires
        old(rt).wf(),
    ensures
        final(rt).wf(),
        (final(rt)@, r) == handler@.eval_query(old(rt)@, opcode),
{
    match opcode {
        ExternalOpcode::Sha3 => eval_sha3(rt),
        ExternalOpcode::ExtCodeCopy => {
            if rt.stack_len() < 4 {
                return Flow::Exit(ExitReason::Error(ExitError::StackUnderflow));
            }
            let top = match rt.stack_peek(0) {
                Ok(w) => w,
                Err(_) => Word::zero(),
            };
            let code = handler.code(Address::from_word(top));
            eval_ext_code_copy(rt, code.as_slice())
        },
        ExternalOpcode::ReturnDataCopy => eval_return_data_copy(rt),
        ExternalOpcode::Balance
        | ExternalOpcode::ExtCodeSize
        | ExternalOpcode::ExtCodeHash
        | ExternalOpcode::BlockHash
        | ExternalOpcode::SLoad => eval_lookup(rt, handler, opcode),
        ExternalOpcode::Other(_) => Flow::Exit(ExitReason::Error(ExitError::OutOfGas)),
        _ => {
            let v = query_value(rt, handler, opcode);
            rt.push(v)
        },
    }
}

/// `SSTORE`.
fn eval_sstore<B: Backend, P: PrecompileSet>(rt: &mut Runtime, handler: &mut StackExecutor<'_, B, P>) -> (r:
    Flow)
    requires
        old(rt).wf(),
        old(handler)@.wf(),
    ensures
        final(rt).wf(),
        (final(handler)@, final(rt)@, r) == old(handler)@.eval_sstore(old(rt)@),
        old(handler)@.leads_to(final(handler)@),
{
    if rt.stack_len() < 2 {
        return Flow::Exit(ExitReason::Error(ExitError::StackUnderflow));
    }
    let args = rt.pop_args(2);
    if handler.is_static() {
        return Flow::Exit(ExitReason::Error(ExitError::Other("MutableCallInStaticContext")));
    }
    let _ = handler.set_storage(rt.context().address, args[0], args[1]);
    proof {
        assert(final(handler)@.substates.drop_last() =~= old(handler)@.substates.drop_last());
        lemma_top_changes_lead_on(old(handler)@, final(handler)@);
    }
    Flow::Continue
}

/// `LOGn`.
fn eval_log<B: Backend, P: PrecompileSet>(rt: &mut Runtime, handler: &mut StackExecutor<'_, B, P>, n: u8) -> (r:
    Flow)
    requires
        old(rt).wf(),
        old(handler)@.wf(),
    ensures
        final(rt).wf(),
        (final(handler)@, final(rt)@, r) == old(handler)@.eval_log(old(rt)@, n),
        old(handler)@.leads_to(final(handler)@),
{
    let count: usize = 2 + n as usize;
    if rt.stack_len() < count {
        return Flow::Exit(ExitReason::Error(ExitError::StackUnderflow));
    }
    let args = rt.pop_args(count);
    let mut topics: Vec<Word> = Vec::new();
    let mut i: usize = 0;
    while i < n as usize
        invariant
            i <= n,
            args@.len() == 2 + n,
            topics@.len() == i,
            forall|j: int| 0 <= j < i ==> topics@[j] == args@[2 + j],
        decreases n - i,
    {
        topics.push(args[2 + i]);
        i = i + 1;
    }
    assert(topics@ =~= Seq::new(n as nat, |i: int| old(rt)@.arg(2 + i)));
    if handler.is_static() {
        return Flow::Exit(ExitReason::Error(ExitError::Other("MutableCallInStaticContext")));
    }
    match rt.resize_offset(args[0], args[1]) {
        Ok(()) => {},
        Err(e) => {
            return Flow::Exit(ExitReason::Error(e));
        },
    }
    match rt.memory_range(args[0], args[1]) {
        Ok(data) => {
            let _ = handler.log(rt.context().address, topics, data);
            proof {
                assert(final(handler)@.substates.drop_last() =~= old(handler)@.substates.drop_last());
                lemma_top_changes_lead_on(old(handler)@, final(handler)@);
            }
            Flow::Continue
        },
        Err(reason) => Flow::Exit(reason),
    }
}

/// `SELFDESTRUCT`.
fn eval_suicide<B: Backend, P: PrecompileSet>(rt: &mut Runtime, handler: &mut StackExecutor<'_, B, P>) -> (r:
    Flow)
    requires
        old(rt).wf(),
        old(handler)@.wf(),
    ensures
        final(rt).wf(),
        (final(handler)@, final(rt)@, r) == old(handler)@.eval_suicide(old(rt)@),
        old(handler)@.leads_to(final(handler)@),
{
    if rt.stack_len() < 1 {
        return Flow::Exit(ExitReason::Error(ExitError::StackUnderflow));
    }
    let args = rt.pop_args(1);
    if handler.is_static() {
        return Flow::Exit(ExitReason::Error(ExitError::Other("MutableCallInStaticContext")));
    }
    let r = handler.mark_delete(rt.context().address, Address::from_word(args[0]));
    proof {
        assert(final(handler)@.substates.drop_last() =~= old(handler)@.substates.drop_last());
        lemma_top_changes_lead_on(old(handler)@, final(handler)@);
    }
    match r {
        Ok(()) => Flow::Exit(ExitReason::Succeed(ExitSucceed::Suicided)),
        Err(e) => Flow::Exit(ExitReason::Error(e)),
    }
}

impl<'backend, B: Backend, P: PrecompileSet> StackExecutor<'backend, B, P> {
    /// Opens the frame of a call and makes it ready, or says why the call
    /// fails before any code runs.
    pub fn call_open(&mut self, transfer: Option<Transfer>, is_static: bool, context: Context) -> (r:
        Result<(), ExitError>)
        requires
            old(self)@.wf(),
        ensures
            (final(self)@, r) == old(self)@.call_open(transfer, is_static, context),
            final(self)@.wf(),
            r is Ok ==> old(self)@.opened(final(self)@),
            r is Err ==> final(self)@ == old(self)@,
    {
        self.enter_substate(is_static);
        proof {
            old(self)@.lemma_call_open(transfer, is_static, context);
            old(self)@.lemma_enter(is_static);
            let s0 = old(self)@.enter_substate(is_static);
            s0.lemma_with_account(context.address, s0.resolved(context.address));
        }
        self.account_mut(context.address);
        let limit = self.config().call_stack_limit;
        let too_deep = match self.depth() {
            Some(depth) => depth > limit,
            None => false,
        };
        if too_deep {
            let _ = self.exit_substate(StackExitKind::Reverted);
            return Err(ExitError::CallTooDeep);
        }
        match transfer {
            Some(t) => {
                proof {
                    self@.lemma_transfer(t);
                }
                match self.transfer(t) {
                    Ok(()) => {},
                    Err(e) => {
                        let _ = self.exit_substate(StackExitKind::Reverted);
                        return Err(e);
                    },
                }
            },
            None => {},
        }
        Ok(())
    }

    /// Opens the frame of a creation at `address` and makes it ready, or
    /// says why the creation fails before any code runs.
    pub fn create_open(&mut self, caller: Address, address: Address, value: Word) -> (r: Result<
        (),
        ExitError,
    >)
        requires
            old(self)@.wf(),
        ensures
            (final(self)@, r) == old(self)@.create_open(caller, address, value),
            final(self)@.wf(),
            r is Ok ==> old(self)@.opened(final(self)@),
            r is Err ==> final(self)@ == old(self)@,
    {
        self.enter_substate(false);
        proof {
            old(self)@.lemma_create_open(caller, address, value);
            old(self)@.lemma_enter(false);
            let s0 = old(self)@.enter_substate(false);
            s0.lemma_with_account(address, s0.resolved(address));
        }
        self.account_mut(address);
        let ghost s1 = self@;
        let staged_len: Option<usize> = match self.account(address) {
            Some(a) => match &a.code {
                Some(c) => Some(c.len()),
                None => None,
            },
            None => None,
        };
        let code_len: usize = match staged_len {
            Some(n) => n,
            None => {
                let code = self.backend().code(address);
                let n = code.len();
                proof {
                    s1.lemma_with_account(
                        address,
                        crate::account::AccountView { code: Some(code@), ..s1.resolved(address) },
                    );
                }
                self.set_code(address, code);
                n
            },
        };
        if code_len != 0 || !self.nonce(address).is_zero() {
            let _ = self.exit_substate(StackExitKind::Failed);
            return Err(ExitError::CreateCollision);
        }
        proof {
            let s2 = self@;
            s2.lemma_with_account(
                address,
                crate::account::AccountView {
                    storage: Map::empty(),
                    reset_storage: true,
                    ..s2.resolved(address)
                },
            );
        }
        self.reset_storage(address);
        let transfer = Transfer { source: caller, target: address, value };
        proof {
            self@.lemma_transfer(transfer);
        }
        match self.transfer(transfer) {
            Ok(()) => {},
            Err(e) => {
                let _ = self.exit_substate(StackExitKind::Reverted);
                return Err(e);
            },
        }
        if self.config().create_increase_nonce {
            self.bump_nonce(address);
        }
        Ok(())
    }

    /// Ends the frame of a call whose code has run with `reason` and `out`.
    pub fn call_finish(&mut self, reason: ExitReason, out: Vec<u8>) -> (r: (ExitReason, Vec<u8>))
        requires
            old(self)@.wf(),
            old(self)@.substates.len() > 1,
        ensures
            (final(self)@, (r.0, r.1@)) == old(self)@.call_finish(reason, out@),
            final(self)@.wf(),
    {
        match reason {
            ExitReason::Succeed(_) => {
                let _ = self.exit_substate(StackExitKind::Succeeded);
                (reason, out)
            },
            ExitReason::Error(_) => {
                let _ = self.exit_substate(StackExitKind::Failed);
                (reason, Vec::new())
            },
            ExitReason::Revert(_) => {
                let _ = self.exit_substate(StackExitKind::Reverted);
                (reason, out)
            },
            ExitReason::Fatal(_) => {
                let _ = self.exit_substate(StackExitKind::Failed);
                (reason, Vec::new())
            },
        }
    }

    /// Ends the frame of a creation at `address` whose init code has run
    /// with `reason` and `out`.
    pub fn create_finish(&mut self, address: Address, reason: ExitReason, out: Vec<u8>) -> (r: (
        ExitReason,
        Option<Address>,
        Vec<u8>,
    ))
        requires
            old(self)@.wf(),
            old(self)@.substates.len() > 1,
        ensures
            (final(self)@, (r.0, r.1, r.2@)) == old(self)@.create_finish(address, reason, out@),
            final(self)@.wf(),
    {
        match reason {
            ExitReason::Succeed(_) => {
                let over = match self.config().create_contract_limit {
                    Some(limit) => out.len() > limit,
                    None => false,
                };
                if over {
                    let _ = self.exit_substate(StackExitKind::Failed);
                    return (ExitReason::Error(ExitError::CreateContractLimit), None, Vec::new());
                }
                let _ = self.exit_substate(StackExitKind::Succeeded);
                self.set_code(address, out);
                (reason, Some(address), Vec::new())
            },
            ExitReason::Error(_) => {
                let _ = self.exit_substate(StackExitKind::Failed);
                (reason, None, Vec::new())
            },
            ExitReason::Revert(_) => {
                let _ = self.exit_substate(StackExitKind::Reverted);
                (reason, None, out)
            },
            ExitReason::Fatal(_) => {
                let _ = self.exit_substate(StackExitKind::Failed);
                (reason, None, Vec::new())
            },
        }
    }

    /// Runs the runtime in the current frame until it stops.
    pub fn execute(&mut self, runtime: &mut Runtime) -> (r: ExitReason)
        requires
            old(self)@.wf(),
            old(runtime).wf(),
        ensures
            final(runtime).wf(),
            (final(self)@, final(runtime)@, r) == old(self)@.run(old(runtime)@),
            old(self)@.leads_to(final(self)@),
        decreases old(self)@.steps_left, 2int,
    {
        runtime.run(self)
    }

    /// A call: the code at `code_address` runs on `input` in a frame of its
    /// own. Unless the call succeeds, the substates are as they were.
    pub fn call_inner(
        &mut self,
        code_address: Address,
        transfer: Option<Transfer>,
        input: Vec<u8>,
        is_static: bool,
        context: Context,
    ) -> (r: (ExitReason, Vec<u8>))
        requires
            old(self)@.wf(),
        ensures
            (final(self)@, (r.0, r.1@)) == old(self)@.call_inner(
                code_address,
                transfer,
                input@,
                is_static,
                context,
            ),
            old(self)@.leads_to(final(self)@),
            !(r.0 is Succeed) ==> final(self)@.substates == old(self)@.substates,
        decreases old(self)@.steps_left, 3int,
    {
        let code = self.code(code_address);
        match self.call_open(transfer, is_static, context) {
            Ok(()) => {},
            Err(e) => {
                return (ExitReason::Error(e), Vec::new());
            },
        }
        let ghost opened = self@;
        match self.precompile().resolve(code_address, input.as_slice(), &context) {
            Some(Ok((exit, out))) => {
                proof {
                    old(self)@.lemma_frame_ends(opened, StackExitKind::Succeeded);
                }
                let _ = self.exit_substate(StackExitKind::Succeeded);
                return (ExitReason::Succeed(exit), out);
            },
            Some(Err(e)) => {
                proof {
                    old(self)@.lemma_frame_ends(opened, StackExitKind::Failed);
                }
                let _ = self.exit_substate(StackExitKind::Failed);
                return (ExitReason::Error(e), Vec::new());
            },
            None => {},
        }
        let config = *self.config();
        let mut runtime = Runtime::new(code, input, context, &config);
        let reason = self.execute(&mut runtime);
        let out = runtime.return_value();
        proof {
            let ran = self@;
            assert(old(self)@.opened(ran));
            old(self)@.lemma_frame_ends(ran, StackExitKind::Succeeded);
            old(self)@.lemma_frame_ends(ran, StackExitKind::Failed);
            old(self)@.lemma_frame_ends(ran, StackExitKind::Reverted);
        }
        self.call_finish(reason, out)
    }

    /// A creation: `init_code` runs in a frame of its own, and what it
    /// returns becomes the code of the new contract. Unless the creation
    /// succeeds, the substates are as they were but for the creator's nonce.
    pub fn create_inner(&mut self, caller: Address, scheme: CreateScheme, value: Word, init_code: Vec<u8>) -> (r:
        (ExitReason, Option<Address>, Vec<u8>))
        requires
            old(self)@.wf(),
        ensures
            (final(self)@, (r.0, r.1, r.2@)) == old(self)@.create_inner(caller, scheme, value, init_code@),
            old(self)@.leads_to(final(self)@),
            r.0 is Succeed ==> r.1 == Some(old(self)@.create_address(scheme)),
            !(r.0 is Succeed) ==> r.1 is None && (final(self)@.substates == old(self)@.substates
                || final(self)@.substates == old(self)@.bump_nonce(caller).substates),
        decreases old(self)@.steps_left, 3int,
    {
        let limit = self.config().call_stack_limit;
        let too_deep = match self.depth() {
            Some(depth) => depth >= limit,
            None => false,
        };
        if too_deep {
            proof {
                lemma_top_changes_lead_on(old(self)@, old(self)@);
            }
            return (ExitReason::Error(ExitError::CallTooDeep), None, Vec::new());
        }
        if self.balance(caller).lt(&value) {
            proof {
                lemma_top_changes_lead_on(old(self)@, old(self)@);
            }
            return (ExitReason::Error(ExitError::OutOfFund), None, Vec::new());
        }
        let address = self.create_address(scheme);
        proof {
            let a = old(self)@.resolved(caller);
            old(self)@.lemma_with_account(
                caller,
                crate::account::AccountView {
                    basic: crate::backend::Basic {
                        nonce: a.basic.nonce.spec_wrapping_add(Word::spec_one()),
                        ..a.basic
                    },
                    ..a
                },
            );
        }
        self.bump_nonce(caller);
        let ghost bumped = self@;
        proof {
            lemma_top_changes_lead_on(old(self)@, bumped);
        }
        match self.create_open(caller, address, value) {
            Ok(()) => {},
            Err(e) => {
                return (ExitReason::Error(e), None, Vec::new());
            },
        }
        let context = Context { address, caller, apparent_value: value };
        let config = *self.config();
        let mut runtime = Runtime::new(init_code, Vec::new(), context, &config);
        let reason = self.execute(&mut runtime);
        let out = runtime.return_value();
        proof {
            let ran = self@;
            assert(bumped.opened(ran));
            bumped.lemma_frame_ends(ran, StackExitKind::Succeeded);
            bumped.lemma_frame_ends(ran, StackExitKind::Failed);
            bumped.lemma_frame_ends(ran, StackExitKind::Reverted);
            let merged = ran.exit_substate(StackExitKind::Succeeded);
            merged.lemma_with_account(
                address,
                crate::account::AccountView { code: Some(out@), ..merged.resolved(address) },
            );
            lemma_top_changes_lead_on(bumped, merged.set_code(address, out@));
        }
        self.create_finish(address, reason, out)
    }

    /// Execute a `CREATE` transaction.
    pub fn transact_create(&mut self, caller: Address, value: Word, init_code: Vec<u8>) -> (r: ExitReason)
        requires
            old(self)@.wf(),
        ensures
            (final(self)@, r) == old(self)@.transact_create(caller, value, init_code@),
            old(self)@.leads_to(final(self)@),
    {
        self.create_inner(caller, CreateScheme::Legacy { caller }, value, init_code).0
    }

    /// Execute a `CREATE2` transaction.
    pub fn transact_create2(&mut self, caller: Address, value: Word, init_code: Vec<u8>, salt: Word) -> (r:
        ExitReason)
        requires
            old(self)@.wf(),
        ensures
            (final(self)@, r) == old(self)@.transact_create2(caller, value, init_code@, salt),
            old(self)@.leads_to(final(self)@),
    {
        let digest = keccak256_digest(init_code.as_slice());
        let code_hash = Word::from_be_vec(&digest);
        self.create_inner(caller, CreateScheme::Create2 { caller, code_hash, salt }, value, init_code).0
    }

    /// Execute a `CALL` transaction.
    pub fn transact_call(&mut self, caller: Address, address: Address, value: Word, data: Vec<u8>) -> (r: (
        ExitReason,
        Vec<u8>,
    ))
        requires
            old(self)@.wf(),
        ensures
            (final(self)@, (r.0, r.1@)) == old(self)@.transact_call(caller, address, value, data@),
            old(self)@.leads_to(final(self)@),
    {
        proof {
            let a = old(self)@.resolved(caller);
            old(self)@.lemma_with_account(
                caller,
                crate::account::AccountView {
                    basic: crate::backend::Basic {
                        nonce: a.basic.nonce.spec_wrapping_add(Word::spec_one()),
                        ..a.basic
                    },
                    ..a
                },
            );
        }
        self.bump_nonce(caller);
        proof {
            lemma_top_changes_lead_on(old(self)@, self@);
        }
        let context = Context { caller, address, apparent_value: value };
        self.call_inner(
            address,
            Some(Transfer { source: caller, target: address, value }),
            data,
            false,
            context,
        )
    }
}

/// The first part of a create operation.
fn create_prepare(rt: &mut Runtime, is_create2: bool, frame_is_static: bool) -> (r: Result<
    CreateArgs,
    ExitReason,
>)
    requires
        old(rt).wf(),
    ensures
        final(rt).wf(),
        final(rt)@ == old(rt)@.create_prepare(is_create2, frame_is_static).0,
        match r {
            Ok(args) => old(rt)@.create_prepare(is_create2, frame_is_static).1 == Ok::<
                CreateRequest,
                ExitReason,
            >(args@),
            Err(e) => old(rt)@.create_prepare(is_create2, frame_is_static).1 == Err::<
                CreateRequest,
                ExitReason,
            >(e),
        },
        r is Ok ==> final(rt)@.machine.stack.len() < final(rt)@.machine.stack_limit,
        final(rt)@.context == old(rt)@.context,
{
    let count: usize = if is_create2 {
        4
    } else {
        3
    };
    rt.set_buffer(Vec::new());
    if rt.stack_len() < count {
        return Err(ExitReason::Error(ExitError::StackUnderflow));
    }
    let args = rt.pop_args(count);
    let value = args[0];
    let code_offset = args[1];
    let len = args[2];
    let salt = if is_create2 {
        args[3]
    } else {
        Word::zero()
    };
    if frame_is_static {
        return Err(ExitReason::Error(ExitError::Other("MutableCallInStaticContext")));
    }
    match rt.resize_offset(code_offset, len) {
        Ok(()) => {},
        Err(e) => {
            return Err(ExitReason::Error(e));
        },
    }
    match rt.memory_range(code_offset, len) {
        Ok(code) => Ok(CreateArgs { value, code, salt }),
        Err(reason) => Err(reason),
    }
}

/// The last part of a create operation.
fn create_returned(rt: &mut Runtime, reason: ExitReason, address: Option<Address>, return_data: Vec<u8>) -> (r:
    Flow)
    requires
        old(rt).wf(),
        old(rt)@.machine.stack.len() < old(rt)@.machine.stack_limit,
    ensures
        final(rt).wf(),
        (final(rt)@, r) == old(rt)@.create_returned(reason, address, return_data@),
{
    rt.set_buffer(return_data);
    match reason {
        ExitReason::Succeed(_) => {
            let w = match address {
                Some(a) => a.to_word(),
                None => Word::zero(),
            };
            rt.push_result(w);
            Flow::Continue
        },
        ExitReason::Fatal(e) => {
            rt.push_result(Word::zero());
            Flow::Exit(ExitReason::Fatal(e))
        },
        _ => {
            rt.push_result(Word::zero());
            Flow::Continue
        },
    }
}

/// `CREATE` and `CREATE2`.
fn eval_create<B: Backend, P: PrecompileSet>(
    rt: &mut Runtime,
    handler: &mut StackExecutor<'_, B, P>,
    is_create2: bool,
) -> (r: Flow)
    requires
        old(rt).wf(),
        old(handler)@.wf(),
    ensures
        final(rt).wf(),
        (final(handler)@, final(rt)@, r) == old(handler)@.eval_create(old(rt)@, is_create2),
        old(handler)@.leads_to(final(handler)@),
    decreases old(handler)@.steps_left, 4int,
{
    proof {
        lemma_top_changes_lead_on(old(handler)@, old(handler)@);
    }
    let frame_is_static = handler.is_static();
    let args = match create_prepare(rt, is_create2, frame_is_static) {
        Ok(args) => args,
        Err(reason) => {
            return Flow::Exit(reason);
        },
    };
    let CreateArgs { value, code, salt } = args;
    let caller = rt.context().address;
    let scheme = if is_create2 {
        let digest = keccak256_digest(code.as_slice());
        CreateScheme::Create2 { caller, code_hash: Word::from_be_vec(&digest), salt }
    } else {
        CreateScheme::Legacy { caller }
    };
    let (reason, address, return_data) = handler.create_inner(caller, scheme, value, code);
    create_returned(rt, reason, address, return_data)
}

/// The context of the frame that a call opens.
fn call_context<B: Backend, P: PrecompileSet>(scheme: CallScheme, current: Context, to: Address, value: Word) -> (r:
    Context)
    ensures
        r == ExecutorView::<B, P>::call_context(scheme, current, to, value),
{
    match scheme {
        CallScheme::Call | CallScheme::StaticCall => Context {
            address: to,
            caller: current.address,
            apparent_value: value,
        },
        CallScheme::CallCode => Context {
            address: current.address,
            caller: current.address,
            apparent_value: value,
        },
        CallScheme::DelegateCall => Context {
            address: current.address,
            caller: current.caller,
            apparent_value: current.apparent_value,
        },
    }
}

/// The transfer that a call makes.
fn call_transfer<B: Backend, P: PrecompileSet>(scheme: CallScheme, current: Context, to: Address, value: Word) -> (r:
    Option<Transfer>)
    ensures
        r == ExecutorView::<B, P>::call_transfer(scheme, current, to, value),
{
    match scheme {
        CallScheme::Call => Some(Transfer { source: current.address, target: to, value }),
        CallScheme::CallCode => Some(Transfer { source: current.address, target: current.address, value }),
        _ => None,
    }
}

/// The first part of a call operation.
fn call_prepare(rt: &mut Runtime, scheme: CallScheme, frame_is_static: bool) -> (r: Result<
    CallArgs,
    ExitReason,
>)
    requires
        old(rt).wf(),
    ensures
        final(rt).wf(),
        final(rt)@ == old(rt)@.call_prepare(scheme, frame_is_static).0,
        match r {
            Ok(args) => old(rt)@.call_prepare(scheme, frame_is_static).1 == Ok::<
                CallRequest,
                ExitReason,
            >(args@),
            Err(e) => old(rt)@.call_prepare(scheme, frame_is_static).1 == Err::<
                CallRequest,
                ExitReason,
            >(e),
        },
        r is Ok ==> final(rt)@.machine.stack.len() < final(rt)@.machine.stack_limit,
        final(rt)@.context == old(rt)@.context,
{
    let has_value = match scheme {
        CallScheme::Call | CallScheme::CallCode => true,
        _ => false,
    };
    let count: usize = if has_value {
        7
    } else {
        6
    };
    rt.set_buffer(Vec::new());
    if rt.stack_len() < count {
        return Err(ExitReason::Error(ExitError::StackUnderflow));
    }
    let args = rt.pop_args(count);
    let to = Address::from_word(args[1]);
    let value = if has_value {
        args[2]
    } else {
        Word::zero()
    };
    let in_offset = args[count - 4];
    let in_len = args[count - 3];
    let out_offset = args[count - 2];
    let out_len = args[count - 1];
    let is_call = match scheme {
        CallScheme::Call => true,
        _ => false,
    };
    if is_call && !value.is_zero() && frame_is_static {
        return Err(ExitReason::Error(ExitError::Other("MutableCallInStaticContext")));
    }
    match rt.resize_offset(in_offset, in_len) {
        Ok(()) => {},
        Err(e) => {
            return Err(ExitReason::Error(e));
        },
    }
    match rt.resize_offset(out_offset, out_len) {
        Ok(()) => {},
        Err(e) => {
            return Err(ExitReason::Error(e));
        },
    }
    match rt.memory_range(in_offset, in_len) {
        Ok(input) => Ok(CallArgs { to, value, input, out_offset, out_len }),
        Err(reason) => Err(reason),
    }
}

/// The last part of a call operation.
fn call_returned(rt: &mut Runtime, reason: ExitReason, return_data: Vec<u8>, out_offset: Word, out_len: Word) -> (r:
    Flow)
    requires
        old(rt).wf(),
        old(rt)@.machine.stack.len() < old(rt)@.machine.stack_limit,
    ensures
        final(rt).wf(),
        (final(rt)@, r) == old(rt)@.call_returned(reason, return_data@, out_offset, out_len),
{
    let returned = Word::from_usize(return_data.len());
    let target_len = if out_len.gt(&returned) {
        returned
    } else {
        out_len
    };
    let copy = crate::account::copy_bytes(return_data.as_slice());
    rt.set_buffer(return_data);
    match reason {
        ExitReason::Succeed(_) => {
            match rt.memory_copy(out_offset, Word::zero(), target_len, copy.as_slice()) {
                Ok(()) => {
                    rt.push_result(Word::one());
                },
                Err(_) => {
                    rt.push_result(Word::zero());
                },
            }
            Flow::Continue
        },
        ExitReason::Revert(_) => {
            let _ = rt.memory_copy(out_offset, Word::zero(), target_len, copy.as_slice());
            rt.push_result(Word::zero());
            Flow::Continue
        },
        ExitReason::Error(_) => {
            rt.push_result(Word::zero());
            Flow::Continue
        },
        ExitReason::Fatal(e) => {
            rt.push_result(Word::zero());
            Flow::Exit(ExitReason::Fatal(e))
        },
    }
}

/// `CALL`, `CALLCODE`, `DELEGATECALL` and `STATICCALL`.
fn eval_call<B: Backend, P: PrecompileSet>(
    rt: &mut Runtime,
    handler: &mut StackExecutor<'_, B, P>,
    scheme: CallScheme,
) -> (r: Flow)
    requires
        old(rt).wf(),
        old(handler)@.wf(),
    ensures
        final(rt).wf(),
        (final(handler)@, final(rt)@, r) == old(handler)@.eval_call(old(rt)@, scheme),
        old(handler)@.leads_to(final(handler)@),
    decreases old(handler)@.steps_left, 4int,
{
    proof {
        lemma_top_changes_lead_on(old(handler)@, old(handler)@);
    }
    let frame_is_static = handler.is_static();
    let args = match call_prepare(rt, scheme, frame_is_static) {
        Ok(args) => args,
        Err(reason) => {
            return Flow::Exit(reason);
        },
    };
    let CallArgs { to, value, input, out_offset, out_len } = args;
    let is_static_call = match scheme {
        CallScheme::StaticCall => true,
        _ => false,
    };
    let current = rt.context();
    let context = call_context::<B, P>(scheme, current, to, value);
    let transfer = call_transfer::<B, P>(scheme, current, to, value);
    let (reason, return_data) = handler.call_inner(to, transfer, input, is_static_call, context);
    call_returned(rt, reason, return_data, out_offset, out_len)
}

/// Performs an operation that the machine cannot do alone.
fn eval<B: Backend, P: PrecompileSet>(
    rt: &mut Runtime,
    handler: &mut StackExecutor<'_, B, P>,
    opcode: ExternalOpcode,
) -> (r: Flow)
    requires
        old(rt).wf(),
        old(handler)@.wf(),
    ensures
        final(rt).wf(),
        (final(handler)@, final(rt)@, r) == old(handler)@.eval(old(rt)@, opcode),
        old(handler)@.leads_to(final(handler)@),
    decreases old(handler)@.steps_left, 5int,
{
    match opcode {
        ExternalOpcode::SStore => eval_sstore(rt, handler),
        ExternalOpcode::Log(n) => eval_log(rt, handler, n),
        ExternalOpcode::Suicide => eval_suicide(rt, handler),
        ExternalOpcode::Create => eval_create(rt, handler, false),
        ExternalOpcode::Create2 => eval_create(rt, handler, true),
        ExternalOpcode::Call => eval_call(rt, handler, CallScheme::Call),
        ExternalOpcode::CallCode => eval_call(rt, handler, CallScheme::CallCode),
        ExternalOpcode::DelegateCall => eval_call(rt, handler, CallScheme::DelegateCall),
        ExternalOpcode::StaticCall => eval_call(rt, handler, CallScheme::StaticCall),
        _ => {
            proof {
                lemma_top_changes_lead_on(old(handler)@, old(handler)@);
            }
            eval_query(rt, handler, opcode)
        },
    }
}

impl Runtime {
    /// Steps the runtime: one operation of its machine, done with the
    /// executor where the machine cannot do it alone.
    pub fn step<B: Backend, P: PrecompileSet>(&mut self, handler: &mut StackExecutor<'_, B, P>) -> (r:
        Result<(), ExitReason>)
        requires
            old(self).wf(),
            old(handler)@.wf(),
        ensures
            final(self).wf(),
            (final(handler)@, final(self)@, r) == old(handler)@.step(old(self)@),
            old(handler)@.leads_to(final(handler)@),
            r is Ok ==> final(handler)@.steps_left < old(handler)@.steps_left,
        decreases old(handler)@.steps_left, 0int,
    {
        proof {
            lemma_top_changes_lead_on(old(handler)@, old(handler)@);
        }
        match self.status() {
            Ok(()) => {},
            Err(e) => {
                return Err(e);
            },
        }
        if handler.steps_left() == 0 {
            let reason = ExitReason::Error(ExitError::OutOfGas);
            self.stop(reason);
            return Err(reason);
        }
        handler.spend_step();
        proof {
            lemma_top_changes_lead_on(old(handler)@, handler@);
        }
        let supported = match self.inspect() {
            Some(op) => self.config().supports(op),
            None => true,
        };
        if !supported {
            let reason = ExitReason::Fatal(ExitFatal::NotSupported);
            self.stop(reason);
            return Err(reason);
        }
        match self.machine_step() {
            Ok(()) => Ok(()),
            Err(Capture::Exit(e)) => {
                self.set_status(Err(e));
                Err(e)
            },
            Err(Capture::Trap(opcode)) => {
                match eval(self, handler, opcode) {
                    Flow::Continue => Ok(()),
                    Flow::Exit(e) => {
                        self.stop(e);
                        Err(e)
                    },
                }
            },
        }
    }

    /// Steps the runtime until it stops.
    pub fn run<B: Backend, P: PrecompileSet>(&mut self, handler: &mut StackExecutor<'_, B, P>) -> (r:
        ExitReason)
        requires
            old(self).wf(),
            old(handler)@.wf(),
        ensures
            final(self).wf(),
            (final(handler)@, final(self)@, r) == old(handler)@.run(old(self)@),
            old(handler)@.leads_to(final(handler)@),
        decreases old(handler)@.steps_left, 1int,
    {
        proof {
            lemma_top_changes_lead_on(old(handler)@, old(handler)@);
        }
        loop
            invariant
                self.wf(),
                handler@.wf(),
                old(handler)@.leads_to(handler@),
                handler@.run(self@) == old(handler)@.run(old(self)@),
            decreases handler@.steps_left,
        {
            match self.step(handler) {
                Ok(()) => {},
                Err(reason) => {
                    return reason;
                },
            }
        }
    }
}

} // verus!
