//! The bytecode interpreter: a stepping machine over one code blob, with a
//! word stack, a byte memory, a program counter and the map of its legal
//! jump targets.

use crate::error::{Capture, ExitError, ExitFatal, ExitReason, ExitRevert, ExitSucceed};
use crate::memory::{Memory, MemoryView};
use crate::opcode::{ExternalOpcode, Opcode};
use crate::stack::Stack;
use crate::valids::{is_jump_target, Valids};
use crate::arith::word_of_bool;
use crate::word::{lemma_value_of_word, lemma_word_of_value, modulus, Word};
use vstd::prelude::*;

verus! {

/// What an operation asks of the program counter.
#[derive(Clone, Copy, Debug, PartialEq, Eq)]
pub enum Control {
    /// Advance by that many bytes.
    Continue(usize),
    /// Stop for good.
    Exit(ExitReason),
    /// Go to that position.
    Jump(usize),
}

/// What a machine holds.
pub struct MachineView {
    /// The call data.
    pub data: Seq<u8>,
    /// The code.
    pub code: Seq<u8>,
    /// The program counter, or the reason why the machine has stopped.
    pub position: Result<usize, ExitReason>,
    /// Where in memory the bytes to return start.
    pub return_start: Word,
    /// Where in memory the bytes to return end.
    pub return_end: Word,
    /// The memory.
    pub memory: MemoryView,
    /// The stack, bottom first.
    pub stack: Seq<Word>,
    /// The most words the stack may hold.
    pub stack_limit: usize,
}

/// The word that a `PUSHn` at `position` puts on the stack: the `n` bytes
/// that follow it in the code, read as a big-endian number; bytes beyond the
/// end of the code count as zero.
pub open spec fn pushed_word(code: Seq<u8>, position: int, n: int) -> Word {
    Word::from_be(
        Seq::new(
            32,
            |i: int|
                if i >= 32 - n && position + 1 + (i - (32 - n)) < code.len() {
                    code[position + 1 + (i - (32 - n))]
                } else {
                    0u8
                },
        ),
    )
}

/// The word spelled by the 32 bytes of `data` from `index` on; bytes beyond
/// the end of `data` count as zero.
pub open spec fn loaded_word(data: Seq<u8>, index: nat) -> Word {
    Word::from_be(
        Seq::new(
            32,
            |i: int|
                if index + i < data.len() {
                    data[index + i]
                } else {
                    0u8
                },
        ),
    )
}

/// The result of an operation with one operand.
pub open spec fn unary_result(opcode: Opcode, a: Word) -> Word {
    match opcode {
        Opcode::IsZero => word_of_bool(a.value() == 0),
        _ => a.spec_not(),
    }
}

/// The result of an operation with two operands, `a` from the top of the
/// stack and `b` from below it.
pub open spec fn binary_result(opcode: Opcode, a: Word, b: Word) -> Word {
    match opcode {
        Opcode::Add => a.spec_wrapping_add(b),
        Opcode::Mul => a.spec_wrapping_mul(b),
        Opcode::Sub => a.spec_wrapping_sub(b),
        Opcode::Div => a.spec_div(b),
        Opcode::SDiv => a.spec_sdiv(b),
        Opcode::Mod => a.spec_rem(b),
        Opcode::SMod => a.spec_smod(b),
        Opcode::Exp => a.spec_exp(b),
        Opcode::SignExtend => b.spec_signextend(a),
        Opcode::Lt => word_of_bool(a.value() < b.value()),
        Opcode::Gt => word_of_bool(a.value() > b.value()),
        Opcode::SLt => word_of_bool(a.signed() < b.signed()),
        Opcode::SGt => word_of_bool(a.signed() > b.signed()),
        Opcode::Eq => word_of_bool(a == b),
        Opcode::And => a.spec_bitand(b),
        Opcode::Or => a.spec_bitor(b),
        Opcode::Xor => a.spec_bitxor(b),
        Opcode::Byte => b.spec_byte(a),
        Opcode::Shl => b.spec_shl(a),
        Opcode::Shr => b.spec_shr(a),
        _ => b.spec_sar(a),
    }
}

/// The result of an operation with three operands, top of the stack first.
pub open spec fn ternary_result(opcode: Opcode, a: Word, b: Word, c: Word) -> Word {
    match opcode {
        Opcode::AddMod => a.spec_addmod(b, c),
        _ => a.spec_mulmod(b, c),
    }
}

impl Opcode {
    /// The operand of `PUSH`, `DUP` and `SWAP` is in range.
    pub open spec fn wf(self) -> bool {
        match self {
            Opcode::Push(n) => 1 <= n <= 32,
            Opcode::Dup(n) => 1 <= n <= 16,
            Opcode::Swap(n) => 1 <= n <= 16,
            _ => true,
        }
    }
}

impl MachineView {
    /// The stack holds no more than its limit, the visible length of the
    /// memory is a multiple of 32, and the bytes to return are a range whose
    /// length fits `usize`.
    pub open spec fn wf(self) -> bool {
        &&& self.stack.len() <= self.stack_limit
        &&& self.memory.effective_len.value() % 32 == 0
        &&& self.return_start.value() <= self.return_end.value()
        &&& self.return_end.value() - self.return_start.value() <= usize::MAX
    }

    pub open spec fn exit(self, reason: ExitReason) -> (MachineView, Control) {
        (self, Control::Exit(reason))
    }

    pub open spec fn fail(self, e: ExitError) -> (MachineView, Control) {
        (self, Control::Exit(ExitReason::Error(e)))
    }

    pub open spec fn fatal(self, e: ExitFatal) -> (MachineView, Control) {
        (self, Control::Exit(ExitReason::Fatal(e)))
    }

    pub open spec fn with_stack(self, stack: Seq<Word>) -> MachineView {
        MachineView { stack, ..self }
    }

    pub open spec fn with_memory(self, memory: MemoryView) -> MachineView {
        MachineView { memory, ..self }
    }

    /// The bytes that the machine returns: the memory over the return range,
    /// zero where nothing was written.
    pub open spec fn return_value(self) -> Seq<u8> {
        self.memory.get(
            self.return_start.value(),
            (self.return_end.value() - self.return_start.value()) as nat,
        )
    }

    /// Pushing `w` and advancing by `advance`; on a full stack,
    /// `StackOverflow`.
    pub open spec fn eval_push(self, w: Word, advance: usize) -> (MachineView, Control) {
        if self.stack.len() >= self.stack_limit {
            self.fail(ExitError::StackOverflow)
        } else {
            (self.with_stack(self.stack.push(w)), Control::Continue(advance))
        }
    }

    pub open spec fn eval_unary(self, opcode: Opcode) -> (MachineView, Control) {
        if self.stack.len() < 1 {
            self.fail(ExitError::StackUnderflow)
        } else {
            let a = self.stack.last();
            (
                self.with_stack(self.stack.drop_last().push(unary_result(opcode, a))),
                Control::Continue(1),
            )
        }
    }

    pub open spec fn eval_binary(self, opcode: Opcode) -> (MachineView, Control) {
        if self.stack.len() < 2 {
            self.fail(ExitError::StackUnderflow)
        } else {
            let a = self.stack.last();
            let s1 = self.stack.drop_last();
            let b = s1.last();
            (self.with_stack(s1.drop_last().push(binary_result(opcode, a, b))), Control::Continue(1))
        }
    }

    pub open spec fn eval_ternary(self, opcode: Opcode) -> (MachineView, Control) {
        if self.stack.len() < 3 {
            self.fail(ExitError::StackUnderflow)
        } else {
            let a = self.stack.last();
            let s1 = self.stack.drop_last();
            let b = s1.last();
            let s2 = s1.drop_last();
            let c = s2.last();
            (
                self.with_stack(s2.drop_last().push(ternary_result(opcode, a, b, c))),
                Control::Continue(1),
            )
        }
    }

    /// `CALLDATALOAD`: replaces the index on top of the stack by the word
    /// that the call data spells from there.
    pub open spec fn eval_calldataload(self) -> (MachineView, Control) {
        if self.stack.len() < 1 {
            self.fail(ExitError::StackUnderflow)
        } else {
            let index = self.stack.last();
            (
                self.with_stack(self.stack.drop_last().push(loaded_word(self.data, index.value()))),
                Control::Continue(1),
            )
        }
    }

    /// `CALLDATACOPY` and `CODECOPY`: takes the offset in memory, the offset
    /// in `source` and the length off the stack, extends the memory and
    /// copies.
    pub open spec fn eval_copy(self, source: Seq<u8>) -> (MachineView, Control) {
        if self.stack.len() < 3 {
            self.fail(ExitError::StackUnderflow)
        } else {
            let memory_offset = self.stack.last();
            let s1 = self.stack.drop_last();
            let data_offset = s1.last();
            let s2 = s1.drop_last();
            let len = s2.last();
            let m = self.with_stack(s2.drop_last());
            let (memory, resized) = m.memory.resize_offset(memory_offset, len);
            match resized {
                Err(e) => m.fail(e),
                Ok(()) => {
                    let (memory, copied) = memory.copy_large(memory_offset, data_offset, len, source);
                    match copied {
                        Err(e) => m.with_memory(memory).fatal(e),
                        Ok(()) => (m.with_memory(memory), Control::Continue(1)),
                    }
                },
            }
        }
    }

    /// `MLOAD`: replaces the offset on top of the stack by the word that the
    /// memory spells from there.
    pub open spec fn eval_mload(self) -> (MachineView, Control) {
        if self.stack.len() < 1 {
            self.fail(ExitError::StackUnderflow)
        } else {
            let index = self.stack.last();
            let m = self.with_stack(self.stack.drop_last());
            let (memory, resized) = m.memory.resize_offset(index, Word::spec_from_u64(32));
            match resized {
                Err(e) => m.fail(e),
                Ok(()) => if index.value() > usize::MAX {
                    m.with_memory(memory).fatal(ExitFatal::NotSupported)
                } else {
                    (
                        m.with_memory(memory).with_stack(
                            m.stack.push(Word::from_be(memory.get(index.value(), 32))),
                        ),
                        Control::Continue(1),
                    )
                },
            }
        }
    }

    /// `MSTORE` (`size` 32) and `MSTORE8` (`size` 1): takes the offset and
    /// the value off the stack and writes the last `size` bytes of the
    /// value's wire form at the offset.
    pub open spec fn eval_mstore(self, size: usize) -> (MachineView, Control) {
        if self.stack.len() < 2 {
            self.fail(ExitError::StackUnderflow)
        } else {
            let index = self.stack.last();
            let s1 = self.stack.drop_last();
            let value = s1.last();
            let m = self.with_stack(s1.drop_last());
            let (memory, resized) = m.memory.resize_offset(index, Word::spec_from_usize(size));
            match resized {
                Err(e) => m.fail(e),
                Ok(()) => if index.value() > usize::MAX {
                    m.with_memory(memory).fatal(ExitFatal::NotSupported)
                } else {
                    let (memory, written) = memory.set(
                        index.value() as usize,
                        value.be_bytes().subrange(32 - size, 32),
                        size,
                    );
                    match written {
                        Err(e) => m.with_memory(memory).fatal(e),
                        Ok(()) => (m.with_memory(memory), Control::Continue(1)),
                    }
                },
            }
        }
    }

    /// Where a jump to `dest` leads: to `dest` where it is a legal jump
    /// target of the code, else to `InvalidJump`.
    pub open spec fn jump_to(self, dest: Word) -> (MachineView, Control) {
        if dest.value() <= usize::MAX && is_jump_target(self.code, dest.value() as int) {
            (self, Control::Jump(dest.value() as usize))
        } else {
            self.fail(ExitError::InvalidJump)
        }
    }

    /// `JUMP`: takes the destination off the stack and jumps.
    pub open spec fn eval_jump(self) -> (MachineView, Control) {
        if self.stack.len() < 1 {
            self.fail(ExitError::StackUnderflow)
        } else {
            self.with_stack(self.stack.drop_last()).jump_to(self.stack.last())
        }
    }

    /// `JUMPI`: takes the destination and a condition off the stack, and
    /// jumps where the condition is not zero.
    pub open spec fn eval_jumpi(self) -> (MachineView, Control) {
        if self.stack.len() < 2 {
            self.fail(ExitError::StackUnderflow)
        } else {
            let dest = self.stack.last();
            let s1 = self.stack.drop_last();
            let value = s1.last();
            let m = self.with_stack(s1.drop_last());
            if value.value() != 0 {
                m.jump_to(dest)
            } else {
                (m, Control::Continue(1))
            }
        }
    }

    /// `DUPn`: pushes a copy of the word `n - 1` places below the top.
    pub open spec fn eval_dup(self, n: u8) -> (MachineView, Control) {
        if self.stack.len() < n {
            self.fail(ExitError::StackUnderflow)
        } else {
            self.eval_push(Stack::from_top(self.stack, n - 1), 1)
        }
    }

    /// `SWAPn`: exchanges the top with the word `n` places below it.
    pub open spec fn eval_swap(self, n: u8) -> (MachineView, Control) {
        if self.stack.len() <= n {
            self.fail(ExitError::StackUnderflow)
        } else {
            let top = self.stack.len() - 1;
            let a = self.stack[top];
            let b = self.stack[top - n];
            (self.with_stack(self.stack.update(top, b).update(top - n, a)), Control::Continue(1))
        }
    }

    /// `RETURN` and `REVERT`: takes the start and the length of the bytes to
    /// return off the stack, extends the memory over them, notes the range
    /// and exits with `reason`. A length that does not fit `usize` is not
    /// supported.
    pub open spec fn eval_ret(self, reason: ExitReason) -> (MachineView, Control) {
        if self.stack.len() < 2 {
            self.fail(ExitError::StackUnderflow)
        } else {
            let start = self.stack.last();
            let s1 = self.stack.drop_last();
            let len = s1.last();
            let m = self.with_stack(s1.drop_last());
            let (memory, resized) = m.memory.resize_offset(start, len);
            match resized {
                Err(e) => m.fail(e),
                Ok(()) => if len.value() > usize::MAX {
                    m.with_memory(memory).fatal(ExitFatal::NotSupported)
                } else {
                    (
                        MachineView {
                            return_start: start,
                            return_end: Word::from_nat(start.value() + len.value()),
                            ..m.with_memory(memory)
                        },
                        Control::Exit(reason),
                    )
                },
            }
        }
    }

    /// What the operation `opcode`, met at `position`, does to the machine,
    /// and what it asks of the program counter.
    pub open spec fn eval(self, opcode: Opcode, position: usize) -> (MachineView, Control) {
        match opcode {
            Opcode::Stop => self.exit(ExitReason::Succeed(ExitSucceed::Stopped)),
            Opcode::IsZero | Opcode::Not => self.eval_unary(opcode),
            Opcode::AddMod | Opcode::MulMod => self.eval_ternary(opcode),
            Opcode::CallDataLoad => self.eval_calldataload(),
            Opcode::CallDataSize => self.eval_push(Word::spec_from_usize(self.data.len() as usize), 1),
            Opcode::CallDataCopy => self.eval_copy(self.data),
            Opcode::CodeSize => self.eval_push(Word::spec_from_usize(self.code.len() as usize), 1),
            Opcode::CodeCopy => self.eval_copy(self.code),
            Opcode::Pop => if self.stack.len() < 1 {
                self.fail(ExitError::StackUnderflow)
            } else {
                (self.with_stack(self.stack.drop_last()), Control::Continue(1))
            },
            Opcode::MLoad => self.eval_mload(),
            Opcode::MStore => self.eval_mstore(32),
            Opcode::MStore8 => self.eval_mstore(1),
            Opcode::Jump => self.eval_jump(),
            Opcode::JumpI => self.eval_jumpi(),
            Opcode::PC => self.eval_push(Word::spec_from_usize(position), 1),
            Opcode::MSize => self.eval_push(self.memory.effective_len, 1),
            Opcode::JumpDest => (self, Control::Continue(1)),
            Opcode::Push(n) => self.eval_push(
                pushed_word(self.code, position as int, n as int),
                (1 + n) as usize,
            ),
            Opcode::Dup(n) => self.eval_dup(n),
            Opcode::Swap(n) => self.eval_swap(n),
            Opcode::Return => self.eval_ret(ExitReason::Succeed(ExitSucceed::Returned)),
            Opcode::Revert => self.eval_ret(ExitReason::Revert(ExitRevert::Reverted)),
            Opcode::Invalid => self.fail(ExitError::DesignatedInvalid),
            _ => self.eval_binary(opcode),
        }
    }

    /// The program counter after an advance of `by` from `position`: a
    /// counter beyond the end of the code rests at the end.
    pub open spec fn advanced(self, position: usize, by: usize) -> usize {
        if position + by > self.code.len() {
            self.code.len() as usize
        } else {
            (position + by) as usize
        }
    }

    /// One step of the machine. A stopped machine reports the reason why it
    /// stopped. A machine whose counter is beyond its code stops with
    /// `Stopped`. Otherwise the byte at the counter is decoded: an operation
    /// of the machine's own is performed, any other traps, with the counter
    /// advanced past the opcode.
    pub open spec fn step(self) -> (MachineView, Result<(), Capture<ExitReason, ExternalOpcode>>) {
        match self.position {
            Err(reason) => (self, Err(Capture::Exit(reason))),
            Ok(position) => if position >= self.code.len() {
                let stopped = ExitReason::Succeed(ExitSucceed::Stopped);
                (MachineView { position: Err(stopped), ..self }, Err(Capture::Exit(stopped)))
            } else {
                match Opcode::spec_parse(self.code[position as int]) {
                    Ok(opcode) => {
                        let (m, control) = self.eval(opcode, position);
                        match control {
                            Control::Continue(p) => (
                                MachineView { position: Ok(self.advanced(position, p)), ..m },
                                Ok(()),
                            ),
                            Control::Exit(e) => (
                                MachineView { position: Err(e), ..m },
                                Err(Capture::Exit(e)),
                            ),
                            Control::Jump(p) => (MachineView { position: Ok(p), ..m }, Ok(())),
                        }
                    },
                    Err(external) => (
                        MachineView { position: Ok(self.advanced(position, 1)), ..self },
                        Err(Capture::Trap(external)),
                    ),
                }
            },
        }
    }

    /// Up to `max_steps` steps of the machine: it steps until it exits or
    /// traps, which gives `Some`, or until the steps are spent, which gives
    /// `None`.
    pub open spec fn run(self, max_steps: nat) -> (
        MachineView,
        Option<Capture<ExitReason, ExternalOpcode>>,
    )
        decreases max_steps,
    {
        if max_steps == 0 {
            (self, None)
        } else {
            let (m, r) = self.step();
            match r {
                Ok(()) => m.run((max_steps - 1) as nat),
                Err(c) => (m, Some(c)),
            }
        }
    }
}

/// A machine that has stopped stays stopped: every further step changes
/// nothing and reports the same reason.
pub proof fn lemma_exit_is_terminal(m: MachineView, reason: ExitReason)
    requires
        m.position == Err::<usize, ExitReason>(reason),
    ensures
        m.step() == (m, Err::<(), Capture<ExitReason, ExternalOpcode>>(Capture::Exit(reason))),
        forall|n: nat| n > 0 ==> #[trigger] m.run(n) == (m, Some(Capture::<ExitReason, ExternalOpcode>::Exit(reason))),
{
    assert forall|n: nat| n > 0 implies #[trigger] m.run(n) == (
        m,
        Some(Capture::<ExitReason, ExternalOpcode>::Exit(reason)),
    ) by {}
}

/// A store into memory succeeds wherever the bytes written end within the
/// memory's limit: with a limit of `usize::MAX`, a `MSTORE` at `2^32 - 32`
/// succeeds on a machine whose `usize` has 64 bits.
pub proof fn lemma_store_within_limit_succeeds(m: MachineView, size: usize)
    requires
        m.stack.len() >= 2,
        size == 1 || size == 32,
        m.stack.last().value() + size <= m.memory.limit,
    ensures
        m.eval_mstore(size).1 == Control::Continue(1),
        m.eval_mstore(size).0.memory.get(m.stack.last().value(), size as nat)
            == m.stack.drop_last().last().be_bytes().subrange(32 - size, 32),
{
    let index = m.stack.last();
    let value = m.stack.drop_last().last();
    lemma_word_of_value(index);
    lemma_word_of_value(value);
    crate::word::lemma_word_round_trip(value);
    let after = m.eval_mstore(size).0.memory;
    assert(after.get(index.value(), size as nat) =~= value.be_bytes().subrange(32 - size, 32));
}

/// The interpreter for one call frame.
pub struct Machine {
    /// The call data.
    data: Vec<u8>,
    /// The code.
    code: Vec<u8>,
    /// The program counter, or why the machine has stopped.
    position: Result<usize, ExitReason>,
    /// The range of memory to return, start and end.
    return_range: (Word, Word),
    /// The legal jump targets of the code.
    valids: Valids,
    /// The memory.
    memory: Memory,
    /// The stack.
    stack: Stack,
}

impl View for Machine {
    type V = MachineView;

    closed spec fn view(&self) -> MachineView {
        MachineView {
            data: self.data@,
            code: self.code@,
            position: self.position,
            return_start: self.return_range.0,
            return_end: self.return_range.1,
            memory: self.memory@,
            stack: self.stack@,
            stack_limit: self.stack.spec_limit(),
        }
    }
}

impl Machine {
    /// The machine's jump targets are those of its code, and what it holds
    /// is well formed.
    pub closed spec fn wf(&self) -> bool {
        &&& self@.wf()
        &&& self.valids.is_map_of(self.code@)
    }

    /// A wellformed machine holds a wellformed view.
    pub proof fn lemma_wf_view(&self)
        requires
            self.wf(),
        ensures
            self@.wf(),
    {
    }

    /// A machine at the start of `code`, with `data` as its call data, an
    /// empty stack and an empty memory.
    pub fn new(code: Vec<u8>, data: Vec<u8>, stack_limit: usize, memory_limit: usize) -> (r: Self)
        ensures
            r.wf(),
            r@ == (MachineView {
                data: data@,
                code: code@,
                position: Ok(0usize),
                return_start: Word::spec_zero(),
                return_end: Word::spec_zero(),
                memory: MemoryView {
                    data: Seq::empty(),
                    effective_len: Word::spec_zero(),
                    limit: memory_limit,
                },
                stack: Seq::empty(),
                stack_limit,
            }),
    {
        let valids = Valids::new(code.as_slice());
        Self {
            data,
            code,
            position: Ok(0),
            return_range: (Word::zero(), Word::zero()),
            valids,
            memory: Memory::new(memory_limit),
            stack: Stack::new(stack_limit),
        }
    }

    /// Stops the machine for good with `reason`: every further step reports
    /// it.
    pub fn exit(&mut self, reason: ExitReason)
        requires
            old(self).wf(),
        ensures
            final(self).wf(),
            final(self)@ == (MachineView { position: Err(reason), ..old(self)@ }),
    {
        self.position = Err(reason);
    }

    /// The operation that the next step meets, and the number of words on
    /// the stack; `None` for a machine that has stopped or whose counter is
    /// beyond its code.
    pub fn inspect(&self) -> (r: Option<(Result<Opcode, ExternalOpcode>, usize)>)
        ensures
            r == match self@.position {
                Ok(position) => if position < self@.code.len() {
                    Some((Opcode::spec_parse(self@.code[position as int]), self@.stack.len() as usize))
                } else {
                    None
                },
                Err(_) => None,
            },
    {
        match self.position {
            Ok(position) => {
                if position < self.code.len() {
                    Some((Opcode::parse(self.code[position]), self.stack.len()))
                } else {
                    None
                }
            },
            Err(_) => None,
        }
    }

    /// The stack.
    pub fn stack(&self) -> (r: &Stack)
        ensures
            r@ == self@.stack,
            r.spec_limit() == self@.stack_limit,
    {
        &self.stack
    }

    /// The memory.
    pub fn memory(&self) -> (r: &Memory)
        ensures
            r@ == self@.memory,
    {
        &self.memory
    }

    /// The stack, to work on: what is done to it is done to the machine.
    pub fn stack_mut(&mut self) -> (r: &mut Stack)
        requires
            old(self).wf(),
        ensures
            r@ == old(self)@.stack,
            r.spec_limit() == old(self)@.stack_limit,
            r.wf(),
            final(self)@ == (MachineView {
                stack: final(r)@,
                stack_limit: final(r).spec_limit(),
                ..old(self)@
            }),
            final(r).wf() ==> final(self).wf(),
    {
        &mut self.stack
    }

    /// The memory, to work on: what is done to it is done to the machine.
    pub fn memory_mut(&mut self) -> (r: &mut Memory)
        requires
            old(self).wf(),
        ensures
            r@ == old(self)@.memory,
            r.wf(),
            final(self)@ == (MachineView { memory: final(r)@, ..old(self)@ }),
            final(r).wf() ==> final(self).wf(),
    {
        &mut self.memory
    }

    /// The number of words on the stack.
    pub fn stack_len(&self) -> (r: usize)
        ensures
            r == self@.stack.len(),
    {
        self.stack.len()
    }

    /// Takes the top word off the stack.
    pub fn stack_pop(&mut self) -> (r: Result<Word, ExitError>)
        requires
            old(self).wf(),
        ensures
            final(self).wf(),
            match r {
                Ok(v) => old(self)@.stack.len() > 0 && v == old(self)@.stack.last() && final(self)@
                    == old(self)@.with_stack(old(self)@.stack.drop_last()),
                Err(e) => e == ExitError::StackUnderflow && old(self)@.stack.len() == 0 && final(self)@ == old(self)@,
            },
    {
        self.stack.pop()
    }

    /// Puts a word on top of the stack.
    pub fn stack_push(&mut self, value: Word) -> (r: Result<(), ExitError>)
        requires
            old(self).wf(),
        ensures
            final(self).wf(),
            match r {
                Ok(()) => old(self)@.stack.len() < old(self)@.stack_limit && final(self)@ == old(self)@.with_stack(old(self)@.stack.push(value)),
                Err(e) => e == ExitError::StackOverflow && old(self)@.stack.len() >= old(self)@.stack_limit && final(self)@ == old(self)@,
            },
    {
        self.stack.push(value)
    }

    /// The word `no_from_top` places below the top of the stack.
    pub fn stack_peek(&self, no_from_top: usize) -> (r: Result<Word, ExitError>)
        ensures
            match r {
                Ok(v) => no_from_top < self@.stack.len() && v == Stack::from_top(
                    self@.stack,
                    no_from_top as int,
                ),
                Err(e) => e == ExitError::StackUnderflow && no_from_top >= self@.stack.len(),
            },
    {
        self.stack.peek(no_from_top)
    }

    /// `size` bytes of memory from `offset` on.
    pub fn memory_get(&self, offset: usize, size: usize) -> (r: Vec<u8>)
        ensures
            r@ == self@.memory.get(offset as nat, size as nat),
    {
        self.memory.get(offset, size)
    }

    /// Makes the visible length of the memory cover `len` bytes from
    /// `offset` on.
    pub fn memory_resize_offset(&mut self, offset: Word, len: Word) -> (r: Result<(), ExitError>)
        requires
            old(self).wf(),
        ensures
            final(self).wf(),
            final(self)@ == old(self)@.with_memory(old(self)@.memory.resize_offset(offset, len).0),
            r == old(self)@.memory.resize_offset(offset, len).1,
    {
        self.memory.resize_offset(offset, len)
    }

    /// Copies `len` bytes of `data`, from `data_offset` on, into memory at
    /// `memory_offset`.
    pub fn memory_copy(&mut self, memory_offset: Word, data_offset: Word, len: Word, data: &[u8]) -> (r:
        Result<(), ExitFatal>)
        requires
            old(self).wf(),
        ensures
            final(self).wf(),
            final(self)@ == old(self)@.with_memory(
                old(self)@.memory.copy_large(memory_offset, data_offset, len, data@).0,
            ),
            r == old(self)@.memory.copy_large(memory_offset, data_offset, len, data@).1,
    {
        self.memory.copy_large(memory_offset, data_offset, len, data)
    }

    /// The bytes that the machine returns.
    pub fn return_value(&self) -> (r: Vec<u8>)
        requires
            self.wf(),
        ensures
            r@ == self@.return_value(),
    {
        let start = self.return_range.0;
        let end = self.return_range.1;
        let diff = end.wrapping_sub(start);
        proof {
            lemma_word_of_value(start);
            lemma_word_of_value(end);
            let d = (end.value() - start.value()) as nat;
            vstd::arithmetic::div_mod::lemma_small_mod(d, modulus());
            lemma_value_of_word(d);
        }
        let len: usize = diff.as_usize();
        if start.fits_usize() {
            self.memory.get(start.as_usize(), len)
        } else {
            // The bytes written so far are no more than a `usize` counts.
            let _ = self.memory.len();
            let mut ret: Vec<u8> = Vec::new();
            let mut i: usize = 0;
            while i < len
                invariant
                    i <= len,
                    ret.len() == i,
                    forall|j: int| 0 <= j < i ==> ret@[j] == 0u8,
                decreases len - i,
            {
                ret.push(0);
                i = i + 1;
            }
            assert(ret@ =~= self@.return_value());
            ret
        }
    }

    fn pop_word(&mut self) -> (r: Word)
        requires
            old(self).wf(),
            old(self)@.stack.len() > 0,
        ensures
            final(self).wf(),
            r == old(self)@.stack.last(),
            final(self)@ == old(self)@.with_stack(old(self)@.stack.drop_last()),
    {
        match self.stack.pop() {
            Ok(v) => v,
            Err(_) => Word::zero(),
        }
    }

    fn push_word(&mut self, w: Word, advance: usize) -> (r: Control)
        requires
            old(self).wf(),
        ensures
            final(self).wf(),
            (final(self)@, r) == old(self)@.eval_push(w, advance),
    {
        match self.stack.push(w) {
            Ok(()) => Control::Continue(advance),
            Err(e) => Control::Exit(ExitReason::Error(e)),
        }
    }

    fn eval_unary(&mut self, opcode: Opcode) -> (r: Control)
        requires
            old(self).wf(),
        ensures
            final(self).wf(),
            (final(self)@, r) == old(self)@.eval_unary(opcode),
    {
        if self.stack.len() < 1 {
            return Control::Exit(ExitReason::Error(ExitError::StackUnderflow));
        }
        let a = self.pop_word();
        let v = match opcode {
            Opcode::IsZero => if a.is_zero() {
                Word::one()
            } else {
                Word::zero()
            },
            _ => a.not(),
        };
        self.push_word(v, 1)
    }

    fn binary_value(opcode: Opcode, a: Word, b: Word) -> (r: Word)
        ensures
            r == binary_result(opcode, a, b),
    {
        match opcode {
            Opcode::Add => a.wrapping_add(b),
            Opcode::Mul => a.wrapping_mul(b),
            Opcode::Sub => a.wrapping_sub(b),
            Opcode::Div => a.div_or_zero(b),
            Opcode::SDiv => a.sdiv(b),
            Opcode::Mod => a.rem_or_zero(b),
            Opcode::SMod => a.smod(b),
            Opcode::Exp => a.wrapping_pow(b),
            Opcode::SignExtend => b.signextend(a),
            Opcode::Lt => Machine::flag(a.lt(&b)),
            Opcode::Gt => Machine::flag(a.gt(&b)),
            Opcode::SLt => Machine::flag(a.slt(&b)),
            Opcode::SGt => Machine::flag(b.slt(&a)),
            Opcode::Eq => Machine::flag(a == b),
            Opcode::And => a.bitand(b),
            Opcode::Or => a.bitor(b),
            Opcode::Xor => a.bitxor(b),
            Opcode::Byte => b.byte(a),
            Opcode::Shl => b.shl(a),
            Opcode::Shr => b.shr(a),
            _ => b.sar(a),
        }
    }

    fn flag(b: bool) -> (r: Word)
        ensures
            r == word_of_bool(b),
    {
        if b {
            Word::one()
        } else {
            Word::zero()
        }
    }

    fn eval_binary(&mut self, opcode: Opcode) -> (r: Control)
        requires
            old(self).wf(),
        ensures
            final(self).wf(),
            (final(self)@, r) == old(self)@.eval_binary(opcode),
    {
        if self.stack.len() < 2 {
            return Control::Exit(ExitReason::Error(ExitError::StackUnderflow));
        }
        let a = self.pop_word();
        let b = self.pop_word();
        let v = Machine::binary_value(opcode, a, b);
        self.push_word(v, 1)
    }

    fn eval_ternary(&mut self, opcode: Opcode) -> (r: Control)
        requires
            old(self).wf(),
        ensures
            final(self).wf(),
            (final(self)@, r) == old(self)@.eval_ternary(opcode),
    {
        if self.stack.len() < 3 {
            return Control::Exit(ExitReason::Error(ExitError::StackUnderflow));
        }
        let a = self.pop_word();
        let b = self.pop_word();
        let c = self.pop_word();
        let v = match opcode {
            Opcode::AddMod => a.addmod(b, c),
            _ => a.mulmod(b, c),
        };
        self.push_word(v, 1)
    }

    /// The word spelled by the 32 bytes of `data` from `index` on.
    fn load_word(data: &Vec<u8>, index: Word) -> (r: Word)
        ensures
            r == loaded_word(data@, index.value()),
    {
        let mut bytes: Vec<u8> = Vec::new();
        let len = data.len();
        let fits = index.fits_usize();
        let at: usize = if fits {
            index.as_usize()
        } else {
            0
        };
        let mut i: usize = 0;
        while i < 32
            invariant
                i <= 32,
                bytes.len() == i,
                len == data@.len(),
                fits == (index.value() <= usize::MAX),
                fits ==> at == index.value(),
                forall|j: int|
                    0 <= j < i ==> bytes@[j] == if index.value() + j < data@.len() {
                        data@[index.value() + j]
                    } else {
                        0u8
                    },
            decreases 32 - i,
        {
            if fits && at < len && i < len - at {
                bytes.push(data[at + i]);
            } else {
                bytes.push(0);
            }
            i = i + 1;
        }
        assert(bytes@ =~= Seq::new(
            32,
            |i: int|
                if index.value() + i < data@.len() {
                    data@[index.value() + i]
                } else {
                    0u8
                },
        ));
        Word::from_be_vec(&bytes)
    }

    fn eval_calldataload(&mut self) -> (r: Control)
        requires
            old(self).wf(),
        ensures
            final(self).wf(),
            (final(self)@, r) == old(self)@.eval_calldataload(),
    {
        if self.stack.len() < 1 {
            return Control::Exit(ExitReason::Error(ExitError::StackUnderflow));
        }
        let index = self.pop_word();
        let v = Machine::load_word(&self.data, index);
        self.push_word(v, 1)
    }

    fn eval_copy(&mut self, from_code: bool) -> (r: Control)
        requires
            old(self).wf(),
        ensures
            final(self).wf(),
            (final(self)@, r) == old(self)@.eval_copy(
                if from_code {
                    old(self)@.code
                } else {
                    old(self)@.data
                },
            ),
    {
        if self.stack.len() < 3 {
            return Control::Exit(ExitReason::Error(ExitError::StackUnderflow));
        }
        let memory_offset = self.pop_word();
        let data_offset = self.pop_word();
        let len = self.pop_word();
        match self.memory.resize_offset(memory_offset, len) {
            Ok(()) => {},
            Err(e) => {
                return Control::Exit(ExitReason::Error(e));
            },
        }
        let copied = if from_code {
            self.memory.copy_large(memory_offset, data_offset, len, self.code.as_slice())
        } else {
            self.memory.copy_large(memory_offset, data_offset, len, self.data.as_slice())
        };
        match copied {
            Ok(()) => Control::Continue(1),
            Err(e) => Control::Exit(ExitReason::Fatal(e)),
        }
    }

    fn eval_mload(&mut self) -> (r: Control)
        requires
            old(self).wf(),
        ensures
            final(self).wf(),
            (final(self)@, r) == old(self)@.eval_mload(),
    {
        if self.stack.len() < 1 {
            return Control::Exit(ExitReason::Error(ExitError::StackUnderflow));
        }
        let index = self.pop_word();
        match self.memory.resize_offset(index, Word::from_u64(32)) {
            Ok(()) => {},
            Err(e) => {
                return Control::Exit(ExitReason::Error(e));
            },
        }
        if !index.fits_usize() {
            return Control::Exit(ExitReason::Fatal(ExitFatal::NotSupported));
        }
        let bytes = self.memory.get(index.as_usize(), 32);
        let v = Word::from_be_vec(&bytes);
        self.push_word(v, 1)
    }

    fn eval_mstore(&mut self, size: usize) -> (r: Control)
        requires
            old(self).wf(),
            size == 1 || size == 32,
        ensures
            final(self).wf(),
            (final(self)@, r) == old(self)@.eval_mstore(size),
    {
        if self.stack.len() < 2 {
            return Control::Exit(ExitReason::Error(ExitError::StackUnderflow));
        }
        let index = self.pop_word();
        let value = self.pop_word();
        match self.memory.resize_offset(index, Word::from_usize(size)) {
            Ok(()) => {},
            Err(e) => {
                return Control::Exit(ExitReason::Error(e));
            },
        }
        if !index.fits_usize() {
            return Control::Exit(ExitReason::Fatal(ExitFatal::NotSupported));
        }
        let bytes = value.to_be_vec();
        let mut tail: Vec<u8> = Vec::new();
        let mut i: usize = 32 - size;
        while i < 32
            invariant
                size <= 32,
                32 - size <= i <= 32,
                bytes.len() == 32,
                tail@ == bytes@.subrange(32 - size, i as int),
            decreases 32 - i,
        {
            tail.push(bytes[i]);
            assert(bytes@.subrange(32 - size, i + 1) =~= bytes@.subrange(32 - size, i as int).push(
                bytes@[i as int],
            ));
            i = i + 1;
        }
        match self.memory.set(index.as_usize(), tail.as_slice(), Some(size)) {
            Ok(()) => Control::Continue(1),
            Err(e) => Control::Exit(ExitReason::Fatal(e)),
        }
    }

    fn jump_to(&self, dest: Word) -> (r: Control)
        requires
            self.wf(),
        ensures
            (self@, r) == self@.jump_to(dest),
    {
        if dest.fits_usize() && self.valids.is_valid(dest.as_usize()) {
            Control::Jump(dest.as_usize())
        } else {
            Control::Exit(ExitReason::Error(ExitError::InvalidJump))
        }
    }

    fn eval_jump(&mut self) -> (r: Control)
        requires
            old(self).wf(),
        ensures
            final(self).wf(),
            (final(self)@, r) == old(self)@.eval_jump(),
    {
        if self.stack.len() < 1 {
            return Control::Exit(ExitReason::Error(ExitError::StackUnderflow));
        }
        let dest = self.pop_word();
        self.jump_to(dest)
    }

    fn eval_jumpi(&mut self) -> (r: Control)
        requires
            old(self).wf(),
        ensures
            final(self).wf(),
            (final(self)@, r) == old(self)@.eval_jumpi(),
    {
        if self.stack.len() < 2 {
            return Control::Exit(ExitReason::Error(ExitError::StackUnderflow));
        }
        let dest = self.pop_word();
        let value = self.pop_word();
        if !value.is_zero() {
            self.jump_to(dest)
        } else {
            Control::Continue(1)
        }
    }

    fn eval_dup(&mut self, n: u8) -> (r: Control)
        requires
            old(self).wf(),
            1 <= n <= 16,
        ensures
            final(self).wf(),
            (final(self)@, r) == old(self)@.eval_dup(n),
    {
        match self.stack.peek((n - 1) as usize) {
            Ok(v) => self.push_word(v, 1),
            Err(e) => Control::Exit(ExitReason::Error(e)),
        }
    }

    fn eval_swap(&mut self, n: u8) -> (r: Control)
        requires
            old(self).wf(),
            1 <= n <= 16,
        ensures
            final(self).wf(),
            (final(self)@, r) == old(self)@.eval_swap(n),
    {
        if self.stack.len() <= n as usize {
            return Control::Exit(ExitReason::Error(ExitError::StackUnderflow));
        }
        let a = match self.stack.peek(0) {
            Ok(v) => v,
            Err(_) => Word::zero(),
        };
        let b = match self.stack.peek(n as usize) {
            Ok(v) => v,
            Err(_) => Word::zero(),
        };
        let _ = self.stack.set(0, b);
        let _ = self.stack.set(n as usize, a);
        Control::Continue(1)
    }

    fn eval_ret(&mut self, reason: ExitReason) -> (r: Control)
        requires
            old(self).wf(),
        ensures
            final(self).wf(),
            (final(self)@, r) == old(self)@.eval_ret(reason),
    {
        if self.stack.len() < 2 {
            return Control::Exit(ExitReason::Error(ExitError::StackUnderflow));
        }
        let start = self.pop_word();
        let len = self.pop_word();
        match self.memory.resize_offset(start, len) {
            Ok(()) => {},
            Err(e) => {
                return Control::Exit(ExitReason::Error(e));
            },
        }
        if !len.fits_usize() {
            return Control::Exit(ExitReason::Fatal(ExitFatal::NotSupported));
        }
        let end = start.wrapping_add(len);
        proof {
            lemma_word_of_value(start);
            lemma_word_of_value(len);
            if len.value() != 0 {
                vstd::arithmetic::div_mod::lemma_small_mod(
                    start.value() + len.value(),
                    modulus(),
                );
                lemma_value_of_word(start.value() + len.value());
            } else {
                vstd::arithmetic::div_mod::lemma_small_mod(start.value(), modulus());
            }
        }
        self.return_range = (start, end);
        Control::Exit(reason)
    }

    /// The word that a `PUSHn` at `position` pushes.
    fn push_operand(code: &Vec<u8>, position: usize, n: u8) -> (r: Word)
        requires
            1 <= n <= 32,
            position < code.len(),
        ensures
            r == pushed_word(code@, position as int, n as int),
    {
        let mut bytes: Vec<u8> = Vec::new();
        let len = code.len();
        let pad: usize = 32 - n as usize;
        let mut i: usize = 0;
        while i < 32
            invariant
                i <= 32,
                bytes.len() == i,
                len == code@.len(),
                position < len,
                pad == 32 - n,
                1 <= n <= 32,
                forall|j: int|
                    0 <= j < i ==> bytes@[j] == if j >= 32 - n && position + 1 + (j - (32 - n))
                        < code@.len() {
                        code@[position + 1 + (j - (32 - n))]
                    } else {
                        0u8
                    },
            decreases 32 - i,
        {
            if i >= pad && i - pad < len - position - 1 {
                bytes.push(code[position + 1 + (i - pad)]);
            } else {
                bytes.push(0);
            }
            i = i + 1;
        }
        assert(bytes@ =~= Seq::new(
            32,
            |i: int|
                if i >= 32 - n && position + 1 + (i - (32 - n)) < code@.len() {
                    code@[position + 1 + (i - (32 - n))]
                } else {
                    0u8
                },
        ));
        Word::from_be_vec(&bytes)
    }

    /// Performs the operation `opcode`, met at `position`.
    fn eval(&mut self, opcode: Opcode, position: usize) -> (r: Control)
        requires
            old(self).wf(),
            opcode.wf(),
            position < old(self)@.code.len(),
        ensures
            final(self).wf(),
            (final(self)@, r) == old(self)@.eval(opcode, position),
            final(self)@.code == old(self)@.code,
            final(self)@.position == old(self)@.position,
    {
        match opcode {
            Opcode::Stop => Control::Exit(ExitReason::Succeed(ExitSucceed::Stopped)),
            Opcode::IsZero | Opcode::Not => self.eval_unary(opcode),
            Opcode::AddMod | Opcode::MulMod => self.eval_ternary(opcode),
            Opcode::CallDataLoad => self.eval_calldataload(),
            Opcode::CallDataSize => {
                let n = self.data.len();
                self.push_word(Word::from_usize(n), 1)
            },
            Opcode::CallDataCopy => self.eval_copy(false),
            Opcode::CodeSize => {
                let n = self.code.len();
                self.push_word(Word::from_usize(n), 1)
            },
            Opcode::CodeCopy => self.eval_copy(true),
            Opcode::Pop => {
                if self.stack.len() < 1 {
                    Control::Exit(ExitReason::Error(ExitError::StackUnderflow))
                } else {
                    let _ = self.pop_word();
                    Control::Continue(1)
                }
            },
            Opcode::MLoad => self.eval_mload(),
            Opcode::MStore => self.eval_mstore(32),
            Opcode::MStore8 => self.eval_mstore(1),
            Opcode::Jump => self.eval_jump(),
            Opcode::JumpI => self.eval_jumpi(),
            Opcode::PC => self.push_word(Word::from_usize(position), 1),
            Opcode::MSize => {
                let n = self.memory.effective_len();
                self.push_word(n, 1)
            },
            Opcode::JumpDest => Control::Continue(1),
            Opcode::Push(n) => {
                let w = Machine::push_operand(&self.code, position, n);
                self.push_word(w, 1 + n as usize)
            },
            Opcode::Dup(n) => self.eval_dup(n),
            Opcode::Swap(n) => self.eval_swap(n),
            Opcode::Return => self.eval_ret(ExitReason::Succeed(ExitSucceed::Returned)),
            Opcode::Revert => self.eval_ret(ExitReason::Revert(ExitRevert::Reverted)),
            Opcode::Invalid => Control::Exit(ExitReason::Error(ExitError::DesignatedInvalid)),
            _ => self.eval_binary(opcode),
        }
    }

    fn advance(&mut self, position: usize, by: usize)
        requires
            old(self).wf(),
            position < old(self)@.code.len(),
        ensures
            final(self).wf(),
            final(self)@ == (MachineView {
                position: Ok(old(self)@.advanced(position, by)),
                ..old(self)@
            }),
    {
        let len = self.code.len();
        if by > len - position {
            self.position = Ok(len);
        } else {
            self.position = Ok(position + by);
        }
    }

    /// Steps the machine: performs one operation, or reports why it cannot.
    pub fn step(&mut self) -> (r: Result<(), Capture<ExitReason, ExternalOpcode>>)
        requires
            old(self).wf(),
        ensures
            final(self).wf(),
            (final(self)@, r) == old(self)@.step(),
    {
        let position: usize = match self.position {
            Ok(p) => p,
            Err(reason) => {
                return Err(Capture::Exit(reason));
            },
        };
        if position >= self.code.len() {
            let stopped = ExitReason::Succeed(ExitSucceed::Stopped);
            self.position = Err(stopped);
            return Err(Capture::Exit(stopped));
        }
        match Opcode::parse(self.code[position]) {
            Ok(opcode) => {
                match self.eval(opcode, position) {
                    Control::Continue(p) => {
                        self.advance(position, p);
                        Ok(())
                    },
                    Control::Exit(e) => {
                        self.position = Err(e);
                        Err(Capture::Exit(e))
                    },
                    Control::Jump(p) => {
                        self.position = Ok(p);
                        Ok(())
                    },
                }
            },
            Err(external) => {
                self.advance(position, 1);
                Err(Capture::Trap(external))
            },
        }
    }

    /// Steps the machine until it exits or traps, for `max_steps` steps at
    /// most. `None` says that the steps were spent first; the machine can
    /// then be run again.
    pub fn run(&mut self, max_steps: u64) -> (r: Option<Capture<ExitReason, ExternalOpcode>>)
        requires
            old(self).wf(),
        ensures
            final(self).wf(),
            (final(self)@, r) == old(self)@.run(max_steps as nat),
    {
        let mut left: u64 = max_steps;
        while left > 0
            invariant
                self.wf(),
                self@.run(left as nat) == old(self)@.run(max_steps as nat),
            decreases left,
        {
            match self.step() {
                Ok(()) => {
                    left = left - 1;
                },
                Err(res) => {
                    return Some(res);
                },
            }
        }
        None
    }
}

} // verus!
