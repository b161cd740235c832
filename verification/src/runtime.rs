//! The runtime of one call frame: a machine with its call context and the
//! buffer of the data that the last sub-call returned.

use crate::config::Config;
use crate::context::Context;
use crate::error::{Capture, ExitError, ExitFatal, ExitReason};
use crate::machine::{Machine, MachineView};
use crate::memory::MemoryView;
use crate::opcode::{ExternalOpcode, Opcode};
use crate::word::Word;
use vstd::prelude::*;

verus! {

/// What an operation that needed the world outside the machine asks of the
/// runtime.
#[derive(Clone, Copy, Debug, PartialEq, Eq)]
pub enum Flow {
    /// Go on with the next operation.
    Continue,
    /// Stop for good.
    Exit(ExitReason),
}

/// What a runtime holds.
pub struct RuntimeView {
    /// The machine.
    pub machine: MachineView,
    /// `Ok` while the runtime can step, else why it has stopped.
    pub status: Result<(), ExitReason>,
    /// What the last sub-call returned.
    pub return_data_buffer: Seq<u8>,
    /// The call context.
    pub context: Context,
    /// The configuration.
    pub config: Config,
}

impl RuntimeView {
    /// A runtime at the start of `code`.
    pub open spec fn new(code: Seq<u8>, data: Seq<u8>, context: Context, config: Config) -> RuntimeView {
        RuntimeView {
            machine: MachineView {
                data,
                code,
                position: Ok(0usize),
                return_start: Word::spec_zero(),
                return_end: Word::spec_zero(),
                memory: MemoryView {
                    data: Seq::empty(),
                    effective_len: Word::spec_zero(),
                    limit: config.memory_limit,
                },
                stack: Seq::empty(),
                stack_limit: config.stack_limit,
            },
            status: Ok(()),
            return_data_buffer: Seq::empty(),
            context,
            config,
        }
    }

    pub open spec fn with_machine(self, machine: MachineView) -> RuntimeView {
        RuntimeView { machine, ..self }
    }

    pub open spec fn with_stack(self, stack: Seq<Word>) -> RuntimeView {
        self.with_machine(self.machine.with_stack(stack))
    }

    pub open spec fn with_buffer(self, buffer: Seq<u8>) -> RuntimeView {
        RuntimeView { return_data_buffer: buffer, ..self }
    }

    /// The word `i` places below the top of the stack.
    pub open spec fn arg(self, i: int) -> Word {
        self.machine.stack[self.machine.stack.len() - 1 - i]
    }

    /// The runtime with the top `n` words taken off the stack.
    pub open spec fn dropped(self, n: int) -> RuntimeView {
        self.with_stack(self.machine.stack.subrange(0, self.machine.stack.len() - n))
    }

    /// The runtime with `w` put on the stack.
    pub open spec fn pushed(self, w: Word) -> RuntimeView {
        self.with_stack(self.machine.stack.push(w))
    }

    /// Pushing `w`: on a full stack, `StackOverflow`.
    pub open spec fn push_flow(self, w: Word) -> (RuntimeView, Flow) {
        if self.machine.stack.len() >= self.machine.stack_limit {
            (self, Flow::Exit(ExitReason::Error(ExitError::StackOverflow)))
        } else {
            (self.pushed(w), Flow::Continue)
        }
    }

    /// Replacing the top of the stack by `f` of it: on an empty stack,
    /// `StackUnderflow`.
    pub open spec fn map_top(self, f: spec_fn(Word) -> Word) -> (RuntimeView, Flow) {
        if self.machine.stack.len() < 1 {
            (self, Flow::Exit(ExitReason::Error(ExitError::StackUnderflow)))
        } else {
            (self.dropped(1).pushed(f(self.arg(0))), Flow::Continue)
        }
    }

    /// The runtime stopped for good with `reason`.
    pub open spec fn exited(self, reason: ExitReason) -> RuntimeView {
        RuntimeView {
            status: Err(reason),
            machine: MachineView { position: Err(reason), ..self.machine },
            ..self
        }
    }

    /// The runtime with the visible length of its memory made to cover `len`
    /// bytes from `offset` on.
    pub open spec fn resized(self, offset: Word, len: Word) -> (RuntimeView, Result<(), ExitError>) {
        let (memory, r) = self.machine.memory.resize_offset(offset, len);
        (self.with_machine(self.machine.with_memory(memory)), r)
    }

    /// The runtime after `len` bytes of `data`, from `data_offset` on, were
    /// copied to `memory_offset`.
    pub open spec fn copied(self, memory_offset: Word, data_offset: Word, len: Word, data: Seq<u8>) -> (
        RuntimeView,
        Result<(), ExitFatal>,
    ) {
        let (memory, r) = self.machine.memory.copy_large(memory_offset, data_offset, len, data);
        (self.with_machine(self.machine.with_memory(memory)), r)
    }

    /// The `len` bytes of memory from `offset` on: empty for a length of
    /// zero; `NotSupported` where the offset or the length does not fit
    /// `usize`.
    pub open spec fn memory_range(self, offset: Word, len: Word) -> Result<Seq<u8>, ExitReason> {
        if len.value() == 0 {
            Ok(Seq::empty())
        } else if offset.value() > usize::MAX || len.value() > usize::MAX {
            Err(ExitReason::Fatal(ExitFatal::NotSupported))
        } else {
            Ok(self.machine.memory.get(offset.value(), len.value()))
        }
    }
}

/// EVM runtime: a machine with its call context and return-data buffer.
pub struct Runtime {
    machine: Machine,
    status: Result<(), ExitReason>,
    return_data_buffer: Vec<u8>,
    context: Context,
    config: Config,
}

impl View for Runtime {
    type V = RuntimeView;

    closed spec fn view(&self) -> RuntimeView {
        RuntimeView {
            machine: self.machine@,
            status: self.status,
            return_data_buffer: self.return_data_buffer@,
            context: self.context,
            config: self.config,
        }
    }
}

impl Runtime {
    /// The machine is well formed.
    pub closed spec fn wf(&self) -> bool {
        self.machine.wf()
    }

    /// A wellformed runtime holds a wellformed machine.
    pub proof fn lemma_wf_view(&self)
        requires
            self.wf(),
        ensures
            self@.machine.wf(),
    {
        self.machine.lemma_wf_view();
    }

    /// A runtime at the start of `code`, with `data` as its call data.
    pub fn new(code: Vec<u8>, data: Vec<u8>, context: Context, config: &Config) -> (r: Self)
        ensures
            r.wf(),
            r@ == RuntimeView::new(code@, data@, context, *config),
    {
        Self {
            machine: Machine::new(code, data, config.stack_limit, config.memory_limit),
            status: Ok(()),
            return_data_buffer: Vec::new(),
            context,
            config: *config,
        }
    }

    /// The bytes that the machine returns.
    pub fn return_value(&self) -> (r: Vec<u8>)
        requires
            self.wf(),
        ensures
            r@ == self@.machine.return_value(),
    {
        self.machine.return_value()
    }

    /// Stops the machine for good with `exit`.
    pub fn exit(&mut self, exit: ExitReason)
        requires
            old(self).wf(),
        ensures
            final(self).wf(),
            final(self)@ == old(self)@.with_machine(
                MachineView { position: Err(exit), ..old(self)@.machine },
            ),
    {
        self.machine.exit(exit);
    }

    /// The call context.
    pub fn context(&self) -> (r: Context)
        ensures
            r == self@.context,
    {
        self.context
    }

    /// The configuration.
    pub fn config(&self) -> (r: Config)
        ensures
            r == self@.config,
    {
        self.config
    }

    /// Copies `len` bytes of `data`, from `data_offset` on, into memory at
    /// `memory_offset`.
    pub fn memory_copy(&mut self, memory_offset: Word, data_offset: Word, len: Word, data: &[u8]) -> (r:
        Result<(), ExitFatal>)
        requires
            old(self).wf(),
        ensures
            final(self).wf(),
            (final(self)@, r) == old(self)@.copied(memory_offset, data_offset, len, data@),
    {
        self.machine.memory_copy(memory_offset, data_offset, len, data)
    }

    /// `size` bytes of memory from `offset` on.
    pub fn get_memory(&self, offset: usize, size: usize) -> (r: Vec<u8>)
        ensures
            r@ == self@.machine.memory.get(offset as nat, size as nat),
    {
        self.machine.memory_get(offset, size)
    }

    /// Makes the visible length of the memory cover `len` bytes from
    /// `offset` on.
    pub fn resize_offset(&mut self, offset: Word, len: Word) -> (r: Result<(), ExitError>)
        requires
            old(self).wf(),
        ensures
            final(self).wf(),
            (final(self)@, r) == old(self)@.resized(offset, len),
    {
        self.machine.memory_resize_offset(offset, len)
    }

    /// Takes the top word off the stack.
    pub fn stack_pop(&mut self) -> (r: Result<Word, ExitError>)
        requires
            old(self).wf(),
        ensures
            final(self).wf(),
            match r {
                Ok(v) => old(self)@.machine.stack.len() > 0 && v == old(self)@.arg(0) && final(self)@
                    == old(self)@.dropped(1),
                Err(e) => e == ExitError::StackUnderflow && old(self)@.machine.stack.len() == 0
                    && final(self)@ == old(self)@,
            },
    {
        let r = self.machine.stack_pop();
        proof {
            if r is Ok {
                let s = old(self)@.machine.stack;
                assert(s.drop_last() =~= s.subrange(0, s.len() - 1));
            }
        }
        r
    }

    /// Puts a word on top of the stack.
    pub fn stack_push(&mut self, value: Word) -> (r: Result<(), ExitError>)
        requires
            old(self).wf(),
        ensures
            final(self).wf(),
            match r {
                Ok(()) => old(self)@.machine.stack.len() < old(self)@.machine.stack_limit && final(self)@ == old(self)@.pushed(value),
                Err(e) => e == ExitError::StackOverflow && old(self)@.machine.stack.len() >= old(self)@.machine.stack_limit && final(self)@ == old(self)@,
            },
    {
        self.machine.stack_push(value)
    }

    /// The word `no_from_top` places below the top of the stack.
    pub fn stack_peek(&self, no_from_top: usize) -> (r: Result<Word, ExitError>)
        ensures
            match r {
                Ok(v) => no_from_top < self@.machine.stack.len() && v == self@.arg(no_from_top as int),
                Err(e) => e == ExitError::StackUnderflow && no_from_top >= self@.machine.stack.len(),
            },
    {
        self.machine.stack_peek(no_from_top)
    }

    /// The number of words on the stack.
    pub fn stack_len(&self) -> (r: usize)
        ensures
            r == self@.machine.stack.len(),
    {
        self.machine.stack_len()
    }

    /// Puts `w` on the stack, as the last act of an operation.
    pub(crate) fn push(&mut self, w: Word) -> (r: Flow)
        requires
            old(self).wf(),
        ensures
            final(self).wf(),
            (final(self)@, r) == old(self)@.push_flow(w),
    {
        match self.machine.stack_push(w) {
            Ok(()) => Flow::Continue,
            Err(e) => Flow::Exit(ExitReason::Error(e)),
        }
    }

    /// Takes the top `n` words off the stack, the top first.
    pub(crate) fn pop_args(&mut self, n: usize) -> (args: Vec<Word>)
        requires
            old(self).wf(),
            n <= old(self)@.machine.stack.len(),
        ensures
            final(self).wf(),
            final(self)@ == old(self)@.dropped(n as int),
            args@.len() == n,
            forall|i: int| 0 <= i < n ==> args@[i] == old(self)@.arg(i),
            final(self)@.machine.stack.len() + n <= final(self)@.machine.stack_limit,
    {
        proof {
            old(self).lemma_wf_view();
        }
        let mut args: Vec<Word> = Vec::new();
        let mut i: usize = 0;
        assert(old(self)@.machine.stack.subrange(0, old(self)@.machine.stack.len() as int)
            =~= old(self)@.machine.stack);
        while i < n
            invariant
                i <= n,
                n <= old(self)@.machine.stack.len(),
                self.wf(),
                self@ == old(self)@.dropped(i as int),
                args@.len() == i,
                forall|j: int| 0 <= j < i ==> args@[j] == old(self)@.arg(j),
            decreases n - i,
        {
            let ghost before = self@.machine.stack;
            match self.machine.stack_pop() {
                Ok(v) => {
                    args.push(v);
                },
                Err(_) => {},
            }
            proof {
                let s = old(self)@.machine.stack;
                assert(before.drop_last() =~= s.subrange(0, s.len() - (i + 1)));
            }
            i = i + 1;
        }
        args
    }

    /// Replaces the top of the stack after the operand was taken off.
    pub(crate) fn push_result(&mut self, w: Word)
        requires
            old(self).wf(),
            old(self)@.machine.stack.len() < old(self)@.machine.stack_limit,
        ensures
            final(self).wf(),
            final(self)@ == old(self)@.pushed(w),
    {
        let _ = self.machine.stack_push(w);
    }

    /// The `len` bytes of memory from `offset` on.
    pub(crate) fn memory_range(&self, offset: Word, len: Word) -> (r: Result<Vec<u8>, ExitReason>)
        ensures
            match r {
                Ok(v) => self@.memory_range(offset, len) == Ok::<Seq<u8>, ExitReason>(v@),
                Err(e) => self@.memory_range(offset, len) == Err::<Seq<u8>, ExitReason>(e),
            },
    {
        if len.is_zero() {
            Ok(Vec::new())
        } else if !offset.fits_usize() || !len.fits_usize() {
            Err(ExitReason::Fatal(ExitFatal::NotSupported))
        } else {
            Ok(self.machine.memory_get(offset.as_usize(), len.as_usize()))
        }
    }

    /// Replaces the return-data buffer.
    pub(crate) fn set_buffer(&mut self, buffer: Vec<u8>)
        requires
            old(self).wf(),
        ensures
            final(self).wf(),
            final(self)@ == old(self)@.with_buffer(buffer@),
    {
        self.return_data_buffer = buffer;
    }

    /// The return-data buffer.
    pub(crate) fn buffer(&self) -> (r: &Vec<u8>)
        ensures
            r@ == self@.return_data_buffer,
    {
        &self.return_data_buffer
    }

    /// Stops the runtime for good.
    pub(crate) fn stop(&mut self, reason: ExitReason)
        requires
            old(self).wf(),
        ensures
            final(self).wf(),
            final(self)@ == old(self)@.exited(reason),
    {
        self.machine.exit(reason);
        self.status = Err(reason);
    }

    /// `Ok` while the runtime can step, else why it has stopped.
    pub fn status(&self) -> (r: Result<(), ExitReason>)
        ensures
            r == self@.status,
    {
        self.status
    }

    /// The operation that the next step meets.
    pub fn inspect(&self) -> (r: Option<Result<Opcode, ExternalOpcode>>)
        ensures
            r == match self@.machine.position {
                Ok(position) => if position < self@.machine.code.len() {
                    Some(Opcode::spec_parse(self@.machine.code[position as int]))
                } else {
                    None
                },
                Err(_) => None,
            },
    {
        match self.machine.inspect() {
            Some((op, _)) => Some(op),
            None => None,
        }
    }

    /// One step of the machine alone.
    pub(crate) fn machine_step(&mut self) -> (r: Result<(), Capture<ExitReason, ExternalOpcode>>)
        requires
            old(self).wf(),
        ensures
            final(self).wf(),
            final(self)@ == old(self)@.with_machine(old(self)@.machine.step().0),
            r == old(self)@.machine.step().1,
    {
        self.machine.step()
    }

    pub(crate) fn set_status(&mut self, status: Result<(), ExitReason>)
        requires
            old(self).wf(),
        ensures
            final(self).wf(),
            final(self)@ == (RuntimeView { status, ..old(self)@ }),
    {
        self.status = status;
    }
}

} // verus!
