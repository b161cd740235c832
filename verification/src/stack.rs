//! The word stack of a machine.

use crate::error::ExitError;
use crate::word::Word;
use vstd::prelude::*;

verus! {

/// A stack of words with a fixed limit. Its view is the sequence of its
/// words, bottom first: the top of the stack is the last element.
#[derive(Clone, Debug)]
pub struct Stack {
    data: Vec<Word>,
    limit: usize,
}

impl View for Stack {
    type V = Seq<Word>;

    closed spec fn view(&self) -> Seq<Word> {
        self.data@
    }
}

impl Stack {
    /// The most words the stack may hold.
    pub closed spec fn spec_limit(&self) -> usize {
        self.limit
    }

    /// The stack holds no more words than its limit.
    pub open spec fn wf(&self) -> bool {
        self@.len() <= self.spec_limit()
    }

    /// The word `no_from_top` places below the top of `s`.
    pub open spec fn from_top(s: Seq<Word>, no_from_top: int) -> Word
        recommends
            0 <= no_from_top < s.len(),
    {
        s[s.len() - 1 - no_from_top]
    }

    /// An empty stack with the given limit.
    pub fn new(limit: usize) -> (r: Self)
        ensures
            r@ == Seq::<Word>::empty(),
            r.spec_limit() == limit,
            r.wf(),
    {
        Self { data: Vec::new(), limit }
    }

    /// The stack's limit.
    pub fn limit(&self) -> (r: usize)
        ensures
            r == self.spec_limit(),
    {
        self.limit
    }

    /// The number of words on the stack.
    pub fn len(&self) -> (r: usize)
        ensures
            r == self@.len(),
    {
        self.data.len()
    }

    /// Takes the top word off the stack. On an empty stack the result is
    /// `StackUnderflow`.
    pub fn pop(&mut self) -> (r: Result<Word, ExitError>)
        ensures
            final(self).spec_limit() == old(self).spec_limit(),
            old(self).wf() ==> final(self).wf(),
            final(self)@ == stack_after(old(self)@, old(self).spec_limit() as nat, StackOp::Pop),
            match r {
                Ok(v) => old(self)@.len() > 0 && v == old(self)@.last() && final(self)@ == old(
                    self,
                )@.drop_last(),
                Err(e) => e == ExitError::StackUnderflow && old(self)@.len() == 0 && final(self)@
                    == old(self)@,
            },
    {
        match self.data.pop() {
            Some(v) => Ok(v),
            None => Err(ExitError::StackUnderflow),
        }
    }

    /// Puts a word on top of the stack. On a full stack the result is
    /// `StackOverflow` and the stack is left as it was.
    pub fn push(&mut self, value: Word) -> (r: Result<(), ExitError>)
        ensures
            final(self).spec_limit() == old(self).spec_limit(),
            old(self).wf() ==> final(self).wf(),
            final(self)@ == stack_after(
                old(self)@,
                old(self).spec_limit() as nat,
                StackOp::Push(value),
            ),
            match r {
                Ok(()) => old(self)@.len() < old(self).spec_limit() && final(self)@ == old(self)@.push(
                    value,
                ),
                Err(e) => e == ExitError::StackOverflow && old(self)@.len() >= old(self).spec_limit()
                    && final(self)@ == old(self)@,
            },
    {
        if self.data.len() >= self.limit {
            return Err(ExitError::StackOverflow);
        }
        self.data.push(value);
        Ok(())
    }

    /// The word `no_from_top` places below the top, where the top is at
    /// place 0. Where the stack is too short the result is `StackUnderflow`.
    pub fn peek(&self, no_from_top: usize) -> (r: Result<Word, ExitError>)
        ensures
            match r {
                Ok(v) => no_from_top < self@.len() && v == Stack::from_top(self@, no_from_top as int),
                Err(e) => e == ExitError::StackUnderflow && no_from_top >= self@.len(),
            },
    {
        if self.data.len() > no_from_top {
            Ok(self.data[self.data.len() - no_from_top - 1])
        } else {
            Err(ExitError::StackUnderflow)
        }
    }

    /// Replaces the word `no_from_top` places below the top. Where the stack
    /// is too short the result is `StackUnderflow` and the stack is left as
    /// it was.
    pub fn set(&mut self, no_from_top: usize, val: Word) -> (r: Result<(), ExitError>)
        ensures
            final(self).spec_limit() == old(self).spec_limit(),
            old(self).wf() ==> final(self).wf(),
            final(self)@ == stack_after(
                old(self)@,
                old(self).spec_limit() as nat,
                StackOp::Replace(no_from_top, val),
            ),
            match r {
                Ok(()) => no_from_top < old(self)@.len() && final(self)@ == old(self)@.update(
                    old(self)@.len() - 1 - no_from_top,
                    val,
                ),
                Err(e) => e == ExitError::StackUnderflow && no_from_top >= old(self)@.len()
                    && final(self)@ == old(self)@,
            },
    {
        if self.data.len() > no_from_top {
            let len = self.data.len();
            self.data[len - no_from_top - 1] = val;
            Ok(())
        } else {
            Err(ExitError::StackUnderflow)
        }
    }
}

/// One operation on a stack.
pub enum StackOp {
    /// Put a word on top.
    Push(Word),
    /// Take the top word off.
    Pop,
    /// Replace the word that many places below the top.
    Replace(usize, Word),
}

/// The words on a stack with the given limit after one operation: a push
/// onto a full stack, a pop from an empty one and a `Replace` below the bottom
/// fail and change nothing.
pub open spec fn stack_after(s: Seq<Word>, limit: nat, op: StackOp) -> Seq<Word> {
    match op {
        StackOp::Push(v) => if s.len() < limit {
            s.push(v)
        } else {
            s
        },
        StackOp::Pop => if s.len() > 0 {
            s.drop_last()
        } else {
            s
        },
        StackOp::Replace(n, v) => if n < s.len() {
            s.update(s.len() - 1 - n, v)
        } else {
            s
        },
    }
}

/// The words on a stack after a sequence of operations, first to last.
pub open spec fn stack_after_all(s: Seq<Word>, limit: nat, ops: Seq<StackOp>) -> Seq<Word>
    decreases ops.len(),
{
    if ops.len() == 0 {
        s
    } else {
        stack_after(stack_after_all(s, limit, ops.drop_last()), limit, ops.last())
    }
}

/// Whatever sequence of operations a stack goes through, it never holds more
/// words than its limit.
pub proof fn lemma_stack_stays_within_limit(s: Seq<Word>, limit: nat, ops: Seq<StackOp>)
    requires
        s.len() <= limit,
    ensures
        0 <= stack_after_all(s, limit, ops).len() <= limit,
    decreases ops.len(),
{
    if ops.len() > 0 {
        lemma_stack_stays_within_limit(s, limit, ops.drop_last());
    }
}

} // verus!
