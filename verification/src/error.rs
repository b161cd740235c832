//! How an execution ends.

use vstd::prelude::*;

verus! {

/// What stopped a machine: it either ended for good or waits for its
/// environment.
#[derive(Clone, Copy, Debug, PartialEq, Eq)]
pub enum Capture<E, T> {
    /// The machine has exited. It cannot be executed again.
    Exit(E),
    /// The machine has trapped. It waits for outside information and can be
    /// executed again.
    Trap(T),
}

/// Normal termination.
#[derive(Clone, Copy, Debug, PartialEq, Eq, Structural)]
pub enum ExitSucceed {
    /// The machine met an explicit stop, or ran off the end of its code.
    Stopped,
    /// The machine met an explicit return.
    Returned,
    /// The machine destroyed its own account.
    Suicided,
}

/// Explicit revert.
#[derive(Clone, Copy, Debug, PartialEq, Eq, Structural)]
pub enum ExitRevert {
    /// The machine met an explicit revert.
    Reverted,
}

/// Faults of the executed program.
#[derive(Clone, Copy, Debug, PartialEq, Eq)]
pub enum ExitError {
    /// Trying to pop from an empty stack.
    StackUnderflow,
    /// Trying to push onto a full stack.
    StackOverflow,
    /// Jump destination is invalid.
    InvalidJump,
    /// An opcode names a memory region that cannot exist.
    InvalidRange,
    /// The designated invalid opcode was met.
    DesignatedInvalid,
    /// The call stack is too deep.
    CallTooDeep,
    /// A contract already lives at the address to be created.
    CreateCollision,
    /// The code of a created contract is over the limit.
    CreateContractLimit,
    /// An opcode asks for outside information beyond the offset limit.
    OutOfOffset,
    /// The execution ran out of its budget.
    OutOfGas,
    /// Not enough funds for the transfer.
    OutOfFund,
    /// The program counter underflowed.
    PCUnderflow,
    /// Attempt to create an empty account.
    CreateEmpty,
    /// Other faults, with a message.
    Other(&'static str),
}

/// Conditions that end the whole transaction.
#[derive(Clone, Copy, Debug, PartialEq, Eq)]
pub enum ExitFatal {
    /// The operation is not supported.
    NotSupported,
    /// A trap was left unhandled.
    UnhandledInterrupt,
    /// The environment treats this call error as fatal.
    CallErrorAsFatal(ExitError),
    /// Other fatal conditions, with a message.
    Other(&'static str),
}

/// The outcome of an execution.
#[derive(Clone, Copy, Debug, PartialEq, Eq)]
pub enum ExitReason {
    /// The machine succeeded.
    Succeed(ExitSucceed),
    /// The machine met a fault of the program.
    Error(ExitError),
    /// The machine met an explicit revert.
    Revert(ExitRevert),
    /// The machine met a condition that ends the transaction.
    Fatal(ExitFatal),
}

impl ExitReason {
    /// Whether the exit is a success.
    pub fn is_succeed(&self) -> (r: bool)
        ensures
            r == (*self is Succeed),
    {
        match self {
            Self::Succeed(_) => true,
            _ => false,
        }
    }

    /// Whether the exit is a fault of the program.
    pub fn is_error(&self) -> (r: bool)
        ensures
            r == (*self is Error),
    {
        match self {
            Self::Error(_) => true,
            _ => false,
        }
    }

    /// Whether the exit is an explicit revert.
    pub fn is_revert(&self) -> (r: bool)
        ensures
            r == (*self is Revert),
    {
        match self {
            Self::Revert(_) => true,
            _ => false,
        }
    }

    /// Whether the exit ends the transaction.
    pub fn is_fatal(&self) -> (r: bool)
        ensures
            r == (*self is Fatal),
    {
        match self {
            Self::Fatal(_) => true,
            _ => false,
        }
    }
}

/// The name of a kind of exit, as the host reports it.
pub trait ToStr: Sized {
    /// The name, as a sequence of characters.
    closed spec fn name(self) -> Seq<char> {
        arbitrary()
    }

    fn to_str(self) -> (r: &'static str)
        ensures
            r@ == self.name(),
    ;
}

impl ToStr for ExitError {
    open spec fn name(self) -> Seq<char> {
        match self {
            ExitError::StackUnderflow => "StackUnderflow"@,
            ExitError::StackOverflow => "StackOverflow"@,
            ExitError::InvalidJump => "InvalidJump"@,
            ExitError::InvalidRange => "InvalidRange"@,
            ExitError::DesignatedInvalid => "DesignatedInvalid"@,
            ExitError::CallTooDeep => "CallTooDeep"@,
            ExitError::CreateCollision => "CreateCollision"@,
            ExitError::CreateContractLimit => "CreateContractLimit"@,
            ExitError::OutOfOffset => "OutOfOffset"@,
            ExitError::OutOfGas => "OutOfGas"@,
            ExitError::OutOfFund => "OutOfFund"@,
            ExitError::PCUnderflow => "PCUnderflow"@,
            ExitError::CreateEmpty => "CreateEmpty"@,
            ExitError::Other(_) => "Other"@,
        }
    }

    fn to_str(self) -> (r: &'static str) {
        match self {
            ExitError::StackUnderflow => "StackUnderflow",
            ExitError::StackOverflow => "StackOverflow",
            ExitError::InvalidJump => "InvalidJump",
            ExitError::InvalidRange => "InvalidRange",
            ExitError::DesignatedInvalid => "DesignatedInvalid",
            ExitError::CallTooDeep => "CallTooDeep",
            ExitError::CreateCollision => "CreateCollision",
            ExitError::CreateContractLimit => "CreateContractLimit",
            ExitError::OutOfOffset => "OutOfOffset",
            ExitError::OutOfGas => "OutOfGas",
            ExitError::OutOfFund => "OutOfFund",
            ExitError::PCUnderflow => "PCUnderflow",
            ExitError::CreateEmpty => "CreateEmpty",
            ExitError::Other(_) => "Other",
        }
    }
}

impl ToStr for ExitFatal {
    open spec fn name(self) -> Seq<char> {
        match self {
            ExitFatal::NotSupported => "NotSupported"@,
            ExitFatal::UnhandledInterrupt => "UnhandledInterrupt"@,
            ExitFatal::CallErrorAsFatal(_) => "CallErrorAsFatal"@,
            ExitFatal::Other(_) => "Other"@,
        }
    }

    fn to_str(self) -> (r: &'static str) {
        match self {
            ExitFatal::NotSupported => "NotSupported",
            ExitFatal::UnhandledInterrupt => "UnhandledInterrupt",
            ExitFatal::CallErrorAsFatal(_) => "CallErrorAsFatal",
            ExitFatal::Other(_) => "Other",
        }
    }
}

impl From<ExitSucceed> for ExitReason {
    fn from(s: ExitSucceed) -> (r: Self) {
        ExitReason::Succeed(s)
    }
}

impl vstd::std_specs::convert::FromSpecImpl<ExitSucceed> for ExitReason {
    open spec fn obeys_from_spec() -> bool {
        true
    }

    open spec fn from_spec(s: ExitSucceed) -> Self {
        ExitReason::Succeed(s)
    }
}

impl From<ExitRevert> for ExitReason {
    fn from(s: ExitRevert) -> (r: Self) {
        ExitReason::Revert(s)
    }
}

impl vstd::std_specs::convert::FromSpecImpl<ExitRevert> for ExitReason {
    open spec fn obeys_from_spec() -> bool {
        true
    }

    open spec fn from_spec(s: ExitRevert) -> Self {
        ExitReason::Revert(s)
    }
}

impl From<ExitError> for ExitReason {
    fn from(s: ExitError) -> (r: Self) {
        ExitReason::Error(s)
    }
}

impl vstd::std_specs::convert::FromSpecImpl<ExitError> for ExitReason {
    open spec fn obeys_from_spec() -> bool {
        true
    }

    open spec fn from_spec(s: ExitError) -> Self {
        ExitReason::Error(s)
    }
}

impl From<ExitFatal> for ExitReason {
    fn from(s: ExitFatal) -> (r: Self) {
        ExitReason::Fatal(s)
    }
}

impl vstd::std_specs::convert::FromSpecImpl<ExitFatal> for ExitReason {
    open spec fn obeys_from_spec() -> bool {
        true
    }

    open spec fn from_spec(s: ExitFatal) -> Self {
        ExitReason::Fatal(s)
    }
}

} // verus!
