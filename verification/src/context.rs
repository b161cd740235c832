//! Who calls whom, with what value.

use crate::address::Address;
use crate::word::Word;
use vstd::prelude::*;

verus! {

/// The context of one call frame.
#[derive(Clone, Copy, Debug, PartialEq, Eq, Structural)]
pub struct Context {
    /// The account whose storage and balance the code works on.
    pub address: Address,
    /// The account that the code sees as its caller.
    pub caller: Address,
    /// The value that the code sees as sent with the call.
    pub apparent_value: Word,
}

/// How the address of a new contract is chosen.
#[derive(Clone, Copy, Debug, PartialEq, Eq, Structural)]
pub enum CreateScheme {
    /// From the creator and its nonce.
    Legacy { caller: Address },
    /// From the creator, a salt and the hash of the init code.
    Create2 { caller: Address, code_hash: Word, salt: Word },
    /// The given address.
    Fixed(Address),
}

/// The kinds of call.
#[derive(Clone, Copy, Debug, PartialEq, Eq, Structural)]
pub enum CallScheme {
    /// `CALL`
    Call,
    /// `CALLCODE`
    CallCode,
    /// `DELEGATECALL`
    DelegateCall,
    /// `STATICCALL`
    StaticCall,
}

/// A movement of value from one account to another.
#[derive(Clone, Copy, Debug, PartialEq, Eq, Structural)]
pub struct Transfer {
    /// The account that pays.
    pub source: Address,
    /// The account that receives.
    pub target: Address,
    /// The amount.
    pub value: Word,
}

} // verus!
