//! The opcode table: which byte is which operation, and which operations the
//! machine performs itself.

use vstd::prelude::*;

verus! {

/// The JUMPDEST opcode, the only legal jump target.
pub const JUMPDEST: u8 = 0x5b;

/// Operations that a machine performs on its own stack, memory, code and
/// call data.
#[derive(Clone, Copy, Debug, PartialEq, Eq, Structural)]
pub enum Opcode {
    /// `STOP`
    Stop,
    /// `ADD`
    Add,
    /// `MUL`
    Mul,
    /// `SUB`
    Sub,
    /// `DIV`
    Div,
    /// `SDIV`
    SDiv,
    /// `MOD`
    Mod,
    /// `SMOD`
    SMod,
    /// `ADDMOD`
    AddMod,
    /// `MULMOD`
    MulMod,
    /// `EXP`
    Exp,
    /// `SIGNEXTEND`
    SignExtend,
    /// `LT`
    Lt,
    /// `GT`
    Gt,
    /// `SLT`
    SLt,
    /// `SGT`
    SGt,
    /// `EQ`
    Eq,
    /// `ISZERO`
    IsZero,
    /// `AND`
    And,
    /// `OR`
    Or,
    /// `XOR`
    Xor,
    /// `NOT`
    Not,
    /// `BYTE`
    Byte,
    /// `SHL`
    Shl,
    /// `SHR`
    Shr,
    /// `SAR`
    Sar,
    /// `CALLDATALOAD`
    CallDataLoad,
    /// `CALLDATASIZE`
    CallDataSize,
    /// `CALLDATACOPY`
    CallDataCopy,
    /// `CODESIZE`
    CodeSize,
    /// `CODECOPY`
    CodeCopy,
    /// `POP`
    Pop,
    /// `MLOAD`
    MLoad,
    /// `MSTORE`
    MStore,
    /// `MSTORE8`
    MStore8,
    /// `JUMP`
    Jump,
    /// `JUMPI`
    JumpI,
    /// `PC`
    PC,
    /// `MSIZE`
    MSize,
    /// `JUMPDEST`
    JumpDest,
    /// `RETURN`
    Return,
    /// `REVERT`
    Revert,
    /// `INVALID`
    Invalid,
    /// `PUSHn`, with `n` in 1..=32.
    Push(u8),
    /// `DUPn`, with `n` in 1..=16.
    Dup(u8),
    /// `SWAPn`, with `n` in 1..=16.
    Swap(u8),
}

/// Operations that need the world outside the machine: the call context, the
/// account state, the block. A machine that meets one traps.
#[derive(Clone, Copy, Debug, PartialEq, Eq, Structural)]
pub enum ExternalOpcode {
    /// `SHA3`
    Sha3,
    /// `ADDRESS`
    Address,
    /// `BALANCE`
    Balance,
    /// `ORIGIN`
    Origin,
    /// `CALLER`
    Caller,
    /// `CALLVALUE`
    CallValue,
    /// `GASPRICE`
    GasPrice,
    /// `EXTCODESIZE`
    ExtCodeSize,
    /// `EXTCODECOPY`
    ExtCodeCopy,
    /// `RETURNDATASIZE`
    ReturnDataSize,
    /// `RETURNDATACOPY`
    ReturnDataCopy,
    /// `EXTCODEHASH`
    ExtCodeHash,
    /// `BLOCKHASH`
    BlockHash,
    /// `COINBASE`
    Coinbase,
    /// `TIMESTAMP`
    Timestamp,
    /// `NUMBER`
    Number,
    /// `DIFFICULTY`
    Difficulty,
    /// `GASLIMIT`
    GasLimit,
    /// `CHAINID`
    ChainId,
    /// `SELFBALANCE`
    SelfBalance,
    /// `SLOAD`
    SLoad,
    /// `SSTORE`
    SStore,
    /// `GAS`
    Gas,
    /// `CREATE`
    Create,
    /// `CALL`
    Call,
    /// `CALLCODE`
    CallCode,
    /// `DELEGATECALL`
    DelegateCall,
    /// `CREATE2`
    Create2,
    /// `STATICCALL`
    StaticCall,
    /// `SUICIDE`
    Suicide,
    /// `LOGn`, with `n` in 0..=4.
    Log(u8),
    /// A byte that names no operation.
    Other(u8),
}

impl Opcode {
    /// The operation that `byte` names: `Ok` for one the machine performs
    /// itself, `Err` for one that traps.
    pub open spec fn spec_parse(byte: u8) -> Result<Opcode, ExternalOpcode> {
        if byte == 0x00 {
            Ok(Opcode::Stop)
        } else if byte == 0x01 {
            Ok(Opcode::Add)
        } else if byte == 0x02 {
            Ok(Opcode::Mul)
        } else if byte == 0x03 {
            Ok(Opcode::Sub)
        } else if byte == 0x04 {
            Ok(Opcode::Div)
        } else if byte == 0x05 {
            Ok(Opcode::SDiv)
        } else if byte == 0x06 {
            Ok(Opcode::Mod)
        } else if byte == 0x07 {
            Ok(Opcode::SMod)
        } else if byte == 0x08 {
            Ok(Opcode::AddMod)
        } else if byte == 0x09 {
            Ok(Opcode::MulMod)
        } else if byte == 0x0a {
            Ok(Opcode::Exp)
        } else if byte == 0x0b {
            Ok(Opcode::SignExtend)
        } else if byte == 0x10 {
            Ok(Opcode::Lt)
        } else if byte == 0x11 {
            Ok(Opcode::Gt)
        } else if byte == 0x12 {
            Ok(Opcode::SLt)
        } else if byte == 0x13 {
            Ok(Opcode::SGt)
        } else if byte == 0x14 {
            Ok(Opcode::Eq)
        } else if byte == 0x15 {
            Ok(Opcode::IsZero)
        } else if byte == 0x16 {
            Ok(Opcode::And)
        } else if byte == 0x17 {
            Ok(Opcode::Or)
        } else if byte == 0x18 {
            Ok(Opcode::Xor)
        } else if byte == 0x19 {
            Ok(Opcode::Not)
        } else if byte == 0x1a {
            Ok(Opcode::Byte)
        } else if byte == 0x1b {
            Ok(Opcode::Shl)
        } else if byte == 0x1c {
            Ok(Opcode::Shr)
        } else if byte == 0x1d {
            Ok(Opcode::Sar)
        } else if byte == 0x35 {
            Ok(Opcode::CallDataLoad)
        } else if byte == 0x36 {
            Ok(Opcode::CallDataSize)
        } else if byte == 0x37 {
            Ok(Opcode::CallDataCopy)
        } else if byte == 0x38 {
            Ok(Opcode::CodeSize)
        } else if byte == 0x39 {
            Ok(Opcode::CodeCopy)
        } else if byte == 0x50 {
            Ok(Opcode::Pop)
        } else if byte == 0x51 {
            Ok(Opcode::MLoad)
        } else if byte == 0x52 {
            Ok(Opcode::MStore)
        } else if byte == 0x53 {
            Ok(Opcode::MStore8)
        } else if byte == 0x56 {
            Ok(Opcode::Jump)
        } else if byte == 0x57 {
            Ok(Opcode::JumpI)
        } else if byte == 0x58 {
            Ok(Opcode::PC)
        } else if byte == 0x59 {
            Ok(Opcode::MSize)
        } else if byte == 0x5b {
            Ok(Opcode::JumpDest)
        } else if byte == 0xf3 {
            Ok(Opcode::Return)
        } else if byte == 0xfd {
            Ok(Opcode::Revert)
        } else if byte == 0xfe {
            Ok(Opcode::Invalid)
        } else if 0x60 <= byte <= 0x7f {
            Ok(Opcode::Push((byte - 0x5f) as u8))
        } else if 0x80 <= byte <= 0x8f {
            Ok(Opcode::Dup((byte - 0x7f) as u8))
        } else if 0x90 <= byte <= 0x9f {
            Ok(Opcode::Swap((byte - 0x8f) as u8))
        } else if byte == 0x20 {
            Err(ExternalOpcode::Sha3)
        } else if byte == 0x30 {
            Err(ExternalOpcode::Address)
        } else if byte == 0x31 {
            Err(ExternalOpcode::Balance)
        } else if byte == 0x32 {
            Err(ExternalOpcode::Origin)
        } else if byte == 0x33 {
            Err(ExternalOpcode::Caller)
        } else if byte == 0x34 {
            Err(ExternalOpcode::CallValue)
        } else if byte == 0x3a {
            Err(ExternalOpcode::GasPrice)
        } else if byte == 0x3b {
            Err(ExternalOpcode::ExtCodeSize)
        } else if byte == 0x3c {
            Err(ExternalOpcode::ExtCodeCopy)
        } else if byte == 0x3d {
            Err(ExternalOpcode::ReturnDataSize)
        } else if byte == 0x3e {
            Err(ExternalOpcode::ReturnDataCopy)
        } else if byte == 0x3f {
            Err(ExternalOpcode::ExtCodeHash)
        } else if byte == 0x40 {
            Err(ExternalOpcode::BlockHash)
        } else if byte == 0x41 {
            Err(ExternalOpcode::Coinbase)
        } else if byte == 0x42 {
            Err(ExternalOpcode::Timestamp)
        } else if byte == 0x43 {
            Err(ExternalOpcode::Number)
        } else if byte == 0x44 {
            Err(ExternalOpcode::Difficulty)
        } else if byte == 0x45 {
            Err(ExternalOpcode::GasLimit)
        } else if byte == 0x46 {
            Err(ExternalOpcode::ChainId)
        } else if byte == 0x47 {
            Err(ExternalOpcode::SelfBalance)
        } else if byte == 0x54 {
            Err(ExternalOpcode::SLoad)
        } else if byte == 0x55 {
            Err(ExternalOpcode::SStore)
        } else if byte == 0x5a {
            Err(ExternalOpcode::Gas)
        } else if byte == 0xf0 {
            Err(ExternalOpcode::Create)
        } else if byte == 0xf1 {
            Err(ExternalOpcode::Call)
        } else if byte == 0xf2 {
            Err(ExternalOpcode::CallCode)
        } else if byte == 0xf4 {
            Err(ExternalOpcode::DelegateCall)
        } else if byte == 0xf5 {
            Err(ExternalOpcode::Create2)
        } else if byte == 0xfa {
            Err(ExternalOpcode::StaticCall)
        } else if byte == 0xff {
            Err(ExternalOpcode::Suicide)
        } else if 0xa0 <= byte <= 0xa4 {
            Err(ExternalOpcode::Log((byte - 0xa0) as u8))
        } else {
            Err(ExternalOpcode::Other(byte))
        }
    }

    /// The number of immediate bytes that follow the opcode `byte` in code:
    /// `n` for `PUSHn`, 0 for every other byte.
    pub open spec fn spec_push_len(byte: u8) -> nat {
        if 0x60 <= byte <= 0x7f {
            (byte - 0x5f) as nat
        } else {
            0
        }
    }

    /// Classifies a byte of code.
    #[verifier::when_used_as_spec(spec_parse)]
    pub fn parse(byte: u8) -> (r: Result<Opcode, ExternalOpcode>)
        ensures
            r == Opcode::spec_parse(byte),
    {
        match byte {
            0x00 => Ok(Opcode::Stop),
            0x01 => Ok(Opcode::Add),
            0x02 => Ok(Opcode::Mul),
            0x03 => Ok(Opcode::Sub),
            0x04 => Ok(Opcode::Div),
            0x05 => Ok(Opcode::SDiv),
            0x06 => Ok(Opcode::Mod),
            0x07 => Ok(Opcode::SMod),
            0x08 => Ok(Opcode::AddMod),
            0x09 => Ok(Opcode::MulMod),
            0x0a => Ok(Opcode::Exp),
            0x0b => Ok(Opcode::SignExtend),
            0x10 => Ok(Opcode::Lt),
            0x11 => Ok(Opcode::Gt),
            0x12 => Ok(Opcode::SLt),
            0x13 => Ok(Opcode::SGt),
            0x14 => Ok(Opcode::Eq),
            0x15 => Ok(Opcode::IsZero),
            0x16 => Ok(Opcode::And),
            0x17 => Ok(Opcode::Or),
            0x18 => Ok(Opcode::Xor),
            0x19 => Ok(Opcode::Not),
            0x1a => Ok(Opcode::Byte),
            0x1b => Ok(Opcode::Shl),
            0x1c => Ok(Opcode::Shr),
            0x1d => Ok(Opcode::Sar),
            0x35 => Ok(Opcode::CallDataLoad),
            0x36 => Ok(Opcode::CallDataSize),
            0x37 => Ok(Opcode::CallDataCopy),
            0x38 => Ok(Opcode::CodeSize),
            0x39 => Ok(Opcode::CodeCopy),
            0x50 => Ok(Opcode::Pop),
            0x51 => Ok(Opcode::MLoad),
            0x52 => Ok(Opcode::MStore),
            0x53 => Ok(Opcode::MStore8),
            0x56 => Ok(Opcode::Jump),
            0x57 => Ok(Opcode::JumpI),
            0x58 => Ok(Opcode::PC),
            0x59 => Ok(Opcode::MSize),
            0x5b => Ok(Opcode::JumpDest),
            0xf3 => Ok(Opcode::Return),
            0xfd => Ok(Opcode::Revert),
            0xfe => Ok(Opcode::Invalid),
            0x60..=0x7f => Ok(Opcode::Push((byte - 0x5f) as u8)),
            0x80..=0x8f => Ok(Opcode::Dup((byte - 0x7f) as u8)),
            0x90..=0x9f => Ok(Opcode::Swap((byte - 0x8f) as u8)),
            0x20 => Err(ExternalOpcode::Sha3),
            0x30 => Err(ExternalOpcode::Address),
            0x31 => Err(ExternalOpcode::Balance),
            0x32 => Err(ExternalOpcode::Origin),
            0x33 => Err(ExternalOpcode::Caller),
            0x34 => Err(ExternalOpcode::CallValue),
            0x3a => Err(ExternalOpcode::GasPrice),
            0x3b => Err(ExternalOpcode::ExtCodeSize),
            0x3c => Err(ExternalOpcode::ExtCodeCopy),
            0x3d => Err(ExternalOpcode::ReturnDataSize),
            0x3e => Err(ExternalOpcode::ReturnDataCopy),
            0x3f => Err(ExternalOpcode::ExtCodeHash),
            0x40 => Err(ExternalOpcode::BlockHash),
            0x41 => Err(ExternalOpcode::Coinbase),
            0x42 => Err(ExternalOpcode::Timestamp),
            0x43 => Err(ExternalOpcode::Number),
            0x44 => Err(ExternalOpcode::Difficulty),
            0x45 => Err(ExternalOpcode::GasLimit),
            0x46 => Err(ExternalOpcode::ChainId),
            0x47 => Err(ExternalOpcode::SelfBalance),
            0x54 => Err(ExternalOpcode::SLoad),
            0x55 => Err(ExternalOpcode::SStore),
            0x5a => Err(ExternalOpcode::Gas),
            0xf0 => Err(ExternalOpcode::Create),
            0xf1 => Err(ExternalOpcode::Call),
            0xf2 => Err(ExternalOpcode::CallCode),
            0xf4 => Err(ExternalOpcode::DelegateCall),
            0xf5 => Err(ExternalOpcode::Create2),
            0xfa => Err(ExternalOpcode::StaticCall),
            0xff => Err(ExternalOpcode::Suicide),
            0xa0..=0xa4 => Err(ExternalOpcode::Log((byte - 0xa0) as u8)),
            _ => Err(ExternalOpcode::Other(byte)),
        }
    }

    /// `Some(n)` where `byte` is `PUSHn`.
    pub fn is_push(byte: u8) -> (r: Option<u8>)
        ensures
            r is Some <==> 0x60 <= byte <= 0x7f,
            r is Some ==> r->0 == Opcode::spec_push_len(byte) && 1 <= r->0 <= 32,
            r is None ==> Opcode::spec_push_len(byte) == 0,
    {
        if byte >= 0x60 && byte <= 0x7f {
            Some(byte - 0x5f)
        } else {
            None
        }
    }
}

} // verus!
