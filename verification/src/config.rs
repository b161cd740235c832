//! Per-hardfork policy.

use crate::opcode::{ExternalOpcode, Opcode};
use vstd::prelude::*;

verus! {

/// The tunables of one hard fork. The gas figures are carried for a metering
/// layer; the interpreter and the executor consult the limits and the flags
/// that guard behaviour.
#[derive(Clone, Copy, Debug)]
pub struct Config {
    /// Gas paid for extcode.
    pub gas_ext_code: usize,
    /// Gas paid for extcodehash.
    pub gas_ext_code_hash: usize,
    /// Gas paid for sstore set.
    pub gas_sstore_set: usize,
    /// Gas paid for sstore reset.
    pub gas_sstore_reset: usize,
    /// Gas refunded when sstore clears a slot.
    pub refund_sstore_clears: isize,
    /// Gas paid for BALANCE.
    pub gas_balance: usize,
    /// Gas paid for SLOAD.
    pub gas_sload: usize,
    /// Gas paid for SELFDESTRUCT.
    pub gas_suicide: usize,
    /// Gas paid for SELFDESTRUCT when it hits a new account.
    pub gas_suicide_new_account: usize,
    /// Gas paid for CALL.
    pub gas_call: usize,
    /// Gas paid for EXP for every byte.
    pub gas_expbyte: usize,
    /// Gas paid for a contract creation transaction.
    pub gas_transaction_create: usize,
    /// Gas paid for a message call transaction.
    pub gas_transaction_call: usize,
    /// Gas paid for zero data in a transaction.
    pub gas_transaction_zero_data: usize,
    /// Gas paid for non-zero data in a transaction.
    pub gas_transaction_non_zero_data: usize,
    /// Net gas metering for SSTORE.
    pub sstore_gas_metering: bool,
    /// SSTORE fails under the call stipend.
    pub sstore_revert_under_stipend: bool,
    /// Whether a call that asks for more gas than there is fails.
    pub err_on_call_with_more_gas: bool,
    /// Whether a call keeps one 64th of the gas.
    pub call_l64_after_gas: bool,
    /// Whether an empty account is considered to exist.
    pub empty_considered_exists: bool,
    /// Whether creation increases the nonce of the created account by one.
    pub create_increase_nonce: bool,
    /// Stack limit.
    pub stack_limit: usize,
    /// Memory limit.
    pub memory_limit: usize,
    /// Call stack limit.
    pub call_stack_limit: usize,
    /// The most bytes the code of a created contract may have.
    pub create_contract_limit: Option<usize>,
    /// Call stipend.
    pub call_stipend: usize,
    /// Has DELEGATECALL.
    pub has_delegate_call: bool,
    /// Has CREATE2.
    pub has_create2: bool,
    /// Has REVERT.
    pub has_revert: bool,
    /// Has RETURNDATASIZE and RETURNDATACOPY.
    pub has_return_data: bool,
    /// Has SHL, SHR and SAR.
    pub has_bitwise_shifting: bool,
    /// Has CHAINID.
    pub has_chain_id: bool,
    /// Has SELFBALANCE.
    pub has_self_balance: bool,
    /// Has EXTCODEHASH.
    pub has_ext_code_hash: bool,
    /// Whether gas is only estimated.
    pub estimate: bool,
}

impl Config {
    /// The Frontier figures.
    pub open spec fn spec_frontier() -> Config {
        Config {
            gas_ext_code: 20,
            gas_ext_code_hash: 20,
            gas_sstore_set: 20000,
            gas_sstore_reset: 5000,
            refund_sstore_clears: 15000,
            gas_balance: 20,
            gas_sload: 50,
            gas_suicide: 0,
            gas_suicide_new_account: 0,
            gas_call: 40,
            gas_expbyte: 10,
            gas_transaction_create: 21000,
            gas_transaction_call: 21000,
            gas_transaction_zero_data: 4,
            gas_transaction_non_zero_data: 68,
            sstore_gas_metering: false,
            sstore_revert_under_stipend: false,
            err_on_call_with_more_gas: true,
            call_l64_after_gas: false,
            empty_considered_exists: true,
            create_increase_nonce: false,
            stack_limit: 1024,
            memory_limit: usize::MAX,
            call_stack_limit: 1024,
            create_contract_limit: None,
            call_stipend: 2300,
            has_delegate_call: false,
            has_create2: false,
            has_revert: false,
            has_return_data: false,
            has_bitwise_shifting: false,
            has_chain_id: false,
            has_self_balance: false,
            has_ext_code_hash: false,
            estimate: false,
        }
    }

    /// The Istanbul figures.
    pub open spec fn spec_istanbul() -> Config {
        Config {
            gas_ext_code: 700,
            gas_ext_code_hash: 700,
            gas_sstore_set: 20000,
            gas_sstore_reset: 5000,
            refund_sstore_clears: 15000,
            gas_balance: 700,
            gas_sload: 800,
            gas_suicide: 5000,
            gas_suicide_new_account: 25000,
            gas_call: 700,
            gas_expbyte: 50,
            gas_transaction_create: 53000,
            gas_transaction_call: 21000,
            gas_transaction_zero_data: 4,
            gas_transaction_non_zero_data: 16,
            sstore_gas_metering: true,
            sstore_revert_under_stipend: true,
            err_on_call_with_more_gas: false,
            call_l64_after_gas: true,
            empty_considered_exists: false,
            create_increase_nonce: false,
            stack_limit: 1024,
            memory_limit: usize::MAX,
            call_stack_limit: 1024,
            create_contract_limit: Some(0x6000),
            call_stipend: 2300,
            has_delegate_call: true,
            has_create2: true,
            has_revert: true,
            has_return_data: true,
            has_bitwise_shifting: true,
            has_chain_id: true,
            has_self_balance: true,
            has_ext_code_hash: true,
            estimate: false,
        }
    }

    /// Whether the fork has the operation.
    pub open spec fn spec_supports(&self, opcode: Result<Opcode, ExternalOpcode>) -> bool {
        match opcode {
            Ok(Opcode::Revert) => self.has_revert,
            Ok(Opcode::Shl) | Ok(Opcode::Shr) | Ok(Opcode::Sar) => self.has_bitwise_shifting,
            Err(ExternalOpcode::ReturnDataSize) | Err(ExternalOpcode::ReturnDataCopy) => self.has_return_data,
            Err(ExternalOpcode::DelegateCall) => self.has_delegate_call,
            Err(ExternalOpcode::Create2) => self.has_create2,
            Err(ExternalOpcode::ChainId) => self.has_chain_id,
            Err(ExternalOpcode::SelfBalance) => self.has_self_balance,
            Err(ExternalOpcode::ExtCodeHash) => self.has_ext_code_hash,
            _ => true,
        }
    }

    /// Frontier hard fork configuration.
    #[verifier::when_used_as_spec(spec_frontier)]
    pub fn frontier() -> (r: Config)
        ensures
            r == Config::spec_frontier(),
    {
        Config {
            gas_ext_code: 20,
            gas_ext_code_hash: 20,
            gas_sstore_set: 20000,
            gas_sstore_reset: 5000,
            refund_sstore_clears: 15000,
            gas_balance: 20,
            gas_sload: 50,
            gas_suicide: 0,
            gas_suicide_new_account: 0,
            gas_call: 40,
            gas_expbyte: 10,
            gas_transaction_create: 21000,
            gas_transaction_call: 21000,
            gas_transaction_zero_data: 4,
            gas_transaction_non_zero_data: 68,
            sstore_gas_metering: false,
            sstore_revert_under_stipend: false,
            err_on_call_with_more_gas: true,
            call_l64_after_gas: false,
            empty_considered_exists: true,
            create_increase_nonce: false,
            stack_limit: 1024,
            memory_limit: usize::MAX,
            call_stack_limit: 1024,
            create_contract_limit: None,
            call_stipend: 2300,
            has_delegate_call: false,
            has_create2: false,
            has_revert: false,
            has_return_data: false,
            has_bitwise_shifting: false,
            has_chain_id: false,
            has_self_balance: false,
            has_ext_code_hash: false,
            estimate: false,
        }
    }

    /// Istanbul hard fork configuration.
    #[verifier::when_used_as_spec(spec_istanbul)]
    pub fn istanbul() -> (r: Config)
        ensures
            r == Config::spec_istanbul(),
    {
        Config {
            gas_ext_code: 700,
            gas_ext_code_hash: 700,
            gas_sstore_set: 20000,
            gas_sstore_reset: 5000,
            refund_sstore_clears: 15000,
            gas_balance: 700,
            gas_sload: 800,
            gas_suicide: 5000,
            gas_suicide_new_account: 25000,
            gas_call: 700,
            gas_expbyte: 50,
            gas_transaction_create: 53000,
            gas_transaction_call: 21000,
            gas_transaction_zero_data: 4,
            gas_transaction_non_zero_data: 16,
            sstore_gas_metering: true,
            sstore_revert_under_stipend: true,
            err_on_call_with_more_gas: false,
            call_l64_after_gas: true,
            empty_considered_exists: false,
            create_increase_nonce: false,
            stack_limit: 1024,
            memory_limit: usize::MAX,
            call_stack_limit: 1024,
            create_contract_limit: Some(0x6000),
            call_stipend: 2300,
            has_delegate_call: true,
            has_create2: true,
            has_revert: true,
            has_return_data: true,
            has_bitwise_shifting: true,
            has_chain_id: true,
            has_self_balance: true,
            has_ext_code_hash: true,
            estimate: false,
        }
    }

    /// Whether the fork has the operation.
    #[verifier::when_used_as_spec(spec_supports)]
    pub fn supports(&self, opcode: Result<Opcode, ExternalOpcode>) -> (r: bool)
        ensures
            r == self.spec_supports(opcode),
    {
        match opcode {
            Ok(Opcode::Revert) => self.has_revert,
            Ok(Opcode::Shl) | Ok(Opcode::Shr) | Ok(Opcode::Sar) => self.has_bitwise_shifting,
            Err(ExternalOpcode::ReturnDataSize) | Err(ExternalOpcode::ReturnDataCopy) => self.has_return_data,
            Err(ExternalOpcode::DelegateCall) => self.has_delegate_call,
            Err(ExternalOpcode::Create2) => self.has_create2,
            Err(ExternalOpcode::ChainId) => self.has_chain_id,
            Err(ExternalOpcode::SelfBalance) => self.has_self_balance,
            Err(ExternalOpcode::ExtCodeHash) => self.has_ext_code_hash,
            _ => true,
        }
    }
}

} // verus!
