use std::collections::HashMap;

use near_evm::address::Address;
use near_evm::backend::{Apply, ApplyBackend, Backend, Basic, Log, NoPrecompiles, PrecompileResult, PrecompileSet};
use near_evm::config::Config;
use near_evm::context::Context;
use near_evm::error::{ExitError, ExitReason, ExitSucceed};
use near_evm::executor::StackExecutor;
use near_evm::runner::Runner;
use near_evm::types::{bytes_to_hex, log_to_bytes, FunctionCallArgs};
use near_evm::word::Word;

pub struct TestBackend {
    pub origin: Address,
    pub timestamp: Word,
    pub accounts: HashMap<Address, Basic>,
    pub codes: HashMap<Address, Vec<u8>>,
    pub storages: HashMap<Address, HashMap<Word, Word>>,
    pub logs: Vec<Vec<u8>>,
}

impl TestBackend {
    pub fn new(origin: Address) -> Self {
        Self {
            origin,
            timestamp: Word::zero(),
            accounts: Default::default(),
            codes: Default::default(),
            storages: Default::default(),
            logs: Default::default(),
        }
    }
}

impl Backend for TestBackend {
    fn gas_left(&self) -> Word {
        Word::zero()
    }

    fn gas_price(&self) -> Word {
        Word::zero()
    }

    fn origin(&self) -> Address {
        self.origin
    }

    fn block_hash(&self, _number: Word) -> Word {
        Word::zero()
    }

    fn block_number(&self) -> Word {
        Word::from_u64(12)
    }

    fn block_coinbase(&self) -> Address {
        Address::zero()
    }

    fn block_timestamp(&self) -> Word {
        self.timestamp
    }

    fn block_difficulty(&self) -> Word {
        Word::zero()
    }

    fn block_gas_limit(&self) -> Word {
        Word::zero()
    }

    fn chain_id(&self) -> Word {
        Word::from_u64(5)
    }

    fn account_exists(&self, address: Address) -> bool {
        self.accounts.contains_key(&address)
    }

    fn basic(&self, address: Address) -> Basic {
        self.accounts.get(&address).copied().unwrap_or(Basic::empty())
    }

    fn code_hash(&self, _address: Address) -> Word {
        Word::zero()
    }

    fn code_size(&self, address: Address) -> usize {
        self.codes.get(&address).map(|c| c.len()).unwrap_or(0)
    }

    fn code(&self, address: Address) -> Vec<u8> {
        self.codes.get(&address).cloned().unwrap_or_default()
    }

    fn storage(&self, address: Address, index: Word) -> Word {
        self.storages.get(&address).and_then(|s| s.get(&index).copied()).unwrap_or(Word::zero())
    }
}

impl ApplyBackend for TestBackend {
    fn apply(&mut self, values: Vec<Apply>, logs: Vec<Log>, _delete_empty: bool) {
        for value in values {
            match value {
                Apply::Modify { address, basic, code, storage, reset_storage } => {
                    self.accounts.insert(address, basic);
                    if let Some(code) = code {
                        self.codes.insert(address, code);
                    }
                    let slots = self.storages.entry(address).or_default();
                    if reset_storage {
                        slots.clear();
                    }
                    for (index, value) in storage {
                        slots.insert(index, value);
                    }
                }
                Apply::Delete { address } => {
                    self.accounts.remove(&address);
                    self.codes.remove(&address);
                    self.storages.remove(&address);
                }
            }
        }
        for log in logs {
            self.logs.push(bytes_to_hex(&log_to_bytes(log)).into_bytes());
        }
    }
}

/// A resolver with the identity precompile at address 4.
struct Identity;

impl PrecompileSet for Identity {
    fn resolve(&self, address: Address, input: &[u8], _context: &Context) -> PrecompileResult {
        if address == (Address { a2: 0, a1: 0, a0: 4 }) {
            Some(Ok((ExitSucceed::Returned, input.to_vec())))
        } else if address == (Address { a2: 0, a1: 0, a0: 5 }) {
            Some(Err(ExitError::OutOfGas))
        } else {
            None
        }
    }
}

fn addr(n: u64) -> Address {
    Address { a2: 0, a1: 0, a0: n }
}

#[test]
fn the_runner_works_over_a_backend_of_the_caller() {
    let origin = addr(1);
    let a = addr(0xa);
    let mut backend = TestBackend::new(origin);
    // NUMBER, PUSH1 0, SSTORE, CHAINID, PUSH1 1, SSTORE, PUSH1 0, PUSH1 0, LOG0, STOP
    backend.codes.insert(a, vec![0x43, 0x60, 0x00, 0x55, 0x46, 0x60, 0x01, 0x55, 0x60, 0x00, 0x60, 0x00, 0xa0, 0x00]);
    let (reason, out) = Runner::call(&mut backend, FunctionCallArgs { contract: a.to_bytes(), input: vec![] });
    assert_eq!(reason, ExitReason::Succeed(ExitSucceed::Stopped));
    assert_eq!(out, Vec::<u8>::new());
    assert_eq!(backend.storage(a, Word::zero()), Word::from_u64(12));
    assert_eq!(backend.storage(a, Word::one()), Word::from_u64(5));
    assert_eq!(backend.basic(origin).nonce, Word::one());
    assert_eq!(backend.logs, vec![b"00".to_vec()]);
}

#[test]
fn a_precompile_takes_the_place_of_the_code() {
    let origin = addr(1);
    let backend = TestBackend::new(origin);
    let mut executor = StackExecutor::new_with_precompile(&backend, Config::istanbul(), Identity);
    let (reason, out) = executor.transact_call(origin, addr(4), Word::zero(), vec![1, 2, 3]);
    assert_eq!(reason, ExitReason::Succeed(ExitSucceed::Returned));
    assert_eq!(out, vec![1, 2, 3]);
    let (reason, out) = executor.transact_call(origin, addr(5), Word::zero(), vec![1, 2, 3]);
    assert_eq!(reason, ExitReason::Error(ExitError::OutOfGas));
    assert_eq!(out, Vec::<u8>::new());
    let mut plain = StackExecutor::new_with_precompile(&backend, Config::istanbul(), NoPrecompiles {});
    let (reason, out) = plain.transact_call(origin, addr(4), Word::zero(), vec![1, 2, 3]);
    assert_eq!(reason, ExitReason::Succeed(ExitSucceed::Stopped));
    assert_eq!(out, Vec::<u8>::new());
    assert_eq!(near_evm::backend::precompiles(addr(4), &[1], &Context { address: origin, caller: origin, apparent_value: Word::zero() }), None);
}
