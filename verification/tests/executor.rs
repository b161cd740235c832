use near_evm::address::Address;
use near_evm::backend::{ApplyBackend, Backend, Basic, NoPrecompiles};
use near_evm::config::Config;
use near_evm::context::{CreateScheme, Transfer};
use near_evm::error::{ExitError, ExitReason, ExitRevert, ExitSucceed};
use near_evm::executor::StackExecutor;
use near_evm::account::StackExitKind;
use near_evm::memory_backend::{MemoryBackend, MemoryVicinity};
use near_evm::runner::{Runner, Transaction};
use near_evm::types::{FunctionCallArgs, ViewCallArgs};
use near_evm::word::Word;

fn addr(n: u64) -> Address {
    Address { a2: 0, a1: 0, a0: n }
}

fn address_from_hex(hex_text: &str) -> Address {
    let bytes = hex::decode(hex_text).unwrap();
    let mut raw = [0u8; 20];
    raw.copy_from_slice(&bytes);
    Address::from_bytes(&raw)
}

fn basic(balance: u64, nonce: u64) -> Basic {
    Basic { balance: Word::from_u64(balance), nonce: Word::from_u64(nonce) }
}

fn backend_with(origin: Address, accounts: Vec<(Address, Basic, Vec<u8>)>) -> MemoryBackend {
    let mut backend = MemoryBackend::new(MemoryVicinity::with_origin(origin));
    for (address, basic, code) in accounts {
        backend.insert_account(address, basic, code, Vec::new());
    }
    backend
}

fn push20(address: Address) -> Vec<u8> {
    let mut code = vec![0x73];
    code.extend_from_slice(&address.to_bytes());
    code
}

fn word_bytes(n: u64) -> Vec<u8> {
    Word::from_u64(n).to_be_vec()
}

#[test]
fn legacy_address_matches_known_vectors() {
    let sender = address_from_hex("6ac7ea33f8831ea9dcc53393aaa88b25a785dbf0");
    let backend = backend_with(sender, vec![(sender, basic(0, 0), vec![])]);
    let executor = StackExecutor::new_with_precompile(&backend, Config::istanbul(), NoPrecompiles {});
    assert_eq!(
        executor.create_address(CreateScheme::Legacy { caller: sender }),
        address_from_hex("cd234a471b72ba2f1ccf0a70fcaba648a5eecd8d")
    );
    let backend = backend_with(sender, vec![(sender, basic(0, 1), vec![])]);
    let executor = StackExecutor::new_with_precompile(&backend, Config::istanbul(), NoPrecompiles {});
    assert_eq!(
        executor.create_address(CreateScheme::Legacy { caller: sender }),
        address_from_hex("343c43a37d37dff08ae8c4a11544c718abb4fcf8")
    );
}

#[test]
fn legacy_address_is_the_same_for_the_same_sender_and_nonce() {
    let sender = addr(77);
    let one = backend_with(sender, vec![(sender, basic(5, 9), vec![])]);
    let other = backend_with(addr(1), vec![(sender, basic(900, 9), vec![1, 2, 3])]);
    let a = StackExecutor::new_with_precompile(&one, Config::istanbul(), NoPrecompiles {});
    let b = StackExecutor::new_with_precompile(&other, Config::frontier(), NoPrecompiles {});
    assert_eq!(
        a.create_address(CreateScheme::Legacy { caller: sender }),
        b.create_address(CreateScheme::Legacy { caller: sender })
    );
}

#[test]
fn create2_address_matches_the_known_vector() {
    let backend = backend_with(Address::zero(), vec![]);
    let executor = StackExecutor::new_with_precompile(&backend, Config::istanbul(), NoPrecompiles {});
    let code_hash = Word::from_be_vec(
        &hex::decode("bc36789e7a1e281436464229828f817d6612f7b477d66591ff96a9e064bcc98a").unwrap(),
    );
    let address = executor.create_address(CreateScheme::Create2 {
        caller: Address::zero(),
        code_hash,
        salt: Word::zero(),
    });
    assert_eq!(address, address_from_hex("4d1a2e2bb4f88f0250f26ffff098b0b30b26bf38"));
    assert_eq!(executor.create_address(CreateScheme::Fixed(addr(5))), addr(5));
}

#[test]
fn create_collision_bumps_the_creator_and_leaves_the_destination() {
    let caller = Address::zero();
    let empty = backend_with(caller, vec![]);
    let destination = StackExecutor::new_with_precompile(&empty, Config::istanbul(), NoPrecompiles {})
        .create_address(CreateScheme::Legacy { caller });
    let backend = backend_with(caller, vec![(destination, basic(0, 0), vec![0x00])]);
    let mut executor = StackExecutor::new_with_precompile(&backend, Config::istanbul(), NoPrecompiles {});
    let reason = executor.transact_create(caller, Word::zero(), vec![0x60, 0x00, 0x60, 0x00, 0xf3]);
    assert_eq!(reason, ExitReason::Error(ExitError::CreateCollision));
    assert_eq!(executor.nonce(caller), Word::one());
    assert_eq!(executor.code(destination), vec![0x00]);
    assert_eq!(executor.nonce(destination), Word::zero());
    assert!(executor.account(destination).is_none());
}

#[test]
fn create_stages_the_returned_code_and_leaves_the_nonce_of_the_new_account() {
    let origin = addr(1);
    let mut backend = backend_with(origin, vec![(origin, basic(0, 0), vec![])]);
    // PUSH1 0xfe, PUSH1 0, MSTORE8, PUSH1 1, PUSH1 0, RETURN: the new code is the single byte 0xfe.
    let init = vec![0x60, 0xfe, 0x60, 0x00, 0x53, 0x60, 0x01, 0x60, 0x00, 0xf3];
    let (reason, address) = Runner::deploy_code(&mut backend, &init);
    assert_eq!(reason, ExitReason::Succeed(ExitSucceed::Returned));
    assert_eq!(backend.code(address), vec![0xfe]);
    assert_eq!(backend.basic(address).nonce, Word::zero());
    assert_eq!(backend.basic(origin).nonce, Word::one());
    assert!(backend.account_exists(address));
}

#[test]
fn create_raises_the_nonce_of_the_new_account_where_the_configuration_asks() {
    let origin = addr(1);
    let backend = backend_with(origin, vec![(origin, basic(0, 0), vec![])]);
    let mut config = Config::istanbul();
    config.create_increase_nonce = true;
    let mut executor = StackExecutor::new_with_precompile(&backend, config, NoPrecompiles {});
    let address = executor.create_address(CreateScheme::Legacy { caller: origin });
    let reason = executor.transact_create(origin, Word::zero(), vec![0x60, 0x00, 0x60, 0x00, 0xf3]);
    assert_eq!(reason, ExitReason::Succeed(ExitSucceed::Returned));
    assert_eq!(executor.nonce(address), Word::one());
    assert_eq!(executor.code(address), Vec::<u8>::new());
}

#[test]
fn create_accepts_code_at_the_limit_and_refuses_one_byte_more() {
    let origin = addr(1);
    let backend = backend_with(origin, vec![(origin, basic(0, 0), vec![])]);
    let mut executor = StackExecutor::new_with_precompile(&backend, Config::istanbul(), NoPrecompiles {});
    let address = executor.create_address(CreateScheme::Legacy { caller: origin });
    // PUSH2 0x6000, PUSH1 0, RETURN
    let reason = executor.transact_create(origin, Word::zero(), vec![0x61, 0x60, 0x00, 0x60, 0x00, 0xf3]);
    assert_eq!(reason, ExitReason::Succeed(ExitSucceed::Returned));
    assert_eq!(executor.code(address).len(), 0x6000);
    // PUSH2 0x6001, PUSH1 0, RETURN
    let reason = executor.transact_create(origin, Word::zero(), vec![0x61, 0x60, 0x01, 0x60, 0x00, 0xf3]);
    assert_eq!(reason, ExitReason::Error(ExitError::CreateContractLimit));
}

#[test]
fn create_without_funds_is_out_of_fund_and_changes_nothing() {
    let origin = addr(1);
    let backend = backend_with(origin, vec![(origin, basic(3, 0), vec![])]);
    let mut executor = StackExecutor::new_with_precompile(&backend, Config::istanbul(), NoPrecompiles {});
    let reason = executor.transact_create(origin, Word::from_u64(4), vec![0x00]);
    assert_eq!(reason, ExitReason::Error(ExitError::OutOfFund));
    assert_eq!(executor.nonce(origin), Word::zero());
    assert!(executor.account(origin).is_none());
}

#[test]
fn delegatecall_writes_the_storage_of_the_caller() {
    let origin = addr(1);
    let a = addr(0xa);
    let b = addr(0xb);
    // B: PUSH1 7, PUSH1 0, SSTORE, STOP
    let code_b = vec![0x60, 0x07, 0x60, 0x00, 0x55, 0x00];
    // A: DELEGATECALL(0, B, 0, 0, 0, 0), STOP
    let mut code_a = vec![0x60, 0x00, 0x60, 0x00, 0x60, 0x00, 0x60, 0x00];
    code_a.extend(push20(b));
    code_a.extend_from_slice(&[0x60, 0x00, 0xf4, 0x00]);
    let mut backend = backend_with(
        origin,
        vec![(origin, basic(0, 0), vec![]), (a, basic(0, 0), code_a), (b, basic(0, 0), code_b)],
    );
    let (reason, _) = Runner::call(&mut backend, FunctionCallArgs { contract: a.to_bytes(), input: vec![] });
    assert_eq!(reason, ExitReason::Succeed(ExitSucceed::Stopped));
    assert_eq!(backend.storage(a, Word::zero()), Word::from_u64(7));
    assert_eq!(backend.storage(b, Word::zero()), Word::zero());
}

#[test]
fn delegatecall_inherits_caller_and_value() {
    let origin = addr(0x99);
    let a = addr(0xa);
    let b = addr(0xb);
    // B: CALLER, PUSH1 0, MSTORE, CALLVALUE, PUSH1 0x20, MSTORE, PUSH1 0x40, PUSH1 0, RETURN
    let code_b = vec![0x33, 0x60, 0x00, 0x52, 0x34, 0x60, 0x20, 0x52, 0x60, 0x40, 0x60, 0x00, 0xf3];
    // A: DELEGATECALL(0, B, 0, 0, 0, 0x40), POP, PUSH1 0x40, PUSH1 0, RETURN
    let mut code_a = vec![0x60, 0x40, 0x60, 0x00, 0x60, 0x00, 0x60, 0x00];
    code_a.extend(push20(b));
    code_a.extend_from_slice(&[0x60, 0x00, 0xf4, 0x50, 0x60, 0x40, 0x60, 0x00, 0xf3]);
    let mut backend = backend_with(
        origin,
        vec![(origin, basic(1000, 0), vec![]), (a, basic(0, 0), code_a), (b, basic(0, 0), code_b)],
    );
    let (reason, out) = Runner::view(
        &mut backend,
        ViewCallArgs {
            sender: origin.to_bytes(),
            address: a.to_bytes(),
            amount: Word::from_u64(5).to_big_endian(),
            input: vec![],
        },
    );
    assert_eq!(reason, ExitReason::Succeed(ExitSucceed::Returned));
    let mut expected = origin.to_word().to_be_vec();
    expected.extend(word_bytes(5));
    assert_eq!(out, expected);
    // A view commits nothing.
    assert_eq!(backend.basic(origin), basic(1000, 0));
    assert_eq!(backend.basic(a), basic(0, 0));
}

#[test]
fn selfdestruct_sweeps_the_funds_and_removes_the_account() {
    let origin = addr(1);
    let c = addr(0xc);
    let d = addr(0xd);
    // C: PUSH20 D, SELFDESTRUCT
    let mut code_c = push20(d);
    code_c.push(0xff);
    let mut backend = backend_with(
        origin,
        vec![(origin, basic(0, 0), vec![]), (c, basic(100, 1), code_c.clone()), (d, basic(11, 0), vec![])],
    );
    {
        let mut executor =
            StackExecutor::new_with_precompile(&backend, Config::istanbul(), NoPrecompiles {});
        let (reason, out) = executor.transact_call(origin, c, Word::zero(), vec![]);
        assert_eq!(reason, ExitReason::Succeed(ExitSucceed::Suicided));
        assert_eq!(out, Vec::<u8>::new());
        assert_eq!(executor.balance(c), Word::zero());
        assert_eq!(executor.balance(d), Word::from_u64(111));
        assert!(executor.deleted(c));
        assert!(!executor.deleted(d));
        // Until the commit the code stays readable.
        assert_eq!(executor.code(c), code_c);
    }
    let (reason, _) = Runner::call(&mut backend, FunctionCallArgs { contract: c.to_bytes(), input: vec![] });
    assert_eq!(reason, ExitReason::Succeed(ExitSucceed::Suicided));
    assert!(!backend.account_exists(c));
    assert_eq!(backend.code(c), Vec::<u8>::new());
    assert_eq!(backend.basic(c), basic(0, 0));
    assert_eq!(backend.basic(d).balance, Word::from_u64(111));
}

#[test]
fn a_failed_call_leaves_the_substates_as_they_were() {
    let origin = addr(1);
    let a = addr(0xa);
    // A: PUSH1 7, PUSH1 0, SSTORE, INVALID
    let code_a = vec![0x60, 0x07, 0x60, 0x00, 0x55, 0xfe];
    let backend = backend_with(origin, vec![(origin, basic(50, 0), vec![]), (a, basic(0, 0), code_a)]);
    let mut executor = StackExecutor::new_with_precompile(&backend, Config::istanbul(), NoPrecompiles {});
    let (reason, out) = executor.transact_call(origin, a, Word::from_u64(20), vec![]);
    assert_eq!(reason, ExitReason::Error(ExitError::DesignatedInvalid));
    assert_eq!(out, Vec::<u8>::new());
    assert_eq!(executor.storage(a, Word::zero()), Word::zero());
    assert_eq!(executor.balance(origin), Word::from_u64(50));
    assert_eq!(executor.balance(a), Word::zero());
    // The nonce of the caller was raised before the frame was opened.
    assert_eq!(executor.nonce(origin), Word::one());
    assert!(executor.account(a).is_none());
    let (applies, logs) = executor.deconstruct();
    assert_eq!(applies.len(), 1);
    assert!(logs.is_empty());
}

#[test]
fn a_reverted_call_hands_back_its_payload_and_drops_its_writes() {
    let origin = addr(1);
    let a = addr(0xa);
    // A: PUSH1 7, PUSH1 0, SSTORE, PUSH1 1, PUSH1 0, MSTORE, PUSH1 1, PUSH1 0x1f, REVERT
    let code_a = vec![
        0x60, 0x07, 0x60, 0x00, 0x55, 0x60, 0x01, 0x60, 0x00, 0x52, 0x60, 0x01, 0x60, 0x1f, 0xfd,
    ];
    let backend = backend_with(origin, vec![(origin, basic(0, 0), vec![]), (a, basic(0, 0), code_a)]);
    let mut executor = StackExecutor::new_with_precompile(&backend, Config::istanbul(), NoPrecompiles {});
    let (reason, out) = executor.transact_call(origin, a, Word::zero(), vec![]);
    assert_eq!(reason, ExitReason::Revert(ExitRevert::Reverted));
    assert_eq!(out, vec![0x01]);
    assert_eq!(executor.storage(a, Word::zero()), Word::zero());
}

#[test]
fn a_call_transfers_its_value_and_commits_storage_and_logs() {
    let origin = addr(1);
    let a = addr(0xa);
    // A: PUSH1 7, PUSH1 0, SSTORE, PUSH1 0xaa, PUSH1 0, MSTORE8, PUSH1 9 (topic), PUSH1 1, PUSH1 0, LOG1, STOP
    let code_a = vec![
        0x60, 0x07, 0x60, 0x00, 0x55, 0x60, 0xaa, 0x60, 0x00, 0x53, 0x60, 0x09, 0x60, 0x01, 0x60, 0x00, 0xa1,
        0x00,
    ];
    let mut backend = backend_with(origin, vec![(origin, basic(50, 0), vec![]), (a, basic(1, 0), code_a)]);
    let (reason, _, _) = Runner::execute(
        &mut backend,
        Word::from_u64(20),
        true,
        Transaction::Call { caller: origin, address: a, value: Word::from_u64(20), data: vec![] },
    );
    assert_eq!(reason, ExitReason::Succeed(ExitSucceed::Stopped));
    assert_eq!(backend.basic(origin), basic(30, 1));
    assert_eq!(backend.basic(a), basic(21, 0));
    assert_eq!(backend.storage(a, Word::zero()), Word::from_u64(7));
    assert_eq!(backend.logs().len(), 1);
    assert_eq!(backend.logs()[0].address, a);
    assert_eq!(backend.logs()[0].topics, vec![Word::from_u64(9)]);
    assert_eq!(backend.logs()[0].data, vec![0xaa]);
}

#[test]
fn a_call_without_funds_is_out_of_fund() {
    let origin = addr(1);
    let a = addr(0xa);
    let backend = backend_with(origin, vec![(origin, basic(5, 0), vec![]), (a, basic(0, 0), vec![0x00])]);
    let mut executor = StackExecutor::new_with_precompile(&backend, Config::istanbul(), NoPrecompiles {});
    let (reason, _) = executor.transact_call(origin, a, Word::from_u64(6), vec![]);
    assert_eq!(reason, ExitReason::Error(ExitError::OutOfFund));
    assert_eq!(executor.balance(origin), Word::from_u64(5));
}

#[test]
fn a_write_in_a_static_call_faults_and_the_caller_sees_zero() {
    let origin = addr(1);
    let a = addr(0xa);
    let b = addr(0xb);
    // B: PUSH1 7, PUSH1 0, SSTORE, STOP
    let code_b = vec![0x60, 0x07, 0x60, 0x00, 0x55, 0x00];
    // A: STATICCALL(0, B, 0, 0, 0, 0), PUSH1 0, MSTORE, PUSH1 0x20, PUSH1 0, RETURN
    let mut code_a = vec![0x60, 0x00, 0x60, 0x00, 0x60, 0x00, 0x60, 0x00];
    code_a.extend(push20(b));
    code_a.extend_from_slice(&[0x60, 0x00, 0xfa, 0x60, 0x00, 0x52, 0x60, 0x20, 0x60, 0x00, 0xf3]);
    let backend = backend_with(
        origin,
        vec![(origin, basic(0, 0), vec![]), (a, basic(0, 0), code_a), (b, basic(0, 0), code_b)],
    );
    let mut executor = StackExecutor::new_with_precompile(&backend, Config::istanbul(), NoPrecompiles {});
    let (reason, out) = executor.transact_call(origin, a, Word::zero(), vec![]);
    assert_eq!(reason, ExitReason::Succeed(ExitSucceed::Returned));
    assert_eq!(out, word_bytes(0));
    assert_eq!(executor.storage(b, Word::zero()), Word::zero());
}

#[test]
fn a_successful_call_pushes_one_and_copies_the_output() {
    let origin = addr(1);
    let a = addr(0xa);
    let b = addr(0xb);
    // B: PUSH1 0x2a, PUSH1 0, MSTORE, PUSH1 0x20, PUSH1 0, RETURN
    let code_b = vec![0x60, 0x2a, 0x60, 0x00, 0x52, 0x60, 0x20, 0x60, 0x00, 0xf3];
    // A: CALL(0, B, 0, 0, 0, 0x20, 0x20), PUSH1 0, MSTORE, RETURNDATASIZE, PUSH1 0x40, MSTORE,
    //    PUSH1 0x60, PUSH1 0, RETURN
    let mut code_a = vec![0x60, 0x20, 0x60, 0x20, 0x60, 0x00, 0x60, 0x00, 0x60, 0x00];
    code_a.extend(push20(b));
    code_a.extend_from_slice(&[
        0x60, 0x00, 0xf1, 0x60, 0x00, 0x52, 0x3d, 0x60, 0x40, 0x52, 0x60, 0x60, 0x60, 0x00, 0xf3,
    ]);
    let backend = backend_with(
        origin,
        vec![(origin, basic(0, 0), vec![]), (a, basic(0, 0), code_a), (b, basic(0, 0), code_b)],
    );
    let mut executor = StackExecutor::new_with_precompile(&backend, Config::istanbul(), NoPrecompiles {});
    let (reason, out) = executor.transact_call(origin, a, Word::zero(), vec![]);
    assert_eq!(reason, ExitReason::Succeed(ExitSucceed::Returned));
    let mut expected = word_bytes(1);
    expected.extend(word_bytes(0x2a));
    expected.extend(word_bytes(0x20));
    assert_eq!(out, expected);
}

#[test]
fn an_inner_create_pushes_the_new_address_and_raises_the_creators_nonce() {
    let origin = addr(1);
    let a = addr(0xa);
    // A: CREATE(0, 0, 0), PUSH1 0, MSTORE, PUSH1 0x20, PUSH1 0, RETURN
    let code_a = vec![0x60, 0x00, 0x60, 0x00, 0x60, 0x00, 0xf0, 0x60, 0x00, 0x52, 0x60, 0x20, 0x60, 0x00, 0xf3];
    let backend = backend_with(origin, vec![(origin, basic(0, 0), vec![]), (a, basic(0, 3), code_a)]);
    let mut executor = StackExecutor::new_with_precompile(&backend, Config::istanbul(), NoPrecompiles {});
    let expected = executor.create_address(CreateScheme::Legacy { caller: a });
    let (reason, out) = executor.transact_call(origin, a, Word::zero(), vec![]);
    assert_eq!(reason, ExitReason::Succeed(ExitSucceed::Returned));
    assert_eq!(out, expected.to_word().to_be_vec());
    assert_eq!(executor.nonce(a), Word::from_u64(4));
    assert_eq!(executor.code(expected), Vec::<u8>::new());
}

#[test]
fn an_executor_without_steps_ends_with_out_of_gas() {
    let origin = addr(1);
    let a = addr(0xa);
    // A: JUMPDEST, PUSH1 0, JUMP
    let backend =
        backend_with(origin, vec![(origin, basic(0, 0), vec![]), (a, basic(0, 0), vec![0x5b, 0x60, 0x00, 0x56])]);
    let mut executor = StackExecutor::new_with_precompile(&backend, Config::istanbul(), NoPrecompiles {});
    assert_eq!(executor.steps_left(), u64::MAX);
    executor.set_step_limit(1000);
    let (reason, _) = executor.transact_call(origin, a, Word::zero(), vec![]);
    assert_eq!(reason, ExitReason::Error(ExitError::OutOfGas));
    assert_eq!(executor.steps_left(), 0);
}

#[test]
fn an_operation_that_the_fork_lacks_is_not_supported() {
    let origin = addr(1);
    let a = addr(0xa);
    // A: CHAINID
    let backend = backend_with(origin, vec![(origin, basic(0, 0), vec![]), (a, basic(0, 0), vec![0x46])]);
    let mut executor = StackExecutor::new_with_precompile(&backend, Config::frontier(), NoPrecompiles {});
    let (reason, _) = executor.transact_call(origin, a, Word::zero(), vec![]);
    assert_eq!(reason, ExitReason::Fatal(near_evm::error::ExitFatal::NotSupported));
}

#[test]
fn substates_layer_reads_and_merge_or_drop_on_exit() {
    let origin = addr(1);
    let a = addr(0xa);
    let backend = backend_with(origin, vec![(a, basic(10, 2), vec![1, 2, 3])]);
    let mut executor = StackExecutor::new_with_precompile(&backend, Config::istanbul(), NoPrecompiles {});
    assert_eq!(executor.depth(), None);
    executor.enter_substate(false);
    assert_eq!(executor.depth(), Some(0));
    executor.set_storage(a, Word::one(), Word::from_u64(5)).unwrap();
    executor.enter_substate(true);
    assert_eq!(executor.depth(), Some(1));
    assert!(executor.is_static());
    assert_eq!(executor.storage(a, Word::one()), Word::from_u64(5));
    executor.set_storage(a, Word::one(), Word::from_u64(6)).unwrap();
    assert_eq!(executor.storage(a, Word::one()), Word::from_u64(6));
    executor.exit_substate(StackExitKind::Failed).unwrap();
    assert_eq!(executor.storage(a, Word::one()), Word::from_u64(5));
    executor.exit_substate(StackExitKind::Succeeded).unwrap();
    assert_eq!(executor.depth(), None);
    assert_eq!(executor.storage(a, Word::one()), Word::from_u64(5));
    assert_eq!(executor.original_storage(a, Word::one()), Word::zero());
    assert_eq!(executor.code(a), vec![1, 2, 3]);
    assert_eq!(executor.code_size(a), Word::from_u64(3));
    assert_eq!(executor.nonce(a), Word::from_u64(2));
    assert!(executor.account_exists(a));
    assert!(!executor.account_exists(addr(0xdead)));
    assert_eq!(executor.code_hash(addr(0xdead)), Word::zero());
}

#[test]
fn transfer_moves_value_or_fails_with_out_of_fund() {
    let a = addr(0xa);
    let b = addr(0xb);
    let backend = backend_with(a, vec![(a, basic(10, 0), vec![])]);
    let mut executor = StackExecutor::new_with_precompile(&backend, Config::istanbul(), NoPrecompiles {});
    assert_eq!(executor.transfer(Transfer { source: a, target: b, value: Word::from_u64(4) }), Ok(()));
    assert_eq!(executor.balance(a), Word::from_u64(6));
    assert_eq!(executor.balance(b), Word::from_u64(4));
    assert_eq!(
        executor.transfer(Transfer { source: a, target: b, value: Word::from_u64(7) }),
        Err(ExitError::OutOfFund)
    );
    assert_eq!(executor.balance(a), Word::from_u64(6));
    let max = Word::max_value();
    assert_eq!(executor.deposit(b, max), Err(ExitError::Other("BalanceOverflow")));
    assert_eq!(executor.balance(b), Word::from_u64(4));
}

#[test]
fn commit_removes_empty_accounts_and_applies_in_order() {
    let a = addr(0xa);
    let b = addr(0xb);
    let mut backend = backend_with(a, vec![(b, basic(0, 0), vec![])]);
    {
        let mut executor =
            StackExecutor::new_with_precompile(&backend, Config::istanbul(), NoPrecompiles {});
        executor.account_mut(b);
        executor.set_storage(a, Word::from_u64(2), Word::from_u64(9)).unwrap();
        executor.deposit(a, Word::from_u64(1)).unwrap();
        let (applies, logs) = executor.deconstruct();
        assert_eq!(applies.len(), 2);
        backend.apply(applies, logs, true);
    }
    assert!(backend.account_exists(a));
    assert!(!backend.account_exists(b));
    assert_eq!(backend.storage(a, Word::from_u64(2)), Word::from_u64(9));
    assert_eq!(backend.basic(a), basic(1, 0));
}

#[test]
fn calls_nest_as_deep_as_the_limit_allows() {
    let origin = addr(1);
    let a = addr(0xa);
    // A: PUSH1 1, PUSH1 0, SLOAD, ADD, PUSH1 0, SSTORE, CALL(0, ADDRESS, 0, 0, 0, 0, 0), STOP
    let code_a = vec![
        0x60, 0x01, 0x60, 0x00, 0x54, 0x01, 0x60, 0x00, 0x55, 0x60, 0x00, 0x60, 0x00, 0x60, 0x00, 0x60, 0x00, 0x60,
        0x00, 0x30, 0x60, 0x00, 0xf1, 0x00,
    ];
    let backend = backend_with(origin, vec![(origin, basic(0, 0), vec![]), (a, basic(0, 0), code_a)]);
    let mut config = Config::istanbul();
    config.call_stack_limit = 5;
    let mut executor = StackExecutor::new_with_precompile(&backend, config, NoPrecompiles {});
    let (reason, _) = executor.transact_call(origin, a, Word::zero(), vec![]);
    assert_eq!(reason, ExitReason::Succeed(ExitSucceed::Stopped));
    assert_eq!(executor.storage(a, Word::zero()), Word::from_u64(6));
    assert_eq!(executor.depth(), None);
}

#[test]
fn a_creation_deeper_than_the_limit_is_too_deep() {
    let origin = addr(1);
    let a = addr(0xa);
    // A: CREATE(0, 0, 0), PUSH1 0, MSTORE, PUSH1 0x20, PUSH1 0, RETURN
    let code_a = vec![0x60, 0x00, 0x60, 0x00, 0x60, 0x00, 0xf0, 0x60, 0x00, 0x52, 0x60, 0x20, 0x60, 0x00, 0xf3];
    let backend = backend_with(origin, vec![(origin, basic(0, 0), vec![]), (a, basic(0, 0), code_a)]);
    let mut config = Config::istanbul();
    config.call_stack_limit = 0;
    let mut executor = StackExecutor::new_with_precompile(&backend, config, NoPrecompiles {});
    let (reason, out) = executor.transact_call(origin, a, Word::zero(), vec![]);
    assert_eq!(reason, ExitReason::Succeed(ExitSucceed::Returned));
    assert_eq!(out, word_bytes(0));
    assert_eq!(executor.nonce(a), Word::zero());
    executor.enter_substate(false);
    assert_eq!(
        executor.create_inner(a, CreateScheme::Legacy { caller: a }, Word::zero(), vec![]),
        (ExitReason::Error(ExitError::CallTooDeep), None, vec![])
    );
}

#[test]
fn create2_from_code_derives_the_known_address() {
    let origin = addr(1);
    let deployer = Address::zero();
    // PUSH1 0 (salt), PUSH1 1 (size), PUSH1 0 (offset), PUSH1 0 (value), CREATE2, PUSH1 0, MSTORE, PUSH1 0x20,
    // PUSH1 0, RETURN: the init code is the one zero byte of the fresh memory.
    let code = vec![
        0x60, 0x00, 0x60, 0x01, 0x60, 0x00, 0x60, 0x00, 0xf5, 0x60, 0x00, 0x52, 0x60, 0x20, 0x60, 0x00, 0xf3,
    ];
    let backend = backend_with(origin, vec![(origin, basic(0, 0), vec![]), (deployer, basic(0, 0), code)]);
    let mut executor = StackExecutor::new_with_precompile(&backend, Config::istanbul(), NoPrecompiles {});
    let (reason, out) = executor.transact_call(origin, deployer, Word::zero(), vec![]);
    assert_eq!(reason, ExitReason::Succeed(ExitSucceed::Returned));
    assert_eq!(out, address_from_hex("4d1a2e2bb4f88f0250f26ffff098b0b30b26bf38").to_word().to_be_vec());
    let reason =
        executor.transact_create2(origin, Word::zero(), vec![0x00], Word::zero());
    assert_eq!(reason, ExitReason::Succeed(ExitSucceed::Stopped));
}

#[test]
fn code_and_balance_of_other_accounts_can_be_read() {
    let origin = addr(1);
    let a = addr(0xa);
    let b = addr(0xb);
    // A: EXTCODESIZE(B), PUSH1 0, MSTORE, BALANCE(B), PUSH1 0x20, MSTORE, EXTCODECOPY(B, 0x40, 1, 2),
    //    ORIGIN, PUSH1 0x60, MSTORE, PUSH1 0x80, PUSH1 0, RETURN
    let mut code_a = push20(b);
    code_a.extend_from_slice(&[0x3b, 0x60, 0x00, 0x52]);
    code_a.extend(push20(b));
    code_a.extend_from_slice(&[0x31, 0x60, 0x20, 0x52, 0x60, 0x02, 0x60, 0x01, 0x60, 0x40]);
    code_a.extend(push20(b));
    code_a.extend_from_slice(&[0x3c, 0x32, 0x60, 0x60, 0x52, 0x60, 0x80, 0x60, 0x00, 0xf3]);
    let backend = backend_with(
        origin,
        vec![(origin, basic(0, 0), vec![]), (a, basic(0, 0), code_a), (b, basic(44, 0), vec![0xc1, 0xc2, 0xc3, 0xc4])],
    );
    let mut executor = StackExecutor::new_with_precompile(&backend, Config::istanbul(), NoPrecompiles {});
    let (reason, out) = executor.transact_call(origin, a, Word::zero(), vec![]);
    assert_eq!(reason, ExitReason::Succeed(ExitSucceed::Returned));
    let mut expected = word_bytes(4);
    expected.extend(word_bytes(44));
    expected.extend_from_slice(&[0xc2, 0xc3]);
    expected.extend(vec![0u8; 30]);
    expected.extend(origin.to_word().to_be_vec());
    assert_eq!(out, expected);
    let digest = executor.code_hash(b).to_be_vec();
    assert_eq!(digest, keccak_hash::keccak([0xc1, 0xc2, 0xc3, 0xc4]).0.to_vec());
}

#[test]
fn logs_keep_their_topics_in_the_order_of_the_stack() {
    let origin = addr(1);
    let a = addr(0xa);
    // A: PUSH1 2 (second topic), PUSH1 1 (first topic), PUSH1 0 (length), PUSH1 0 (offset), LOG2, STOP
    let code_a = vec![0x60, 0x02, 0x60, 0x01, 0x60, 0x00, 0x60, 0x00, 0xa2, 0x00];
    let backend = backend_with(origin, vec![(origin, basic(0, 0), vec![]), (a, basic(0, 0), code_a)]);
    let mut executor = StackExecutor::new_with_precompile(&backend, Config::istanbul(), NoPrecompiles {});
    let (reason, _) = executor.transact_call(origin, a, Word::zero(), vec![]);
    assert_eq!(reason, ExitReason::Succeed(ExitSucceed::Stopped));
    let (_, logs) = executor.deconstruct();
    assert_eq!(logs.len(), 1);
    assert_eq!(logs[0].address, a);
    assert_eq!(logs[0].topics, vec![Word::one(), Word::from_u64(2)]);
    assert_eq!(logs[0].data, Vec::<u8>::new());
}

#[test]
fn changes_are_handed_out_in_the_order_of_the_addresses() {
    let origin = addr(1);
    let backend = backend_with(origin, vec![]);
    let mut executor = StackExecutor::new_with_precompile(&backend, Config::istanbul(), NoPrecompiles {});
    executor.deposit(addr(9), Word::one()).unwrap();
    executor.deposit(addr(3), Word::one()).unwrap();
    executor.set_storage(addr(5), Word::from_u64(8), Word::one()).unwrap();
    executor.set_storage(addr(5), Word::from_u64(2), Word::one()).unwrap();
    executor.mark_delete(addr(9), addr(3)).unwrap();
    executor.mark_delete(addr(7), addr(3)).unwrap();
    let (applies, _) = executor.deconstruct();
    let shape: Vec<(bool, Address)> = applies
        .iter()
        .map(|a| match a {
            near_evm::backend::Apply::Modify { address, .. } => (true, *address),
            near_evm::backend::Apply::Delete { address } => (false, *address),
        })
        .collect();
    assert_eq!(shape, vec![(true, addr(3)), (true, addr(5)), (false, addr(7)), (false, addr(9))]);
    match &applies[1] {
        near_evm::backend::Apply::Modify { storage, .. } => {
            assert_eq!(storage, &vec![(Word::from_u64(2), Word::one()), (Word::from_u64(8), Word::one())]);
        }
        near_evm::backend::Apply::Delete { .. } => panic!("the second change is a removal"),
    }
    match &applies[0] {
        near_evm::backend::Apply::Modify { basic, .. } => assert_eq!(basic.balance, Word::from_u64(2)),
        near_evm::backend::Apply::Delete { .. } => panic!("the first change is a removal"),
    }
}
