use near_evm::address::Address;
use near_evm::backend::{Basic, NoPrecompiles};
use near_evm::config::Config;
use near_evm::context::Context;
use near_evm::error::{ExitError, ExitFatal, ExitReason, ExitSucceed};
use near_evm::executor::StackExecutor;
use near_evm::memory_backend::{MemoryBackend, MemoryVicinity};
use near_evm::opcode::{ExternalOpcode, Opcode};
use near_evm::runtime::Runtime;
use near_evm::word::Word;

fn addr(n: u64) -> Address {
    Address { a2: 0, a1: 0, a0: n }
}

fn context() -> Context {
    Context { address: addr(0xa), caller: addr(0xc), apparent_value: Word::from_u64(9) }
}

fn backend() -> MemoryBackend {
    let mut backend = MemoryBackend::new(MemoryVicinity::with_origin(addr(1)));
    backend.insert_account(
        addr(0xa),
        Basic { balance: Word::from_u64(77), nonce: Word::zero() },
        vec![],
        vec![(Word::one(), Word::from_u64(5))],
    );
    backend
}

#[test]
fn a_runtime_steps_with_the_executor_behind_it() {
    let backend = backend();
    let config = Config::istanbul();
    let mut executor = StackExecutor::new_with_precompile(&backend, config, NoPrecompiles {});
    // PUSH1 1, SLOAD, CALLER, CALLVALUE, ADDRESS, SELFBALANCE, STOP
    let mut runtime = Runtime::new(vec![0x60, 0x01, 0x54, 0x33, 0x34, 0x30, 0x47, 0x00], vec![], context(), &config);
    assert_eq!(runtime.inspect(), Some(Ok(Opcode::Push(1))));
    assert_eq!(runtime.step(&mut executor), Ok(()));
    assert_eq!(runtime.inspect(), Some(Err(ExternalOpcode::SLoad)));
    assert_eq!(runtime.step(&mut executor), Ok(()));
    assert_eq!(runtime.stack_peek(0), Ok(Word::from_u64(5)));
    assert_eq!(runtime.step(&mut executor), Ok(()));
    assert_eq!(runtime.stack_peek(0), Ok(addr(0xc).to_word()));
    assert_eq!(runtime.step(&mut executor), Ok(()));
    assert_eq!(runtime.stack_peek(0), Ok(Word::from_u64(9)));
    assert_eq!(runtime.step(&mut executor), Ok(()));
    assert_eq!(runtime.stack_peek(0), Ok(addr(0xa).to_word()));
    assert_eq!(runtime.step(&mut executor), Ok(()));
    assert_eq!(runtime.stack_peek(0), Ok(Word::from_u64(77)));
    assert_eq!(runtime.stack_len(), 5);
    let stopped = ExitReason::Succeed(ExitSucceed::Stopped);
    assert_eq!(runtime.step(&mut executor), Err(stopped));
    assert_eq!(runtime.status(), Err(stopped));
    assert_eq!(runtime.step(&mut executor), Err(stopped));
    assert_eq!(executor.steps_left(), u64::MAX - 7);
    assert_eq!(runtime.context(), context());
}

#[test]
fn a_runtime_runs_to_its_end_and_returns_its_memory() {
    let backend = backend();
    let config = Config::istanbul();
    let mut executor = StackExecutor::new_with_precompile(&backend, config, NoPrecompiles {});
    // PUSH1 0x2a, PUSH1 0, MSTORE, PUSH1 0x20, PUSH1 0, RETURN
    let mut runtime =
        Runtime::new(vec![0x60, 0x2a, 0x60, 0x00, 0x52, 0x60, 0x20, 0x60, 0x00, 0xf3], vec![], context(), &config);
    assert_eq!(runtime.run(&mut executor), ExitReason::Succeed(ExitSucceed::Returned));
    assert_eq!(runtime.return_value(), Word::from_u64(0x2a).to_be_vec());
    assert_eq!(runtime.get_memory(30, 4), vec![0, 0x2a, 0, 0]);
}

#[test]
fn the_stack_and_memory_of_a_runtime_can_be_worked_on() {
    let config = Config::istanbul();
    let mut runtime = Runtime::new(vec![0x00], vec![], context(), &config);
    assert_eq!(runtime.stack_pop(), Err(ExitError::StackUnderflow));
    assert_eq!(runtime.stack_push(Word::from_u64(3)), Ok(()));
    assert_eq!(runtime.stack_pop(), Ok(Word::from_u64(3)));
    assert_eq!(runtime.resize_offset(Word::zero(), Word::from_u64(4)), Ok(()));
    assert_eq!(runtime.memory_copy(Word::one(), Word::zero(), Word::from_u64(2), &[7, 8, 9]), Ok(()));
    assert_eq!(runtime.get_memory(0, 4), vec![0, 7, 8, 0]);
    assert_eq!(
        runtime.memory_copy(Word::max_value(), Word::zero(), Word::from_u64(2), &[7]),
        Err(ExitFatal::NotSupported)
    );
    assert_eq!(runtime.config().stack_limit, 1024);
}

#[test]
fn a_runtime_that_was_told_to_exit_reports_the_reason() {
    let backend = backend();
    let config = Config::istanbul();
    let mut executor = StackExecutor::new_with_precompile(&backend, config, NoPrecompiles {});
    let mut runtime = Runtime::new(vec![0x60, 0x01], vec![], context(), &config);
    let reason = ExitReason::Fatal(ExitFatal::UnhandledInterrupt);
    runtime.exit(reason);
    assert_eq!(runtime.inspect(), None);
    assert_eq!(runtime.run(&mut executor), reason);
}

#[test]
fn sha3_hashes_the_range_of_memory() {
    let backend = backend();
    let config = Config::istanbul();
    let mut executor = StackExecutor::new_with_precompile(&backend, config, NoPrecompiles {});
    // PUSH1 0, PUSH1 0, SHA3, PUSH1 0, MSTORE, PUSH1 0x20, PUSH1 0, RETURN
    let mut runtime = Runtime::new(
        vec![0x60, 0x00, 0x60, 0x00, 0x20, 0x60, 0x00, 0x52, 0x60, 0x20, 0x60, 0x00, 0xf3],
        vec![],
        context(),
        &config,
    );
    assert_eq!(runtime.run(&mut executor), ExitReason::Succeed(ExitSucceed::Returned));
    assert_eq!(
        runtime.return_value(),
        hex::decode("c5d2460186f7233c927e7db2dcc703c0e500b653ca82273b7bfad8045d85a470").unwrap()
    );
}

#[test]
fn return_data_is_kept_for_the_caller_and_copies_beyond_it_fault() {
    let mut backend = backend();
    // B: PUSH1 0xaa, PUSH1 0, MSTORE8, PUSH1 1, PUSH1 0, REVERT
    backend.insert_account(
        addr(0xb),
        Basic { balance: Word::zero(), nonce: Word::zero() },
        vec![0x60, 0xaa, 0x60, 0x00, 0x53, 0x60, 0x01, 0x60, 0x00, 0xfd],
        vec![],
    );
    let config = Config::istanbul();
    let mut executor = StackExecutor::new_with_precompile(&backend, config, NoPrecompiles {});
    // A: CALL(0, B, 0, 0, 0, 0, 0), RETURNDATASIZE, PUSH1 0, MSTORE, PUSH1 1, PUSH1 0, PUSH1 0x20,
    //    RETURNDATACOPY, PUSH1 0x40, PUSH1 0, RETURN
    let mut code = vec![0x60, 0x00, 0x60, 0x00, 0x60, 0x00, 0x60, 0x00, 0x60, 0x00, 0x73];
    code.extend_from_slice(&addr(0xb).to_bytes());
    code.extend_from_slice(&[
        0x60, 0x00, 0xf1, 0x3d, 0x60, 0x00, 0x52, 0x60, 0x01, 0x60, 0x00, 0x60, 0x20, 0x3e, 0x60, 0x40, 0x60, 0x00,
        0xf3,
    ]);
    let mut runtime = Runtime::new(code.clone(), vec![], context(), &config);
    assert_eq!(runtime.run(&mut executor), ExitReason::Succeed(ExitSucceed::Returned));
    let mut expected = Word::one().to_be_vec();
    expected.push(0xaa);
    expected.extend(vec![0u8; 31]);
    assert_eq!(runtime.return_value(), expected);
    // The same with a copy of two bytes: the buffer holds one.
    let at = code.len() - 11;
    code[at] = 0x02;
    let mut runtime = Runtime::new(code, vec![], context(), &config);
    assert_eq!(runtime.run(&mut executor), ExitReason::Error(ExitError::OutOfOffset));
}
