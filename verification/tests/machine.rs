use near_evm::error::{Capture, ExitError, ExitReason, ExitRevert, ExitSucceed};
use near_evm::machine::Machine;
use near_evm::opcode::{ExternalOpcode, Opcode};
use near_evm::stack::Stack;
use near_evm::valids::Valids;
use near_evm::word::Word;

fn run(code: Vec<u8>) -> (Machine, Option<Capture<ExitReason, ExternalOpcode>>) {
    let mut machine = Machine::new(code, Vec::new(), 1024, usize::MAX);
    let ended = machine.run(10_000);
    (machine, ended)
}

#[test]
fn trivial_return_gives_the_stored_word() {
    let (machine, ended) = run(vec![0x60, 0x2a, 0x60, 0x00, 0x52, 0x60, 0x20, 0x60, 0x00, 0xf3]);
    assert_eq!(ended, Some(Capture::Exit(ExitReason::Succeed(ExitSucceed::Returned))));
    let mut expected = vec![0u8; 31];
    expected.push(0x2a);
    assert_eq!(machine.return_value(), expected);
}

#[test]
fn revert_hands_back_its_payload() {
    let (machine, ended) = run(vec![0x60, 0x01, 0x60, 0x00, 0x52, 0x60, 0x01, 0x60, 0x1f, 0xfd]);
    assert_eq!(ended, Some(Capture::Exit(ExitReason::Revert(ExitRevert::Reverted))));
    assert_eq!(machine.return_value(), vec![0x01]);
}

#[test]
fn jump_to_a_byte_that_is_no_jumpdest_is_invalid() {
    let (_, ended) = run(vec![0x60, 0x03, 0x56, 0x00]);
    assert_eq!(ended, Some(Capture::Exit(ExitReason::Error(ExitError::InvalidJump))));
}

#[test]
fn jump_into_a_push_immediate_is_invalid() {
    // PUSH1 4, JUMP, PUSH1 0x5b, STOP: position 4 holds 0x5b, inside the PUSH1 at 3.
    let code = vec![0x60, 0x04, 0x56, 0x60, 0x5b, 0x00];
    let valids = Valids::new(&code);
    assert!(!valids.is_valid(4));
    let (_, ended) = run(code);
    assert_eq!(ended, Some(Capture::Exit(ExitReason::Error(ExitError::InvalidJump))));
}

#[test]
fn jump_to_a_jumpdest_goes_on() {
    // PUSH1 3, JUMP, JUMPDEST, PUSH1 7, PUSH1 0, MSTORE8, PUSH1 1, PUSH1 0, RETURN
    let code = vec![0x60, 0x03, 0x56, 0x5b, 0x60, 0x07, 0x60, 0x00, 0x53, 0x60, 0x01, 0x60, 0x00, 0xf3];
    let (machine, ended) = run(code);
    assert_eq!(ended, Some(Capture::Exit(ExitReason::Succeed(ExitSucceed::Returned))));
    assert_eq!(machine.return_value(), vec![7]);
}

#[test]
fn valids_mark_exactly_the_jumpdests_outside_immediates() {
    // JUMPDEST, PUSH2 5b 5b, JUMPDEST, PUSH1 (cut off)
    let code = vec![0x5b, 0x61, 0x5b, 0x5b, 0x5b, 0x60];
    let valids = Valids::new(&code);
    let marks: Vec<bool> = (0..7).map(|i| valids.is_valid(i)).collect();
    assert_eq!(marks, vec![true, false, false, false, true, false, false]);
    assert_eq!(valids.len(), 6);
    assert!(Valids::new(&[]).is_empty());
}

#[test]
fn a_stopped_machine_reports_the_same_reason_again() {
    let mut machine = Machine::new(vec![0xfe], Vec::new(), 1024, usize::MAX);
    let first = machine.step();
    let second = machine.step();
    assert_eq!(first, Err(Capture::Exit(ExitReason::Error(ExitError::DesignatedInvalid))));
    assert_eq!(second, first);
}

#[test]
fn running_off_the_code_stops() {
    let (_, ended) = run(vec![0x60, 0x01]);
    assert_eq!(ended, Some(Capture::Exit(ExitReason::Succeed(ExitSucceed::Stopped))));
}

#[test]
fn an_external_opcode_traps_and_the_machine_goes_on_after_it() {
    // SLOAD, STOP
    let mut machine = Machine::new(vec![0x54, 0x00], Vec::new(), 1024, usize::MAX);
    assert_eq!(machine.run(10), Some(Capture::Trap(ExternalOpcode::SLoad)));
    assert_eq!(machine.run(10), Some(Capture::Exit(ExitReason::Succeed(ExitSucceed::Stopped))));
}

#[test]
fn a_loop_without_end_spends_its_steps() {
    // JUMPDEST, PUSH1 0, JUMP
    let mut machine = Machine::new(vec![0x5b, 0x60, 0x00, 0x56], Vec::new(), 1024, usize::MAX);
    assert_eq!(machine.run(1000), None);
    assert_eq!(machine.inspect().map(|(op, _)| op), Some(Ok(Opcode::Push(1))));
}

#[test]
fn stack_at_1023_takes_a_dup_and_at_1024_refuses_a_push() {
    let mut stack = Stack::new(1024);
    for i in 0..1023u64 {
        assert_eq!(stack.push(Word::from_u64(i)), Ok(()));
    }
    let top = stack.peek(0).unwrap();
    assert_eq!(top, Word::from_u64(1022));
    assert_eq!(stack.push(top), Ok(()));
    assert_eq!(stack.len(), 1024);
    assert_eq!(stack.push(Word::from_u64(7)), Err(ExitError::StackOverflow));
    assert_eq!(stack.len(), 1024);
    assert_eq!(stack.peek(0), Ok(Word::from_u64(1022)));
}

#[test]
fn stack_pop_on_empty_underflows() {
    let mut stack = Stack::new(2);
    assert_eq!(stack.pop(), Err(ExitError::StackUnderflow));
    assert_eq!(stack.peek(0), Err(ExitError::StackUnderflow));
    assert_eq!(stack.set(0, Word::one()), Err(ExitError::StackUnderflow));
    stack.push(Word::one()).unwrap();
    stack.push(Word::from_u64(2)).unwrap();
    assert_eq!(stack.set(1, Word::from_u64(9)), Ok(()));
    assert_eq!(stack.pop(), Ok(Word::from_u64(2)));
    assert_eq!(stack.pop(), Ok(Word::from_u64(9)));
    assert_eq!(stack.limit(), 2);
}

#[test]
fn dup_on_a_full_stack_overflows_in_the_machine() {
    // 1024 times PUSH1 1, then DUP1
    let mut code = Vec::new();
    for _ in 0..1024 {
        code.extend_from_slice(&[0x60, 0x01]);
    }
    code.push(0x80);
    let (machine, ended) = run(code);
    assert_eq!(ended, Some(Capture::Exit(ExitReason::Error(ExitError::StackOverflow))));
    assert_eq!(machine.stack_len(), 1024);
}

#[test]
fn mstore_far_into_the_memory_succeeds() {
    // PUSH1 0x2a, PUSH3 0x0fffe0, MSTORE, MSIZE, PUSH1 0, MSTORE, PUSH1 0x20, PUSH3 0x0fffe0, RETURN
    let code = vec![
        0x60, 0x2a, 0x62, 0x0f, 0xff, 0xe0, 0x52, 0x59, 0x60, 0x00, 0x52, 0x60, 0x20, 0x62, 0x0f, 0xff, 0xe0, 0xf3,
    ];
    let (machine, ended) = run(code);
    assert_eq!(ended, Some(Capture::Exit(ExitReason::Succeed(ExitSucceed::Returned))));
    let mut expected = vec![0u8; 31];
    expected.push(0x2a);
    assert_eq!(machine.return_value(), expected);
    assert_eq!(machine.memory_get(0, 32), Word::from_u64(0x10_0000).to_be_vec());
}

#[test]
fn mload_past_the_end_gives_zero_and_extends_the_visible_length() {
    // PUSH1 0x40, MLOAD, MSIZE, PUSH1 0, MSTORE, PUSH1 0x20, MSTORE, PUSH1 0x40, PUSH1 0, RETURN
    let code = vec![0x60, 0x40, 0x51, 0x59, 0x60, 0x00, 0x52, 0x60, 0x20, 0x52, 0x60, 0x40, 0x60, 0x00, 0xf3];
    let (machine, ended) = run(code);
    assert_eq!(ended, Some(Capture::Exit(ExitReason::Succeed(ExitSucceed::Returned))));
    let mut expected = Word::from_u64(0x60).to_be_vec();
    expected.extend(vec![0u8; 32]);
    assert_eq!(machine.return_value(), expected);
}

#[test]
fn push_reads_zero_beyond_the_end_of_the_code() {
    // PUSH2 0x01 (cut off): the missing byte counts as zero.
    let mut machine = Machine::new(vec![0x61, 0x01], Vec::new(), 1024, usize::MAX);
    assert_eq!(machine.step(), Ok(()));
    assert_eq!(machine.stack_peek(0), Ok(Word::from_u64(0x0100)));
    assert_eq!(machine.step(), Err(Capture::Exit(ExitReason::Succeed(ExitSucceed::Stopped))));
}

#[test]
fn arithmetic_runs_on_the_stack() {
    // PUSH1 3, PUSH1 10, SUB (10 - 3), PUSH1 2, SWAP1, DIV (7 / 2), PUSH1 0, MSTORE, PUSH1 0x20, PUSH1 0, RETURN
    let code = vec![
        0x60, 0x03, 0x60, 0x0a, 0x03, 0x60, 0x02, 0x90, 0x04, 0x60, 0x00, 0x52, 0x60, 0x20, 0x60, 0x00, 0xf3,
    ];
    let (machine, ended) = run(code);
    assert_eq!(ended, Some(Capture::Exit(ExitReason::Succeed(ExitSucceed::Returned))));
    assert_eq!(machine.return_value(), Word::from_u64(3).to_be_vec());
}

#[test]
fn calldata_is_loaded_with_zero_padding() {
    // PUSH1 1, CALLDATALOAD, PUSH1 0, MSTORE, CALLDATASIZE, PUSH1 0x20, MSTORE, PUSH1 0x40, PUSH1 0, RETURN
    let code = vec![0x60, 0x01, 0x35, 0x60, 0x00, 0x52, 0x36, 0x60, 0x20, 0x52, 0x60, 0x40, 0x60, 0x00, 0xf3];
    let mut machine = Machine::new(code, vec![0xaa, 0xbb, 0xcc], 1024, usize::MAX);
    assert_eq!(
        machine.run(100),
        Some(Capture::Exit(ExitReason::Succeed(ExitSucceed::Returned)))
    );
    let mut expected = vec![0xbb, 0xcc];
    expected.extend(vec![0u8; 30]);
    expected.extend(Word::from_u64(3).to_be_vec());
    assert_eq!(machine.return_value(), expected);
}

#[test]
fn a_loop_sums_the_numbers_up_to_ten() {
    // sum = 0, i = 10; while i != 0 { sum += i; i -= 1 }; return sum
    // PUSH1 0, PUSH1 10,
    // JUMPDEST(4): DUP1, ISZERO, PUSH1 21, JUMPI, DUP1, SWAP2, ADD, SWAP1, PUSH1 1, SWAP1, SUB, PUSH1 4, JUMP,
    // JUMPDEST(21): POP, PUSH1 0, MSTORE, PUSH1 0x20, PUSH1 0, RETURN
    let code = vec![
        0x60, 0x00, 0x60, 0x0a, 0x5b, 0x80, 0x15, 0x60, 0x15, 0x57, 0x80, 0x91, 0x01, 0x90, 0x60, 0x01, 0x90, 0x03,
        0x60, 0x04, 0x56, 0x5b, 0x50, 0x60, 0x00, 0x52, 0x60, 0x20, 0x60, 0x00, 0xf3,
    ];
    let (machine, ended) = run(code);
    assert_eq!(ended, Some(Capture::Exit(ExitReason::Succeed(ExitSucceed::Returned))));
    assert_eq!(machine.return_value(), Word::from_u64(55).to_be_vec());
}

#[test]
fn code_and_calldata_are_copied_into_memory() {
    // PUSH1 4, PUSH1 0, PUSH1 0, CODECOPY, PUSH1 2, PUSH1 1, PUSH1 4, CALLDATACOPY, CODESIZE, PUSH1 0x20, MSTORE,
    // PUSH1 0x40, PUSH1 0, RETURN
    let code = vec![
        0x60, 0x04, 0x60, 0x00, 0x60, 0x00, 0x39, 0x60, 0x02, 0x60, 0x01, 0x60, 0x04, 0x37, 0x38, 0x60, 0x20, 0x52,
        0x60, 0x40, 0x60, 0x00, 0xf3,
    ];
    let size = code.len() as u64;
    let mut machine = Machine::new(code, vec![0xa1, 0xa2, 0xa3], 1024, usize::MAX);
    assert_eq!(machine.run(100), Some(Capture::Exit(ExitReason::Succeed(ExitSucceed::Returned))));
    let mut expected = vec![0x60, 0x04, 0x60, 0x00, 0xa2, 0xa3];
    expected.extend(vec![0u8; 26]);
    expected.extend(Word::from_u64(size).to_be_vec());
    assert_eq!(machine.return_value(), expected);
}

#[test]
fn comparisons_and_bit_operations_run_on_the_stack() {
    // PUSH1 2, PUSH1 1, LT, PUSH1 0xf0, OR (0xf1), PUSH1 0x0f, XOR (0xfe), PUSH1 0, MSTORE, PUSH1 1, PUSH1 0x1f, RETURN
    let code = vec![
        0x60, 0x02, 0x60, 0x01, 0x10, 0x60, 0xf0, 0x17, 0x60, 0x0f, 0x18, 0x60, 0x00, 0x52, 0x60, 0x01, 0x60, 0x1f,
        0xf3,
    ];
    let (machine, ended) = run(code);
    assert_eq!(ended, Some(Capture::Exit(ExitReason::Succeed(ExitSucceed::Returned))));
    assert_eq!(machine.return_value(), vec![0xfe]);
}

#[test]
fn an_operation_on_too_short_a_stack_underflows_and_changes_nothing() {
    // PUSH1 1, ADD
    let (machine, ended) = run(vec![0x60, 0x01, 0x01]);
    assert_eq!(ended, Some(Capture::Exit(ExitReason::Error(ExitError::StackUnderflow))));
    assert_eq!(machine.stack_len(), 1);
    assert_eq!(machine.stack().peek(0), Ok(Word::one()));
    assert_eq!(machine.memory().len(), 0);
}

#[test]
fn the_stack_and_memory_of_a_machine_can_be_worked_on() {
    let mut machine = Machine::new(vec![0x00], Vec::new(), 2, usize::MAX);
    assert_eq!(machine.stack_mut().push(Word::one()), Ok(()));
    assert_eq!(machine.stack_push(Word::from_u64(2)), Ok(()));
    assert_eq!(machine.stack_push(Word::from_u64(3)), Err(ExitError::StackOverflow));
    assert_eq!(machine.stack_pop(), Ok(Word::from_u64(2)));
    assert_eq!(machine.memory_mut().set(0, &[5, 6], None), Ok(()));
    assert_eq!(machine.memory_get(0, 3), vec![5, 6, 0]);
    machine.exit(ExitReason::Error(ExitError::OutOfGas));
    assert_eq!(machine.step(), Err(Capture::Exit(ExitReason::Error(ExitError::OutOfGas))));
}
