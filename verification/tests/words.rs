use near_evm::address::Address;
use near_evm::config::Config;
use near_evm::error::{ExitError, ExitFatal, ExitReason, ExitSucceed, ToStr};
use near_evm::memory::Memory;
use near_evm::opcode::{ExternalOpcode, Opcode};
use near_evm::word::{u256_to_arr, Word};

fn w(n: u64) -> Word {
    Word::from_u64(n)
}

fn minus(n: u64) -> Word {
    Word::zero().wrapping_sub(w(n))
}

fn min_signed() -> Word {
    Word { l3: 0x8000_0000_0000_0000, l2: 0, l1: 0, l0: 0 }
}

#[test]
fn word_and_its_wire_form_go_back_and_forth() {
    let word = Word { l3: 0x0102030405060708, l2: 0x1112131415161718, l1: 0x2122232425262728, l0: 0x3132333435363738 };
    let bytes = word.to_big_endian();
    let expected: Vec<u8> = vec![
        0x01, 0x02, 0x03, 0x04, 0x05, 0x06, 0x07, 0x08, 0x11, 0x12, 0x13, 0x14, 0x15, 0x16, 0x17, 0x18, 0x21,
        0x22, 0x23, 0x24, 0x25, 0x26, 0x27, 0x28, 0x31, 0x32, 0x33, 0x34, 0x35, 0x36, 0x37, 0x38,
    ];
    assert_eq!(bytes.to_vec(), expected);
    assert_eq!(Word::from_big_endian(&bytes), word);
    assert_eq!(u256_to_arr(&word), bytes);
    assert_eq!(Word::from_be_vec(&word.to_be_vec()), word);
    let mut raw = [0u8; 32];
    for (i, b) in raw.iter_mut().enumerate() {
        *b = (i as u8).wrapping_mul(37).wrapping_add(11);
    }
    assert_eq!(u256_to_arr(&Word::from_big_endian(&raw)), raw);
}

#[test]
fn word_agrees_with_the_big_integer_of_primitive_types() {
    let word = Word { l3: 7, l2: 0xffff_ffff_ffff_ffff, l1: 3, l0: 0x8000_0000_0000_0001 };
    let big = primitive_types::U256::from_big_endian(&word.to_big_endian());
    assert_eq!(big.0, [word.l0, word.l1, word.l2, word.l3]);
}

#[test]
fn address_and_its_bytes_go_back_and_forth() {
    let address = Address { a2: 0x01020304, a1: 0x1112131415161718, a0: 0x2122232425262728 };
    let bytes = address.to_bytes();
    assert_eq!(
        bytes.to_vec(),
        vec![
            0x01, 0x02, 0x03, 0x04, 0x11, 0x12, 0x13, 0x14, 0x15, 0x16, 0x17, 0x18, 0x21, 0x22, 0x23, 0x24, 0x25,
            0x26, 0x27, 0x28
        ]
    );
    assert_eq!(Address::from_bytes(&bytes), address);
    assert_eq!(Address::from_word(address.to_word()), address);
    let word = Word { l3: 9, l2: 0xaaaa_bbbb_0102_0304, l1: 5, l0: 6 };
    assert_eq!(Address::from_word(word), Address { a2: 0x01020304, a1: 5, a0: 6 });
    assert!(Address { a2: 0, a1: 1, a0: 0 }.lt(&Address { a2: 1, a1: 0, a0: 0 }));
}

#[test]
fn addition_subtraction_and_multiplication_wrap() {
    assert_eq!(w(2).wrapping_add(w(3)), w(5));
    assert_eq!(Word::max_value().wrapping_add(w(2)), w(1));
    assert_eq!(w(3).wrapping_sub(w(5)), minus(2));
    assert_eq!(minus(2), Word { l3: u64::MAX, l2: u64::MAX, l1: u64::MAX, l0: u64::MAX - 1 });
    assert_eq!(w(6).wrapping_mul(w(7)), w(42));
    assert_eq!(min_signed().wrapping_mul(w(2)), Word::zero());
    assert_eq!(Word::max_value().checked_add(w(1)), None);
    assert_eq!(w(1).checked_add(w(1)), Some(w(2)));
}

#[test]
fn division_and_remainder_by_zero_are_zero() {
    assert_eq!(w(7).div_or_zero(w(2)), w(3));
    assert_eq!(w(7).rem_or_zero(w(2)), w(1));
    assert_eq!(w(7).div_or_zero(Word::zero()), Word::zero());
    assert_eq!(w(7).rem_or_zero(Word::zero()), Word::zero());
    assert_eq!(w(7).sdiv(Word::zero()), Word::zero());
    assert_eq!(w(7).smod(Word::zero()), Word::zero());
    assert_eq!(w(7).addmod(w(5), Word::zero()), Word::zero());
    assert_eq!(w(7).mulmod(w(5), Word::zero()), Word::zero());
}

#[test]
fn signed_division_rounds_towards_zero_and_keeps_the_least_number() {
    assert_eq!(minus(7).sdiv(w(2)), minus(3));
    assert_eq!(w(7).sdiv(minus(2)), minus(3));
    assert_eq!(minus(7).sdiv(minus(2)), w(3));
    assert_eq!(min_signed().sdiv(minus(1)), min_signed());
    assert_eq!(minus(7).smod(w(2)), minus(1));
    assert_eq!(w(7).smod(minus(2)), w(1));
    assert_eq!(minus(7).smod(minus(2)), minus(1));
}

#[test]
fn modular_addition_and_multiplication_do_not_lose_the_carry() {
    assert_eq!(Word::max_value().addmod(Word::max_value(), w(7)), w(2));
    assert_eq!(Word::max_value().addmod(w(2), Word::max_value()), w(2));
    assert_eq!(w(10).addmod(w(10), w(8)), w(4));
    assert_eq!(Word::max_value().mulmod(Word::max_value(), w(7)), w(1));
    assert_eq!(w(10).mulmod(w(10), w(8)), w(4));
}

#[test]
fn powers_wrap() {
    assert_eq!(w(2).wrapping_pow(w(10)), w(1024));
    assert_eq!(w(2).wrapping_pow(w(256)), Word::zero());
    assert_eq!(w(2).wrapping_pow(w(255)), min_signed());
    assert_eq!(w(0).wrapping_pow(w(0)), w(1));
    assert_eq!(w(3).wrapping_pow(w(5)), w(243));
}

#[test]
fn comparisons_read_the_sign_where_asked() {
    assert!(w(1).lt(&w(2)));
    assert!(!w(2).lt(&w(2)));
    assert!(w(3).gt(&w(2)));
    assert!(w(1).lt(&minus(1)));
    assert!(minus(1).slt(&w(1)));
    assert!(!w(1).slt(&minus(1)));
    assert!(minus(2).slt(&minus(1)));
    assert!(min_signed().is_negative());
    assert!(!w(5).is_negative());
    assert!(Word::zero().is_zero());
}

#[test]
fn bit_operations_work_limb_by_limb() {
    let a = Word { l3: 0xf0, l2: 0x0f, l1: 0xff, l0: 0x00 };
    let b = Word { l3: 0x3c, l2: 0x3c, l1: 0x3c, l0: 0x3c };
    assert_eq!(a.bitand(b), Word { l3: 0x30, l2: 0x0c, l1: 0x3c, l0: 0x00 });
    assert_eq!(a.bitor(b), Word { l3: 0xfc, l2: 0x3f, l1: 0xff, l0: 0x3c });
    assert_eq!(a.bitxor(b), Word { l3: 0xcc, l2: 0x33, l1: 0xc3, l0: 0x3c });
    assert_eq!(Word::zero().not(), Word::max_value());
}

#[test]
fn shifts_by_256_or_more_give_zero_or_all_ones() {
    assert_eq!(w(1).shl(w(4)), w(16));
    assert_eq!(w(1).shl(w(64)), Word { l3: 0, l2: 0, l1: 1, l0: 0 });
    assert_eq!(w(1).shl(w(255)), min_signed());
    assert_eq!(w(1).shl(w(256)), Word::zero());
    assert_eq!(w(256).shr(w(4)), w(16));
    assert_eq!(min_signed().shr(w(255)), w(1));
    assert_eq!(Word::max_value().shr(w(256)), Word::zero());
    assert_eq!(minus(16).sar(w(2)), minus(4));
    assert_eq!(minus(1).sar(w(200)), minus(1));
    assert_eq!(w(16).sar(w(2)), w(4));
    assert_eq!(minus(1).sar(w(256)), Word::max_value());
    assert_eq!(w(5).sar(Word::max_value()), Word::zero());
    assert_eq!(minus(7).sar(w(1)), minus(4));
}

#[test]
fn byte_and_signextend_count_from_opposite_ends() {
    let word = Word { l3: 0x0102030405060708, l2: 0, l1: 0, l0: 0x00000000000080ff };
    assert_eq!(word.byte(w(0)), w(1));
    assert_eq!(word.byte(w(7)), w(8));
    assert_eq!(word.byte(w(31)), w(0xff));
    assert_eq!(word.byte(w(30)), w(0x80));
    assert_eq!(word.byte(w(32)), Word::zero());
    assert_eq!(w(0xff).signextend(w(0)), Word::max_value());
    assert_eq!(w(0x7f).signextend(w(0)), w(0x7f));
    assert_eq!(w(0x80ff).signextend(w(1)), Word { l3: u64::MAX, l2: u64::MAX, l1: u64::MAX, l0: 0xffff_ffff_ffff_80ff });
    assert_eq!(w(0x1234_80ff).signextend(w(0)), Word::max_value());
    assert_eq!(min_signed().signextend(w(31)), min_signed());
    assert_eq!(w(0xff).signextend(w(40)), w(0xff));
}

#[test]
fn conversions_know_the_machine_word() {
    assert!(w(5).fits_usize());
    assert_eq!(w(5).as_usize(), 5);
    assert!(!Word { l3: 0, l2: 0, l1: 1, l0: 0 }.fits_usize());
    assert_eq!(Word::from_usize(9), w(9));
    assert_eq!(Word::from_u128(1u128 << 64), Word { l3: 0, l2: 0, l1: 1, l0: 0 });
    assert_eq!(Word::one(), w(1));
    assert_eq!(w(77).low_u64(), 77);
}

#[test]
fn memory_reads_zero_past_its_end_and_keeps_a_visible_length_of_whole_words() {
    let mut memory = Memory::new(usize::MAX);
    assert!(memory.is_empty());
    assert_eq!(memory.get(5, 3), vec![0, 0, 0]);
    assert_eq!(memory.resize_offset(w(1), w(1)), Ok(()));
    assert_eq!(memory.effective_len(), w(32));
    assert_eq!(memory.resize_offset(w(33), w(0)), Ok(()));
    assert_eq!(memory.effective_len(), w(32));
    assert_eq!(memory.resize_offset(w(33), w(1)), Ok(()));
    assert_eq!(memory.effective_len(), w(64));
    assert_eq!(memory.resize_offset(w(0), w(1)), Ok(()));
    assert_eq!(memory.effective_len(), w(64));
    assert_eq!(memory.resize_offset(Word::max_value(), w(1)), Err(ExitError::InvalidRange));
    assert_eq!(memory.resize_offset(minus(16), w(1)), Err(ExitError::InvalidRange));
    assert_eq!(memory.effective_len(), w(64));
    assert_eq!(memory.set(2, &[1, 2, 3], None), Ok(()));
    assert_eq!(memory.len(), 5);
    assert_eq!(memory.get(0, 7), vec![0, 0, 1, 2, 3, 0, 0]);
    assert_eq!(memory.set(3, &[9], Some(3)), Ok(()));
    assert_eq!(memory.get(0, 7), vec![0, 0, 1, 9, 0, 0, 0]);
    assert_eq!(memory.len(), 6);
    assert_eq!(memory.set(usize::MAX, &[9], None), Err(ExitFatal::NotSupported));
    assert_eq!(memory.set(usize::MAX, &[], None), Ok(()));
    assert_eq!(memory.limit(), usize::MAX);
}

#[test]
fn memory_refuses_writes_beyond_its_limit() {
    let mut memory = Memory::new(8);
    assert_eq!(memory.set(0, &[1; 8], None), Ok(()));
    assert_eq!(memory.set(1, &[1; 8], None), Err(ExitFatal::NotSupported));
    assert_eq!(memory.get(0, 9), vec![1, 1, 1, 1, 1, 1, 1, 1, 0]);
}

#[test]
fn memory_copies_what_lies_in_the_data_and_zero_beyond() {
    let mut memory = Memory::new(usize::MAX);
    let data = [1u8, 2, 3, 4];
    assert_eq!(memory.copy_large(w(1), w(2), w(4), &data), Ok(()));
    assert_eq!(memory.get(0, 6), vec![0, 3, 4, 0, 0, 0]);
    assert_eq!(memory.copy_large(w(0), w(9), w(2), &data), Ok(()));
    assert_eq!(memory.get(0, 6), vec![0, 0, 4, 0, 0, 0]);
    assert_eq!(memory.copy_large(Word::max_value(), w(0), w(0), &data), Ok(()));
    assert_eq!(memory.copy_large(Word::max_value(), w(0), w(1), &data), Err(ExitFatal::NotSupported));
    assert_eq!(memory.copy_large(w(0), Word::max_value(), w(2), &data), Ok(()));
    assert_eq!(memory.get(0, 3), vec![0, 0, 4]);
}

#[test]
fn memory_covers_a_store_at_the_end_of_the_first_four_gigabytes() {
    let mut memory = Memory::new(usize::MAX);
    let offset = Word::from_u64((1u64 << 32) - 32);
    assert_eq!(memory.resize_offset(offset, w(32)), Ok(()));
    assert_eq!(memory.effective_len(), Word::from_u64(1u64 << 32));
    assert_eq!(memory.get((1usize << 32) - 32, 32), vec![0u8; 32]);
}

#[test]
fn opcodes_are_classified() {
    assert_eq!(Opcode::parse(0x01), Ok(Opcode::Add));
    assert_eq!(Opcode::parse(0x5b), Ok(Opcode::JumpDest));
    assert_eq!(Opcode::parse(0x60), Ok(Opcode::Push(1)));
    assert_eq!(Opcode::parse(0x7f), Ok(Opcode::Push(32)));
    assert_eq!(Opcode::parse(0x80), Ok(Opcode::Dup(1)));
    assert_eq!(Opcode::parse(0x9f), Ok(Opcode::Swap(16)));
    assert_eq!(Opcode::parse(0xf3), Ok(Opcode::Return));
    assert_eq!(Opcode::parse(0x54), Err(ExternalOpcode::SLoad));
    assert_eq!(Opcode::parse(0xa4), Err(ExternalOpcode::Log(4)));
    assert_eq!(Opcode::parse(0xa5), Err(ExternalOpcode::Other(0xa5)));
    assert_eq!(Opcode::parse(0xf1), Err(ExternalOpcode::Call));
    assert_eq!(Opcode::parse(0xff), Err(ExternalOpcode::Suicide));
    assert_eq!(Opcode::parse(0x0c), Err(ExternalOpcode::Other(0x0c)));
    assert_eq!(Opcode::is_push(0x61), Some(2));
    assert_eq!(Opcode::is_push(0x5f), None);
}

#[test]
fn exit_reasons_know_their_kind_and_name() {
    assert!(ExitReason::Succeed(ExitSucceed::Stopped).is_succeed());
    assert!(ExitReason::Error(ExitError::OutOfGas).is_error());
    assert!(ExitReason::Revert(near_evm::error::ExitRevert::Reverted).is_revert());
    assert!(ExitReason::Fatal(ExitFatal::NotSupported).is_fatal());
    assert!(!ExitReason::Fatal(ExitFatal::NotSupported).is_succeed());
    assert_eq!(ExitError::StackUnderflow.to_str(), "StackUnderflow");
    assert_eq!(ExitError::InvalidJump.to_str(), "InvalidJump");
    assert_eq!(ExitError::CreateContractLimit.to_str(), "CreateContractLimit");
    assert_eq!(ExitError::Other("x").to_str(), "Other");
    assert_eq!(ExitFatal::CallErrorAsFatal(ExitError::OutOfFund).to_str(), "CallErrorAsFatal");
    assert_eq!(ExitFatal::UnhandledInterrupt.to_str(), "UnhandledInterrupt");
    assert_eq!(ExitReason::from(ExitSucceed::Suicided), ExitReason::Succeed(ExitSucceed::Suicided));
    assert_eq!(ExitReason::from(ExitError::OutOfFund), ExitReason::Error(ExitError::OutOfFund));
    assert_eq!(ExitReason::from(ExitFatal::NotSupported), ExitReason::Fatal(ExitFatal::NotSupported));
    let reverted: ExitReason = near_evm::error::ExitRevert::Reverted.into();
    assert!(reverted.is_revert());
}

#[test]
fn configurations_carry_the_figures_of_their_fork() {
    let frontier = Config::frontier();
    let istanbul = Config::istanbul();
    assert_eq!(frontier.stack_limit, 1024);
    assert_eq!(frontier.call_stack_limit, 1024);
    assert_eq!(frontier.create_contract_limit, None);
    assert_eq!(frontier.gas_sload, 50);
    assert!(frontier.empty_considered_exists);
    assert!(!frontier.has_revert);
    assert!(!frontier.supports(Ok(Opcode::Revert)));
    assert!(!frontier.supports(Err(ExternalOpcode::DelegateCall)));
    assert!(frontier.supports(Ok(Opcode::Add)));
    assert_eq!(istanbul.create_contract_limit, Some(0x6000));
    assert_eq!(istanbul.memory_limit, usize::MAX);
    assert_eq!(istanbul.gas_sload, 800);
    assert_eq!(istanbul.gas_transaction_non_zero_data, 16);
    assert_eq!(istanbul.refund_sstore_clears, 15000);
    assert!(!istanbul.create_increase_nonce);
    assert!(!istanbul.empty_considered_exists);
    assert!(istanbul.has_create2 && istanbul.has_chain_id && istanbul.has_self_balance);
    assert!(istanbul.supports(Err(ExternalOpcode::Create2)));
    assert!(istanbul.supports(Ok(Opcode::Shl)));
}
