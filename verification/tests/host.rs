use near_evm::address::Address;
use near_evm::backend::{Apply, ApplyBackend, Backend as ChainBackend, Basic, Log};
use near_evm::error::{ExitReason, ExitSucceed};
use near_evm::near_backend::{Backend, HostStore, MemoryStore};
use near_evm::runner::Runner;
use near_evm::types::{
    address_to_key, bytes_to_hex, log_to_bytes, storage_to_key, FunctionCallArgs, KeyPrefix,
};
use near_evm::utils::{
    attached_deposit_as_u256_opt, balance_to_u256, evm_account_to_internal_address, evm_contract_address,
    hex_to_evm_address, near_account_bytes_to_evm_address, near_account_id_to_evm_address,
    near_account_id_to_internal_address, prefix_for_contract_storage, u256_to_balance, Balance,
    CreateContractAddress,
};
use near_evm::contract::{process_exit_reason, HostAction, Methods};
use near_evm::error::{ExitError, ExitFatal, ExitRevert};
use near_evm::word::Word;

fn addr(n: u64) -> Address {
    Address { a2: 0, a1: 0, a0: n }
}

fn address_from_hex(text: &str) -> Address {
    hex_to_evm_address(text).unwrap()
}

#[test]
fn hex_is_lowercase_with_the_high_digit_first() {
    assert_eq!(bytes_to_hex(&[0x1f, 0xa0, 0x00, 0xff]), "1fa000ff");
    assert_eq!(bytes_to_hex(&[]), "");
    assert_eq!(bytes_to_hex(&[0xab, 0xcd, 0xef]), hex::encode([0xab, 0xcd, 0xef]));
}

#[test]
fn a_log_goes_on_the_wire_as_count_topics_data() {
    let log = Log { address: addr(1), topics: vec![Word::from_u64(1), Word::from_u64(0x0203)], data: vec![9, 8, 7] };
    let mut expected = vec![2u8];
    expected.extend(vec![0u8; 31]);
    expected.push(1);
    expected.extend(vec![0u8; 30]);
    expected.extend_from_slice(&[2, 3]);
    expected.extend_from_slice(&[9, 8, 7]);
    assert_eq!(log_to_bytes(log), expected);
    assert_eq!(log_to_bytes(Log { address: addr(1), topics: vec![], data: vec![5] }), vec![0, 5]);
}

#[test]
fn keys_are_prefix_then_address_then_index() {
    let address = Address { a2: 0xa1a2a3a4, a1: 0, a0: 0xb1 };
    let mut expected = vec![1u8];
    expected.extend_from_slice(&address.to_bytes());
    assert_eq!(address_to_key(KeyPrefix::Balance, &address).to_vec(), expected);
    assert_eq!(address_to_key(KeyPrefix::Code, &address)[0], 0);
    assert_eq!(address_to_key(KeyPrefix::Nonce, &address)[0], 2);
    let key = storage_to_key(&address, &Word::from_u64(7));
    assert_eq!(key.len(), 53);
    assert_eq!(key[0], 3);
    assert_eq!(&key[1..21], &address.to_bytes()[..]);
    assert_eq!(&key[21..], &Word::from_u64(7).to_big_endian()[..]);
    assert_eq!(KeyPrefix::Storage.byte(), 3);
}

#[test]
fn the_backend_keeps_accounts_under_the_key_scheme() {
    let a = addr(0xa);
    let mut backend = Backend::new(1, addr(1), MemoryStore::new(7, 99));
    assert_eq!(backend.basic(a), Basic { balance: Word::zero(), nonce: Word::zero() });
    assert_eq!(backend.storage(a, Word::one()), Word::zero());
    assert_eq!(backend.code(a), Vec::<u8>::new());
    assert!(backend.is_account_empty(&a));
    backend.set_balance(&a, &Word::from_u64(5));
    backend.set_nonce(&a, &Word::from_u64(6));
    backend.set_code(&a, &[1, 2]);
    backend.set_storage(&a, &Word::one(), &Word::from_u64(7));
    assert_eq!(backend.get_balance(&a), Word::from_u64(5));
    assert_eq!(backend.get_nonce(&a), Word::from_u64(6));
    assert_eq!(backend.get_code(&a), vec![1, 2]);
    assert_eq!(backend.get_storage(&a, &Word::one()), Word::from_u64(7));
    assert_eq!(
        backend.store().read_storage(&address_to_key(KeyPrefix::Balance, &a)),
        Some(Word::from_u64(5).to_be_vec())
    );
    assert_eq!(
        backend.store().read_storage(&storage_to_key(&a, &Word::one())),
        Some(Word::from_u64(7).to_be_vec())
    );
    assert!(backend.account_exists(a));
    assert!(!backend.is_account_empty(&a));
    assert_eq!(backend.code_size(a), 2);
    assert_eq!(backend.chain_id(), Word::one());
    assert_eq!(backend.origin(), addr(1));
    assert_eq!(backend.block_number(), Word::from_u64(7));
    assert_eq!(backend.block_timestamp(), Word::from_u64(99));
    assert_eq!(backend.gas_left(), Word::max_value());
    backend.remove_storage(&a, &Word::one());
    assert_eq!(backend.get_storage(&a, &Word::one()), Word::zero());
    backend.set_storage(&a, &Word::one(), &Word::from_u64(7));
    backend.set_storage(&addr(0xb), &Word::one(), &Word::from_u64(8));
    backend.remove_account(&a);
    assert!(backend.is_account_empty(&a));
    assert_eq!(backend.get_storage(&a, &Word::one()), Word::zero());
    assert_eq!(backend.get_storage(&addr(0xb), &Word::one()), Word::from_u64(8));
    backend.set_owner(b"owner1");
    assert_eq!(backend.get_owner(), b"owner1".to_vec());
    assert_eq!(backend.store().read_storage(b"OWNER"), Some(b"owner1".to_vec()));
}

#[test]
fn the_backend_commits_changes_and_logs_hex_lines() {
    let a = addr(0xa);
    let b = addr(0xb);
    let mut backend = Backend::new(1, addr(1), MemoryStore::new(0, 0));
    backend.set_storage(&a, &Word::from_u64(3), &Word::from_u64(33));
    backend.set_balance(&b, &Word::from_u64(1));
    let values = vec![
        Apply::Modify {
            address: a,
            basic: Basic { balance: Word::from_u64(4), nonce: Word::one() },
            code: Some(vec![0xfe]),
            storage: vec![(Word::one(), Word::from_u64(7)), (Word::from_u64(2), Word::zero())],
            reset_storage: true,
        },
        Apply::Modify {
            address: addr(0xc),
            basic: Basic { balance: Word::zero(), nonce: Word::zero() },
            code: None,
            storage: vec![(Word::one(), Word::from_u64(7))],
            reset_storage: false,
        },
        Apply::Delete { address: b },
    ];
    let logs = vec![Log { address: a, topics: vec![], data: vec![0xab] }];
    backend.apply(values, logs, true);
    assert_eq!(backend.basic(a), Basic { balance: Word::from_u64(4), nonce: Word::one() });
    assert_eq!(backend.code(a), vec![0xfe]);
    assert_eq!(backend.storage(a, Word::one()), Word::from_u64(7));
    assert_eq!(backend.storage(a, Word::from_u64(3)), Word::zero());
    assert_eq!(backend.storage(addr(0xc), Word::one()), Word::zero());
    assert_eq!(backend.basic(b).balance, Word::zero());
    assert_eq!(backend.store().logs().clone(), vec![b"00ab".to_vec()]);
}

#[test]
fn the_runner_works_over_the_host_backend() {
    let origin = addr(1);
    let a = addr(0xa);
    let mut backend = Backend::new(1, origin, MemoryStore::new(0, 0));
    // PUSH1 7, PUSH1 0, SSTORE, CHAINID, PUSH1 0, MSTORE, PUSH1 0x20, PUSH1 0, RETURN
    backend.set_code(&a, &[0x60, 0x07, 0x60, 0x00, 0x55, 0x46, 0x60, 0x00, 0x52, 0x60, 0x20, 0x60, 0x00, 0xf3]);
    let (reason, out) = Runner::call(&mut backend, FunctionCallArgs { contract: a.to_bytes(), input: vec![] });
    assert_eq!(reason, ExitReason::Succeed(ExitSucceed::Returned));
    assert_eq!(out, Word::one().to_be_vec());
    assert_eq!(backend.get_storage(&a, &Word::zero()), Word::from_u64(7));
    assert_eq!(backend.get_nonce(&origin), Word::one());
}

#[test]
fn host_accounts_map_to_the_tail_of_their_digest() {
    assert_eq!(
        near_account_bytes_to_evm_address(b""),
        address_from_hex("dcc703c0e500b653ca82273b7bfad8045d85a470")
    );
    let expected = keccak_hash::keccak(b"evmGuy");
    let mut raw = [0u8; 20];
    raw.copy_from_slice(&expected.0[12..]);
    assert_eq!(near_account_id_to_evm_address("evmGuy"), Address::from_bytes(&raw));
    assert_eq!(near_account_id_to_internal_address("evmGuy"), raw);
    assert_eq!(evm_account_to_internal_address(Address::from_bytes(&raw)), raw);
}

#[test]
fn contract_addresses_follow_the_known_vectors() {
    let sender = address_from_hex("6ac7ea33f8831ea9dcc53393aaa88b25a785dbf0");
    let (address, hash) =
        evm_contract_address(CreateContractAddress::FromSenderAndNonce, &sender, &Word::zero(), &[]);
    assert_eq!(address, address_from_hex("cd234a471b72ba2f1ccf0a70fcaba648a5eecd8d"));
    assert_eq!(hash, None);
    let (address, hash) = evm_contract_address(
        CreateContractAddress::FromSenderSaltAndCodeHash(Word::zero()),
        &Address::zero(),
        &Word::zero(),
        &[0x00],
    );
    assert_eq!(address, address_from_hex("4d1a2e2bb4f88f0250f26ffff098b0b30b26bf38"));
    assert_eq!(
        hash,
        Some(Word::from_be_vec(
            &hex::decode("bc36789e7a1e281436464229828f817d6612f7b477d66591ff96a9e064bcc98a").unwrap()
        ))
    );
    let (_, hash) =
        evm_contract_address(CreateContractAddress::FromSenderAndCodeHash, &sender, &Word::zero(), &[0x00]);
    assert!(hash.is_some());
}

#[test]
fn addresses_in_text_need_twenty_bytes_of_hex() {
    assert_eq!(
        hex_to_evm_address("000000000000000000000000000000000000002a"),
        Some(addr(0x2a))
    );
    assert_eq!(hex_to_evm_address("2a"), None);
    assert_eq!(hex_to_evm_address("zz00000000000000000000000000000000000000"), None);
    assert_eq!(hex_to_evm_address("000000000000000000000000000000000000002"), None);
}

#[test]
fn balances_are_sixteen_big_endian_bytes() {
    let balance = Balance(0x0102030405060708090a0b0c0d0e0f10);
    let bytes = balance.to_be_bytes();
    assert_eq!(bytes, 0x0102030405060708090a0b0c0d0e0f10u128.to_be_bytes());
    assert_eq!(Balance::from_be_bytes(bytes), balance);
    assert_eq!(balance_to_u256(&Balance(50)), Word::from_u64(50));
    assert_eq!(u256_to_balance(&Word { l3: 9, l2: 9, l1: 1, l0: 2 }), Balance((1u128 << 64) + 2));
    assert_eq!(attached_deposit_as_u256_opt(0), None);
    assert_eq!(attached_deposit_as_u256_opt(100), Some(Word::from_u64(100)));
    assert_eq!(balance.value(), 0x0102030405060708090a0b0c0d0e0f10);
}

#[test]
fn the_storage_prefix_is_the_word_storage_then_the_address() {
    assert_eq!(prefix_for_contract_storage(&[1, 2]), b"_storage\x01\x02".to_vec());
}

#[test]
fn entry_points_have_their_host_names() {
    assert_eq!(Methods::DeployCode.to_string(), "deploy_code");
    assert_eq!(Methods::Call.to_string(), "call");
    assert_eq!(Methods::View.to_string(), "view");
    assert_eq!(Methods::GetCode.to_string(), "get_code");
    assert_eq!(Methods::GetBalance.to_string(), "get_balance");
    assert_eq!(Methods::GetNonce.to_string(), "get_nonce");
    assert_eq!(Methods::GetStorageAt.to_string(), "get_storage_at");
}

#[test]
fn outcomes_surface_at_the_host() {
    assert_eq!(
        process_exit_reason(ExitReason::Succeed(ExitSucceed::Returned), &[1, 2]),
        HostAction::ReturnOutput(vec![1, 2])
    );
    assert_eq!(
        process_exit_reason(ExitReason::Revert(ExitRevert::Reverted), &[3]),
        HostAction::PanicHex(vec![3])
    );
    assert_eq!(
        process_exit_reason(ExitReason::Error(ExitError::StackUnderflow), &[3]),
        HostAction::PanicUtf8(b"StackUnderflow".to_vec())
    );
    assert_eq!(
        process_exit_reason(ExitReason::Fatal(ExitFatal::NotSupported), &[]),
        HostAction::PanicUtf8(b"NotSupported".to_vec())
    );
}
