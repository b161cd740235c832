use near_evm::address::Address;
use near_evm::evm_state::{EvmState, StateStore, SubState};
use near_evm::sorted_map::SortedMap;
use near_evm::word::Word;

fn repeat_byte(b: u8) -> Address {
    Address::from_bytes(&[b; 20])
}

#[test]
fn state_management() {
    let mut contract = StateStore::new();
    let addr_0 = repeat_byte(0);
    let addr_1 = repeat_byte(1);
    let addr_2 = repeat_byte(2);

    let zero = Word::zero();
    let code: [u8; 3] = [0, 1, 2];
    let nonce = Word::from_u64(103030303);
    let balance = Word::from_u64(3838209);
    let storage_key_0 = Word::from_big_endian(&[4u8; 32]);
    let storage_key_1 = Word::from_big_endian(&[5u8; 32]);
    let storage_value_0 = Word::from_big_endian(&[6u8; 32]);
    let storage_value_1 = Word::from_big_endian(&[7u8; 32]);

    contract.set_code(&addr_0, &code);
    assert_eq!(contract.code_at(&addr_0), Some(code.to_vec()));
    assert_eq!(contract.code_at(&addr_1), None);
    assert_eq!(contract.code_at(&addr_2), None);

    contract.set_nonce(&addr_0, nonce);
    assert_eq!(contract.nonce_of(&addr_0), nonce);
    assert_eq!(contract.nonce_of(&addr_1), zero);
    assert_eq!(contract.nonce_of(&addr_2), zero);

    contract.set_balance(&addr_0, balance);
    assert_eq!(contract.balance_of(&addr_0), balance);
    assert_eq!(contract.balance_of(&addr_1), zero);
    assert_eq!(contract.balance_of(&addr_2), zero);

    contract.set_contract_storage(&addr_0, storage_key_0, storage_value_0);
    assert_eq!(contract.read_contract_storage(&addr_1, storage_key_0), None);
    assert_eq!(contract.read_contract_storage(&addr_2, storage_key_0), None);

    let next = {
        // Open a new store
        let mut sub1 = SubState::new(addr_0, StateStore::new(), &contract);

        sub1.set_code(&addr_1, &code);
        assert_eq!(sub1.code_at(&addr_0), Some(code.to_vec()));
        assert_eq!(sub1.code_at(&addr_1), Some(code.to_vec()));
        assert_eq!(sub1.code_at(&addr_2), None);

        sub1.set_nonce(&addr_1, nonce);
        assert_eq!(sub1.nonce_of(&addr_0), nonce);
        assert_eq!(sub1.nonce_of(&addr_1), nonce);
        assert_eq!(sub1.nonce_of(&addr_2), zero);

        sub1.set_balance(&addr_1, balance);
        assert_eq!(sub1.balance_of(&addr_0), balance);
        assert_eq!(sub1.balance_of(&addr_1), balance);
        assert_eq!(sub1.balance_of(&addr_2), zero);

        sub1.set_contract_storage(&addr_1, storage_key_0, storage_value_0);
        assert_eq!(sub1.read_contract_storage(&addr_1, storage_key_0), Some(storage_value_0));
        assert_eq!(sub1.read_contract_storage(&addr_2, storage_key_0), None);

        sub1.set_contract_storage(&addr_1, storage_key_0, storage_value_1);
        assert_eq!(sub1.read_contract_storage(&addr_1, storage_key_0), Some(storage_value_1));
        assert_eq!(sub1.read_contract_storage(&addr_2, storage_key_0), None);

        sub1.set_contract_storage(&addr_1, storage_key_1, storage_value_1);
        assert_eq!(sub1.read_contract_storage(&addr_1, storage_key_0), Some(storage_value_1));
        assert_eq!(sub1.read_contract_storage(&addr_1, storage_key_1), Some(storage_value_1));

        sub1.set_contract_storage(&addr_1, storage_key_0, storage_value_0);
        assert_eq!(sub1.read_contract_storage(&addr_1, storage_key_0), Some(storage_value_0));
        assert_eq!(sub1.read_contract_storage(&addr_1, storage_key_1), Some(storage_value_1));

        sub1.into_state()
    };

    contract.commit_changes(&next);
    assert_eq!(contract.code_at(&addr_0), Some(code.to_vec()));
    assert_eq!(contract.code_at(&addr_1), Some(code.to_vec()));
    assert_eq!(contract.code_at(&addr_2), None);
    assert_eq!(contract.nonce_of(&addr_0), nonce);
    assert_eq!(contract.nonce_of(&addr_1), nonce);
    assert_eq!(contract.nonce_of(&addr_2), zero);
    assert_eq!(contract.balance_of(&addr_0), balance);
    assert_eq!(contract.balance_of(&addr_1), balance);
    assert_eq!(contract.balance_of(&addr_2), zero);
    assert_eq!(contract.read_contract_storage(&addr_1, storage_key_0), Some(storage_value_0));
    assert_eq!(contract.read_contract_storage(&addr_1, storage_key_1), Some(storage_value_1));
    assert_eq!(contract.read_contract_storage(&addr_2, storage_key_0), None);
}

#[test]
fn committing_storage_writes_slots_into_the_storage_that_is_there() {
    let a = repeat_byte(1);
    let mut store = StateStore::new();
    store.put_slot(a, Word::one(), Word::from_u64(10));
    store.put_slot(a, Word::from_u64(2), Word::from_u64(20));
    let mut staged = StateStore::new();
    staged.put_slot(a, Word::from_u64(2), Word::from_u64(21));
    staged.put_slot(repeat_byte(2), Word::one(), Word::from_u64(30));
    store.commit_storages(&staged.storages);
    assert_eq!(store.read_contract_storage(&a, Word::one()), Some(Word::from_u64(10)));
    assert_eq!(store.read_contract_storage(&a, Word::from_u64(2)), Some(Word::from_u64(21)));
    assert_eq!(store.read_contract_storage(&repeat_byte(2), Word::one()), Some(Word::from_u64(30)));
}

#[test]
fn committing_code_balances_and_nonces_prefers_the_staged_values() {
    let a = repeat_byte(1);
    let b = repeat_byte(2);
    let mut store = StateStore::new();
    store.put_code(a, vec![1]);
    store.put_balance(a, Word::from_u64(5));
    store.put_nonce(b, Word::from_u64(6));
    let code = SortedMap::new().insert(a, vec![2, 3]).insert(b, vec![4]);
    store.commit_code(&code);
    let balances = SortedMap::new().insert(b, Word::from_u64(50));
    store.commit_balances(&balances);
    let nonces = SortedMap::new().insert(b, Word::from_u64(60));
    store.commit_nonces(&nonces);
    store.commit_logs(&vec!["ab".to_string()]);
    assert_eq!(store.code_at(&a), Some(vec![2, 3]));
    assert_eq!(store.code_at(&b), Some(vec![4]));
    assert_eq!(store.balance_of(&a), Word::from_u64(5));
    assert_eq!(store.balance_of(&b), Word::from_u64(50));
    assert_eq!(store.nonce_of(&b), Word::from_u64(60));
    assert_eq!(store.logs, vec!["ab".to_string()]);
}

#[test]
fn balances_move_between_accounts_of_a_layer() {
    let a = repeat_byte(1);
    let b = repeat_byte(2);
    let mut root = StateStore::new();
    root.set_balance(&a, Word::from_u64(10));
    let mut layer = SubState::new(a, StateStore::new(), &root);
    layer.transfer_balance(&a, &b, Word::from_u64(4));
    assert_eq!(layer.balance_of(&a), Word::from_u64(6));
    assert_eq!(layer.balance_of(&b), Word::from_u64(4));
    assert_eq!(layer.add_balance(&b, Word::one()), Some(Word::from_u64(4)));
    assert_eq!(layer.sub_balance(&a, Word::one()), Some(Word::from_u64(6)));
    assert_eq!(layer.next_nonce(&a), Word::zero());
    assert_eq!(layer.next_nonce(&a), Word::one());
    assert_eq!(layer.nonce_of(&a), Word::from_u64(2));
    layer.mut_contract_storage(a);
    assert!(layer.contract_storage(a).is_some());
    assert!(layer.contract_storage(b).is_none());
    assert_eq!(root.balance_of(&a), Word::from_u64(10));
}

#[test]
fn sorted_maps_hand_out_their_keys_in_order() {
    let map = SortedMap::new()
        .insert(Word::from_u64(5), Word::from_u64(50))
        .insert(Word::from_u64(1), Word::from_u64(10))
        .insert(Word::from_u64(3), Word::from_u64(30))
        .insert(Word::from_u64(1), Word::from_u64(11));
    assert_eq!(map.len(), 3);
    assert_eq!(map.key_at(0), Word::from_u64(1));
    assert_eq!(*map.value_at(0), Word::from_u64(11));
    assert_eq!(map.get(&Word::from_u64(3)), Some(&Word::from_u64(30)));
    assert!(!map.contains_key(&Word::from_u64(4)));
    let (map, removed) = map.remove(&Word::from_u64(3));
    assert_eq!(removed, Some(Word::from_u64(30)));
    let copy = map.duplicate();
    let other = SortedMap::new().insert(Word::from_u64(5), Word::from_u64(51)).insert(Word::from_u64(0), Word::zero());
    let merged = map.absorb(other);
    assert_eq!(
        merged.into_entries(),
        vec![
            (Word::zero(), Word::zero()),
            (Word::from_u64(1), Word::from_u64(11)),
            (Word::from_u64(5), Word::from_u64(51))
        ]
    );
    assert_eq!(copy.into_entries(), vec![(Word::from_u64(1), Word::from_u64(11)), (Word::from_u64(5), Word::from_u64(50))]);
}
