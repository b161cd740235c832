//! The backend that keeps the chain state in the key-value store of the
//! host, under the key scheme of `types`.

use crate::account::copy_bytes;
use crate::address::{lemma_address_round_trip, Address};
use crate::backend::{
    change_views, committed, leaves_empty, slot_written, Apply, ApplyBackend, ApplyView, Basic, Committed,
    Log, LogView,
};
use crate::hash::{keccak256, keccak256_digest};
use crate::types::{
    account_key, address_to_key, bytes_to_hex, hex_chars, log_bytes, log_to_bytes, slot_key,
    storage_to_key, KeyPrefix,
};
use crate::word::{lemma_word_round_trip, Word};
use vstd::prelude::*;

verus! {

/// Whether `key` starts with `prefix`.
pub open spec fn has_prefix(key: Seq<u8>, prefix: Seq<u8>) -> bool {
    prefix.len() <= key.len() && key.subrange(0, prefix.len() as int) == prefix
}

/// The key-value store of the host, its log and its block.
///
/// The spec functions have a default so that a type outside the verified
/// code can implement the trait; what is proved of a backend over such a
/// type rests on the type doing what the contracts of its methods say.
pub trait HostStore {
    /// What the store holds.
    closed spec fn entries(&self) -> Map<Seq<u8>, Seq<u8>> {
        arbitrary()
    }

    /// The lines that were logged, oldest first.
    closed spec fn logged(&self) -> Seq<Seq<u8>> {
        arbitrary()
    }

    /// The index of the current block.
    closed spec fn spec_block_index(&self) -> u64 {
        arbitrary()
    }

    /// The time of the current block.
    closed spec fn spec_block_timestamp(&self) -> u64 {
        arbitrary()
    }

    /// The value under `key`, if there is one.
    fn read_storage(&self, key: &[u8]) -> (r: Option<Vec<u8>>)
        ensures
            r is Some == self.entries().contains_key(key@),
            r is Some ==> r->0@ == self.entries()[key@],
    ;

    /// Puts `value` under `key`.
    fn write_storage(&mut self, key: &[u8], value: &[u8])
        ensures
            final(self).entries() == old(self).entries().insert(key@, value@),
            final(self).logged() == old(self).logged(),
            final(self).spec_block_index() == old(self).spec_block_index(),
            final(self).spec_block_timestamp() == old(self).spec_block_timestamp(),
    ;

    /// Removes what is under `key`.
    fn remove_storage(&mut self, key: &[u8])
        ensures
            final(self).entries() == old(self).entries().remove(key@),
            final(self).logged() == old(self).logged(),
            final(self).spec_block_index() == old(self).spec_block_index(),
            final(self).spec_block_timestamp() == old(self).spec_block_timestamp(),
    ;

    /// Removes what is under the keys that start with `prefix`.
    fn remove_prefix(&mut self, prefix: &[u8])
        ensures
            forall|k: Seq<u8>| #[trigger]
                final(self).entries().contains_key(k) == (old(self).entries().contains_key(k)
                    && !has_prefix(k, prefix@)),
            forall|k: Seq<u8>| #[trigger]
                final(self).entries().contains_key(k) ==> final(self).entries()[k] == old(self).entries()[k],
            final(self).logged() == old(self).logged(),
            final(self).spec_block_index() == old(self).spec_block_index(),
            final(self).spec_block_timestamp() == old(self).spec_block_timestamp(),
    ;

    /// Logs a line.
    fn log_utf8(&mut self, line: &[u8])
        ensures
            final(self).entries() == old(self).entries(),
            final(self).logged() == old(self).logged().push(line@),
            final(self).spec_block_index() == old(self).spec_block_index(),
            final(self).spec_block_timestamp() == old(self).spec_block_timestamp(),
    ;

    /// The index of the current block.
    fn block_index(&self) -> (r: u64)
        ensures
            r == self.spec_block_index(),
    ;

    /// The time of the current block.
    fn block_timestamp(&self) -> (r: u64)
        ensures
            r == self.spec_block_timestamp(),
    ;
}

/// The value that the last entry with the key `k` gives it, if any does.
pub open spec fn last_value(entries: Seq<(Vec<u8>, Vec<u8>)>, k: Seq<u8>) -> Option<Seq<u8>>
    decreases entries.len(),
{
    if entries.len() == 0 {
        None
    } else if entries.last().0@ == k {
        Some(entries.last().1@)
    } else {
        last_value(entries.drop_last(), k)
    }
}

/// Whether two byte strings are the same.
pub fn same_bytes(a: &[u8], b: &[u8]) -> (r: bool)
    ensures
        r == (a@ == b@),
{
    if a.len() != b.len() {
        return false;
    }
    let n = a.len();
    let mut i: usize = 0;
    while i < n
        invariant
            i <= n,
            n == a@.len(),
            n == b@.len(),
            forall|j: int| 0 <= j < i ==> a@[j] == b@[j],
        decreases n - i,
    {
        if a[i] != b[i] {
            return false;
        }
        i = i + 1;
    }
    assert(a@ =~= b@);
    true
}

/// Whether `key` starts with `prefix`.
pub fn starts_with(key: &[u8], prefix: &[u8]) -> (r: bool)
    ensures
        r == has_prefix(key@, prefix@),
{
    if prefix.len() > key.len() {
        return false;
    }
    let n = prefix.len();
    let mut i: usize = 0;
    while i < n
        invariant
            i <= n,
            n == prefix@.len(),
            n <= key@.len(),
            forall|j: int| 0 <= j < i ==> key@[j] == prefix@[j],
        decreases n - i,
    {
        if key[i] != prefix[i] {
            assert(key@.subrange(0, n as int)[i as int] != prefix@[i as int]);
            return false;
        }
        i = i + 1;
    }
    assert(key@.subrange(0, n as int) =~= prefix@);
    true
}

/// A host store in memory: a list of entries of which the last one with a
/// key counts.
pub struct MemoryStore {
    entries: Vec<(Vec<u8>, Vec<u8>)>,
    logs: Vec<Vec<u8>>,
    block_index: u64,
    block_timestamp: u64,
}

impl MemoryStore {
    /// An empty store at the given block.
    pub fn new(block_index: u64, block_timestamp: u64) -> (r: Self)
        ensures
            r.entries() == Map::<Seq<u8>, Seq<u8>>::empty(),
            r.logged() == Seq::<Seq<u8>>::empty(),
            r.spec_block_index() == block_index,
            r.spec_block_timestamp() == block_timestamp,
    {
        let r = MemoryStore { entries: Vec::new(), logs: Vec::new(), block_index, block_timestamp };
        assert(r.entries() =~= Map::<Seq<u8>, Seq<u8>>::empty());
        assert(r.logged() =~= Seq::<Seq<u8>>::empty());
        r
    }

    /// The lines that were logged, oldest first.
    pub fn logs(&self) -> (r: &Vec<Vec<u8>>)
        ensures
            Seq::new(r@.len(), |i: int| r@[i]@) == self.logged(),
    {
        &self.logs
    }

    /// Keeps the entries whose key `drop` does not cover: those with the key
    /// `key` where `by_prefix` is not set, those whose key starts with `key`
    /// where it is.
    fn without(&mut self, key: &[u8], by_prefix: bool)
        ensures
            forall|k: Seq<u8>| #[trigger]
                last_value(final(self).entries@, k) == if if by_prefix {
                    has_prefix(k, key@)
                } else {
                    k == key@
                } {
                    None
                } else {
                    last_value(old(self).entries@, k)
                },
            final(self).logs == old(self).logs,
            final(self).block_index == old(self).block_index,
            final(self).block_timestamp == old(self).block_timestamp,
    {
        let mut kept: Vec<(Vec<u8>, Vec<u8>)> = Vec::new();
        let n = self.entries.len();
        let mut i: usize = 0;
        assert(self.entries@.subrange(0, 0) =~= Seq::<(Vec<u8>, Vec<u8>)>::empty());
        while i < n
            invariant
                i <= n,
                n == self.entries@.len(),
                self.entries == old(self).entries,
                forall|k: Seq<u8>| #[trigger]
                    last_value(kept@, k) == if if by_prefix {
                        has_prefix(k, key@)
                    } else {
                        k == key@
                    } {
                        None
                    } else {
                        last_value(self.entries@.subrange(0, i as int), k)
                    },
            decreases n - i,
        {
            let covered = if by_prefix {
                starts_with(self.entries[i].0.as_slice(), key)
            } else {
                same_bytes(self.entries[i].0.as_slice(), key)
            };
            let ghost before = kept@;
            if !covered {
                let k = copy_bytes(self.entries[i].0.as_slice());
                let v = copy_bytes(self.entries[i].1.as_slice());
                kept.push((k, v));
            }
            proof {
                let next = self.entries@.subrange(0, i + 1);
                assert(next.drop_last() =~= self.entries@.subrange(0, i as int));
                assert(next.last() == self.entries@[i as int]);
                if !covered {
                    assert(kept@.drop_last() =~= before);
                }
                assert forall|k: Seq<u8>| #[trigger]
                    last_value(kept@, k) == if if by_prefix {
                        has_prefix(k, key@)
                    } else {
                        k == key@
                    } {
                        None
                    } else {
                        last_value(next, k)
                    } by {
                    let _ = last_value(before, k);
                }
            }
            i = i + 1;
        }
        assert(self.entries@.subrange(0, n as int) =~= self.entries@);
        self.entries = kept;
    }
}

impl HostStore for MemoryStore {
    closed spec fn entries(&self) -> Map<Seq<u8>, Seq<u8>> {
        Map::new(
            |k: Seq<u8>| last_value(self.entries@, k) is Some,
            |k: Seq<u8>| last_value(self.entries@, k)->0,
        )
    }

    closed spec fn logged(&self) -> Seq<Seq<u8>> {
        Seq::new(self.logs@.len(), |i: int| self.logs@[i]@)
    }

    closed spec fn spec_block_index(&self) -> u64 {
        self.block_index
    }

    closed spec fn spec_block_timestamp(&self) -> u64 {
        self.block_timestamp
    }

    fn read_storage(&self, key: &[u8]) -> (r: Option<Vec<u8>>) {
        let mut i: usize = self.entries.len();
        assert(self.entries@.subrange(0, i as int) =~= self.entries@);
        while i > 0
            invariant
                i <= self.entries@.len(),
                last_value(self.entries@, key@) == last_value(self.entries@.subrange(0, i as int), key@),
            decreases i,
        {
            i = i - 1;
            assert(self.entries@.subrange(0, i + 1).drop_last() =~= self.entries@.subrange(0, i as int));
            if same_bytes(self.entries[i].0.as_slice(), key) {
                return Some(copy_bytes(self.entries[i].1.as_slice()));
            }
        }
        None
    }

    fn write_storage(&mut self, key: &[u8], value: &[u8]) {
        let ghost before = self.entries@;
        self.entries.push((copy_bytes(key), copy_bytes(value)));
        proof {
            assert(self.entries@.drop_last() =~= before);
            assert(self.entries() =~= old(self).entries().insert(key@, value@));
        }
    }

    fn remove_storage(&mut self, key: &[u8]) {
        self.without(key, false);
        assert(self.entries() =~= old(self).entries().remove(key@));
    }

    fn remove_prefix(&mut self, prefix: &[u8]) {
        self.without(prefix, true);
    }

    fn log_utf8(&mut self, line: &[u8]) {
        self.logs.push(copy_bytes(line));
        assert(self.logged() =~= old(self).logged().push(line@));
    }

    fn block_index(&self) -> (r: u64) {
        self.block_index
    }

    fn block_timestamp(&self) -> (r: u64) {
        self.block_timestamp
    }
}

/// The key of the owner of the engine in the host's store: the text `OWNER`.
pub open spec fn owner_key() -> Seq<u8> {
    seq![0x4fu8, 0x57u8, 0x4eu8, 0x45u8, 0x52u8]
}

/// The prefix of the keys of the storage slots of an account.
pub open spec fn slot_prefix(address: Address) -> Seq<u8> {
    seq![KeyPrefix::Storage.spec_byte()] + address.be_bytes()
}

/// The word that a stored value stands for: the word with that wire form,
/// zero for a value that is missing or has not 32 bytes.
pub open spec fn stored_word(value: Option<Seq<u8>>) -> Word {
    match value {
        Some(v) => if v.len() == 32 {
            Word::from_be(v)
        } else {
            Word::spec_zero()
        },
        None => Word::spec_zero(),
    }
}

/// What is under `key` in `store`, if anything.
pub open spec fn stored(store: Map<Seq<u8>, Seq<u8>>, key: Seq<u8>) -> Option<Seq<u8>> {
    if store.contains_key(key) {
        Some(store[key])
    } else {
        None
    }
}

/// The code of `address` in `store`: empty where none is stored.
pub open spec fn stored_code(store: Map<Seq<u8>, Seq<u8>>, address: Address) -> Seq<u8> {
    match stored(store, account_key(KeyPrefix::Code, address)) {
        Some(c) => c,
        None => Seq::empty(),
    }
}

/// The nonce and the balance of `address` in `store`.
pub open spec fn stored_basic(store: Map<Seq<u8>, Seq<u8>>, address: Address) -> Basic {
    Basic {
        balance: stored_word(stored(store, account_key(KeyPrefix::Balance, address))),
        nonce: stored_word(stored(store, account_key(KeyPrefix::Nonce, address))),
    }
}

/// What the storage of `address` holds at `index` in `store`.
pub open spec fn stored_slot(store: Map<Seq<u8>, Seq<u8>>, address: Address, index: Word) -> Word {
    stored_word(stored(store, slot_key(address, index)))
}

/// The backend over the store of the host.
pub struct Backend<S: HostStore> {
    chain_id: Word,
    origin: Address,
    store: S,
    persisted: Ghost<Seq<LogView>>,
}

impl<S: HostStore> Backend<S> {
    /// The store.
    pub closed spec fn spec_store(&self) -> S {
        self.store
    }

    /// The logs that this backend has handed to the host, oldest first.
    pub closed spec fn spec_persisted(&self) -> Seq<LogView> {
        self.persisted@
    }

    /// A backend over `store` for a transaction started by `origin`.
    pub fn new(chain_id: u64, origin: Address, store: S) -> (r: Self)
        ensures
            r.spec_store() == store,
            r.spec_persisted() == Seq::<LogView>::empty(),
            crate::backend::Backend::spec_chain_id(&r) == Word::spec_from_u64(chain_id),
            crate::backend::Backend::spec_origin(&r) == origin,
    {
        Self { chain_id: Word::from_u64(chain_id), origin, store, persisted: Ghost(Seq::empty()) }
    }

    /// The store.
    pub fn store(&self) -> (r: &S)
        ensures
            *r == self.spec_store(),
    {
        &self.store
    }

    /// Gives the store back.
    pub fn into_store(self) -> (r: S)
        ensures
            r == self.spec_store(),
    {
        self.store
    }

    fn read_word(&self, key: &[u8]) -> (r: Word)
        ensures
            r == stored_word(stored(self.store.entries(), key@)),
    {
        match self.store.read_storage(key) {
            Some(v) => if v.len() == 32 {
                Word::from_be_vec(&v)
            } else {
                Word::zero()
            },
            None => Word::zero(),
        }
    }

    /// Sets the owner of the engine.
    pub fn set_owner(&mut self, account_id: &[u8])
        ensures
            final(self).spec_store().entries() == old(self).spec_store().entries().insert(
                owner_key(),
                account_id@,
            ),
            final(self).spec_store().logged() == old(self).spec_store().logged(),
            final(self).spec_persisted() == old(self).spec_persisted(),
            crate::backend::Backend::spec_chain_id(final(self)) == crate::backend::Backend::spec_chain_id(
                old(self),
            ),
            crate::backend::Backend::spec_origin(final(self)) == crate::backend::Backend::spec_origin(old(self)),
    {
        let key: [u8; 5] = [0x4f, 0x57, 0x4e, 0x45, 0x52];
        assert(key@ =~= owner_key());
        self.store.write_storage(key.as_slice(), account_id);
    }

    /// The owner of the engine: empty where none is set.
    pub fn get_owner(&self) -> (r: Vec<u8>)
        ensures
            r@ == match stored(self.spec_store().entries(), owner_key()) {
                Some(v) => v,
                None => Seq::empty(),
            },
    {
        let key: [u8; 5] = [0x4f, 0x57, 0x4e, 0x45, 0x52];
        assert(key@ =~= owner_key());
        match self.store.read_storage(key.as_slice()) {
            Some(v) => v,
            None => Vec::new(),
        }
    }

    /// Stores the code of `address`.
    pub fn set_code(&mut self, address: &Address, code: &[u8])
        ensures
            final(self).spec_store().entries() == old(self).spec_store().entries().insert(
                account_key(KeyPrefix::Code, *address),
                code@,
            ),
            final(self).spec_store().logged() == old(self).spec_store().logged(),
            final(self).spec_persisted() == old(self).spec_persisted(),
            crate::backend::Backend::spec_chain_id(final(self)) == crate::backend::Backend::spec_chain_id(
                old(self),
            ),
            crate::backend::Backend::spec_origin(final(self)) == crate::backend::Backend::spec_origin(old(self)),
    {
        let key = address_to_key(KeyPrefix::Code, address);
        self.store.write_storage(key.as_slice(), code);
    }

    /// Removes one property of `address`.
    fn remove_property(&mut self, prefix: KeyPrefix, address: &Address)
        ensures
            final(self).spec_store().entries() == old(self).spec_store().entries().remove(
                account_key(prefix, *address),
            ),
            final(self).spec_store().logged() == old(self).spec_store().logged(),
            final(self).spec_persisted() == old(self).spec_persisted(),
            crate::backend::Backend::spec_chain_id(final(self)) == crate::backend::Backend::spec_chain_id(
                old(self),
            ),
            crate::backend::Backend::spec_origin(final(self)) == crate::backend::Backend::spec_origin(old(self)),
    {
        let key = address_to_key(prefix, address);
        self.store.remove_storage(key.as_slice());
    }

    /// Removes the code of `address`.
    pub fn remove_code(&mut self, address: &Address)
        ensures
            final(self).spec_store().entries() == old(self).spec_store().entries().remove(
                account_key(KeyPrefix::Code, *address),
            ),
            final(self).spec_store().logged() == old(self).spec_store().logged(),
            final(self).spec_persisted() == old(self).spec_persisted(),
            crate::backend::Backend::spec_chain_id(final(self)) == crate::backend::Backend::spec_chain_id(
                old(self),
            ),
            crate::backend::Backend::spec_origin(final(self)) == crate::backend::Backend::spec_origin(old(self)),
    {
        self.remove_property(KeyPrefix::Code, address);
    }

    /// The code of `address`: empty where none is stored.
    pub fn get_code(&self, address: &Address) -> (r: Vec<u8>)
        ensures
            r@ == stored_code(self.spec_store().entries(), *address),
    {
        let key = address_to_key(KeyPrefix::Code, address);
        match self.store.read_storage(key.as_slice()) {
            Some(v) => v,
            None => Vec::new(),
        }
    }

    /// Stores one word-valued property of `address`.
    fn set_property(&mut self, prefix: KeyPrefix, address: &Address, value: &Word)
        ensures
            final(self).spec_store().entries() == old(self).spec_store().entries().insert(
                account_key(prefix, *address),
                value.be_bytes(),
            ),
            final(self).spec_store().logged() == old(self).spec_store().logged(),
            final(self).spec_persisted() == old(self).spec_persisted(),
            crate::backend::Backend::spec_chain_id(final(self)) == crate::backend::Backend::spec_chain_id(
                old(self),
            ),
            crate::backend::Backend::spec_origin(final(self)) == crate::backend::Backend::spec_origin(old(self)),
    {
        let key = address_to_key(prefix, address);
        let bytes = value.to_big_endian();
        self.store.write_storage(key.as_slice(), bytes.as_slice());
    }

    /// Stores the nonce of `address`.
    pub fn set_nonce(&mut self, address: &Address, nonce: &Word)
        ensures
            final(self).spec_store().entries() == old(self).spec_store().entries().insert(
                account_key(KeyPrefix::Nonce, *address),
                nonce.be_bytes(),
            ),
            final(self).spec_store().logged() == old(self).spec_store().logged(),
            final(self).spec_persisted() == old(self).spec_persisted(),
            crate::backend::Backend::spec_chain_id(final(self)) == crate::backend::Backend::spec_chain_id(
                old(self),
            ),
            crate::backend::Backend::spec_origin(final(self)) == crate::backend::Backend::spec_origin(old(self)),
    {
        self.set_property(KeyPrefix::Nonce, address, nonce);
    }

    /// Removes the nonce of `address`.
    pub fn remove_nonce(&mut self, address: &Address)
        ensures
            final(self).spec_store().entries() == old(self).spec_store().entries().remove(
                account_key(KeyPrefix::Nonce, *address),
            ),
            final(self).spec_store().logged() == old(self).spec_store().logged(),
            final(self).spec_persisted() == old(self).spec_persisted(),
            crate::backend::Backend::spec_chain_id(final(self)) == crate::backend::Backend::spec_chain_id(
                old(self),
            ),
            crate::backend::Backend::spec_origin(final(self)) == crate::backend::Backend::spec_origin(old(self)),
    {
        self.remove_property(KeyPrefix::Nonce, address);
    }

    /// The nonce of `address`: zero where none is stored.
    pub fn get_nonce(&self, address: &Address) -> (r: Word)
        ensures
            r == stored_basic(self.spec_store().entries(), *address).nonce,
    {
        let key = address_to_key(KeyPrefix::Nonce, address);
        self.read_word(key.as_slice())
    }

    /// Stores the balance of `address`.
    pub fn set_balance(&mut self, address: &Address, balance: &Word)
        ensures
            final(self).spec_store().entries() == old(self).spec_store().entries().insert(
                account_key(KeyPrefix::Balance, *address),
                balance.be_bytes(),
            ),
            final(self).spec_store().logged() == old(self).spec_store().logged(),
            final(self).spec_persisted() == old(self).spec_persisted(),
            crate::backend::Backend::spec_chain_id(final(self)) == crate::backend::Backend::spec_chain_id(
                old(self),
            ),
            crate::backend::Backend::spec_origin(final(self)) == crate::backend::Backend::spec_origin(old(self)),
    {
        self.set_property(KeyPrefix::Balance, address, balance);
    }

    /// Removes the balance of `address`.
    pub fn remove_balance(&mut self, address: &Address)
        ensures
            final(self).spec_store().entries() == old(self).spec_store().entries().remove(
                account_key(KeyPrefix::Balance, *address),
            ),
            final(self).spec_store().logged() == old(self).spec_store().logged(),
            final(self).spec_persisted() == old(self).spec_persisted(),
            crate::backend::Backend::spec_chain_id(final(self)) == crate::backend::Backend::spec_chain_id(
                old(self),
            ),
            crate::backend::Backend::spec_origin(final(self)) == crate::backend::Backend::spec_origin(old(self)),
    {
        self.remove_property(KeyPrefix::Balance, address);
    }

    /// The balance of `address`: zero where none is stored.
    pub fn get_balance(&self, address: &Address) -> (r: Word)
        ensures
            r == stored_basic(self.spec_store().entries(), *address).balance,
    {
        let key = address_to_key(KeyPrefix::Balance, address);
        self.read_word(key.as_slice())
    }

    /// Removes a storage slot of `address`.
    pub fn remove_storage(&mut self, address: &Address, key: &Word)
        ensures
            final(self).spec_store().entries() == old(self).spec_store().entries().remove(
                slot_key(*address, *key),
            ),
            final(self).spec_store().logged() == old(self).spec_store().logged(),
            final(self).spec_persisted() == old(self).spec_persisted(),
            crate::backend::Backend::spec_chain_id(final(self)) == crate::backend::Backend::spec_chain_id(
                old(self),
            ),
            crate::backend::Backend::spec_origin(final(self)) == crate::backend::Backend::spec_origin(old(self)),
    {
        let k = storage_to_key(address, key);
        self.store.remove_storage(k.as_slice());
    }

    /// Stores a storage slot of `address`.
    pub fn set_storage(&mut self, address: &Address, key: &Word, value: &Word)
        ensures
            final(self).spec_store().entries() == old(self).spec_store().entries().insert(
                slot_key(*address, *key),
                value.be_bytes(),
            ),
            final(self).spec_store().logged() == old(self).spec_store().logged(),
            final(self).spec_persisted() == old(self).spec_persisted(),
            crate::backend::Backend::spec_chain_id(final(self)) == crate::backend::Backend::spec_chain_id(
                old(self),
            ),
            crate::backend::Backend::spec_origin(final(self)) == crate::backend::Backend::spec_origin(old(self)),
    {
        let k = storage_to_key(address, key);
        let bytes = value.to_big_endian();
        self.store.write_storage(k.as_slice(), bytes.as_slice());
    }

    /// What the storage of `address` holds at `key`: zero where nothing is
    /// stored.
    pub fn get_storage(&self, address: &Address, key: &Word) -> (r: Word)
        ensures
            r == stored_slot(self.spec_store().entries(), *address, *key),
    {
        let k = storage_to_key(address, key);
        self.read_word(k.as_slice())
    }

    /// Whether `address` has no balance, no nonce and no code.
    pub fn is_account_empty(&self, address: &Address) -> (r: bool)
        ensures
            r == (stored_basic(self.spec_store().entries(), *address).balance.value() == 0
                && stored_basic(self.spec_store().entries(), *address).nonce.value() == 0
                && stored_code(self.spec_store().entries(), *address).len() == 0),
    {
        let balance = self.get_balance(address);
        let nonce = self.get_nonce(address);
        let code_len = self.get_code(address).len();
        balance.is_zero() && nonce.is_zero() && code_len == 0
    }

    /// Removes all storage slots of `address`.
    pub fn remove_all_storage(&mut self, address: &Address)
        ensures
            forall|k: Seq<u8>| #[trigger]
                final(self).spec_store().entries().contains_key(k) == (old(self).spec_store().entries().contains_key(k) && !has_prefix(k, slot_prefix(*address))),
            forall|k: Seq<u8>| #[trigger]
                final(self).spec_store().entries().contains_key(k) ==> final(self).spec_store().entries()[k] == old(self).spec_store().entries()[k],
            final(self).spec_store().logged() == old(self).spec_store().logged(),
            final(self).spec_persisted() == old(self).spec_persisted(),
            crate::backend::Backend::spec_chain_id(final(self)) == crate::backend::Backend::spec_chain_id(
                old(self),
            ),
            crate::backend::Backend::spec_origin(final(self)) == crate::backend::Backend::spec_origin(old(self)),
    {
        let mut prefix: Vec<u8> = Vec::new();
        prefix.push(KeyPrefix::Storage.byte());
        let mut bytes = address.to_be_vec();
        prefix.append(&mut bytes);
        assert(prefix@ =~= slot_prefix(*address));
        self.store.remove_prefix(prefix.as_slice());
    }
}

impl<S: HostStore> crate::backend::Backend for Backend<S> {
    open spec fn spec_gas_left(&self) -> Word {
        Word::spec_max()
    }

    open spec fn spec_gas_price(&self) -> Word {
        Word::spec_zero()
    }

    closed spec fn spec_origin(&self) -> Address {
        self.origin
    }

    open spec fn spec_block_hash(&self, number: Word) -> Word {
        Word::spec_zero()
    }

    open spec fn spec_block_number(&self) -> Word {
        Word::spec_from_u64(self.spec_store().spec_block_index())
    }

    open spec fn spec_block_coinbase(&self) -> Address {
        Address::spec_zero()
    }

    open spec fn spec_block_timestamp(&self) -> Word {
        Word::spec_from_u64(self.spec_store().spec_block_timestamp())
    }

    open spec fn spec_block_difficulty(&self) -> Word {
        Word::spec_zero()
    }

    open spec fn spec_block_gas_limit(&self) -> Word {
        Word::spec_zero()
    }

    closed spec fn spec_chain_id(&self) -> Word {
        self.chain_id
    }

    open spec fn spec_exists(&self, address: Address) -> bool {
        self.spec_basic(address).balance.value() > 0 || self.spec_code(address).len() > 0
    }

    open spec fn spec_basic(&self, address: Address) -> Basic {
        stored_basic(self.spec_store().entries(), address)
    }

    open spec fn spec_code_hash(&self, address: Address) -> Word {
        Word::from_be(keccak256(self.spec_code(address)))
    }

    open spec fn spec_code_size(&self, address: Address) -> usize {
        self.spec_code(address).len() as usize
    }

    open spec fn spec_code(&self, address: Address) -> Seq<u8> {
        stored_code(self.spec_store().entries(), address)
    }

    open spec fn spec_storage(&self, address: Address, index: Word) -> Word {
        stored_slot(self.spec_store().entries(), address, index)
    }

    fn gas_left(&self) -> (r: Word) {
        Word::max_value()
    }

    fn gas_price(&self) -> (r: Word) {
        Word::zero()
    }

    fn origin(&self) -> (r: Address) {
        self.origin
    }

    fn block_hash(&self, number: Word) -> (r: Word) {
        Word::zero()
    }

    fn block_number(&self) -> (r: Word) {
        Word::from_u64(self.store.block_index())
    }

    fn block_coinbase(&self) -> (r: Address) {
        Address::zero()
    }

    fn block_timestamp(&self) -> (r: Word) {
        Word::from_u64(self.store.block_timestamp())
    }

    fn block_difficulty(&self) -> (r: Word) {
        Word::zero()
    }

    fn block_gas_limit(&self) -> (r: Word) {
        Word::zero()
    }

    fn chain_id(&self) -> (r: Word) {
        self.chain_id
    }

    fn account_exists(&self, address: Address) -> (r: bool) {
        !self.get_balance(&address).is_zero() || self.get_code(&address).len() > 0
    }

    fn basic(&self, address: Address) -> (r: Basic) {
        Basic { nonce: self.get_nonce(&address), balance: self.get_balance(&address) }
    }

    fn code_hash(&self, address: Address) -> (r: Word) {
        let code = self.get_code(&address);
        let digest = keccak256_digest(code.as_slice());
        Word::from_be_vec(&digest)
    }

    fn code_size(&self, address: Address) -> (r: usize) {
        self.get_code(&address).len()
    }

    fn code(&self, address: Address) -> (r: Vec<u8>) {
        self.get_code(&address)
    }

    fn storage(&self, address: Address, index: Word) -> (r: Word) {
        self.get_storage(&address, &index)
    }
}

/// What a store says of one account and one slot of its storage.
#[verifier::opaque]
pub open spec fn seen(store: Map<Seq<u8>, Seq<u8>>, address: Address, index: Word) -> Committed {
    Committed {
        exists: true,
        basic: stored_basic(store, address),
        code: stored_code(store, address),
        slot: stored_slot(store, address, index),
    }
}

/// Whether every account but `address` is in `after` what it was in
/// `before`.
pub open spec fn same_elsewhere(
    before: Map<Seq<u8>, Seq<u8>>,
    after: Map<Seq<u8>, Seq<u8>>,
    address: Address,
) -> bool {
    forall|a: Address, k: Word| a != address ==> #[trigger] seen(after, a, k) == seen(before, a, k)
}

/// The keys of the scheme tell accounts, properties and slots apart.
pub proof fn lemma_key_scheme(p: KeyPrefix, a: Address, k: Word, p2: KeyPrefix, a2: Address, k2: Word)
    ensures
        account_key(p, a) == account_key(p2, a2) <==> (p == p2 && a == a2),
        slot_key(a, k) == slot_key(a2, k2) <==> (a == a2 && k == k2),
        p != KeyPrefix::Storage ==> account_key(p, a) != slot_key(a2, k2),
        has_prefix(slot_key(a2, k2), slot_prefix(a)) <==> a2 == a,
        p != KeyPrefix::Storage ==> !has_prefix(account_key(p, a2), slot_prefix(a)),
{
    lemma_address_round_trip(a);
    lemma_address_round_trip(a2);
    lemma_word_round_trip(k);
    lemma_word_round_trip(k2);
    let ka = account_key(p, a);
    let ka2 = account_key(p2, a2);
    assert(ka.subrange(1, 21) =~= a.be_bytes());
    assert(ka2.subrange(1, 21) =~= a2.be_bytes());
    assert(ka[0] == p.spec_byte());
    assert(ka2[0] == p2.spec_byte());
    let ks = slot_key(a, k);
    let ks2 = slot_key(a2, k2);
    assert(ks.subrange(1, 21) =~= a.be_bytes());
    assert(ks2.subrange(1, 21) =~= a2.be_bytes());
    assert(ks.subrange(21, 53) =~= k.be_bytes());
    assert(ks2.subrange(21, 53) =~= k2.be_bytes());
    let pre = slot_prefix(a);
    assert(pre.subrange(1, 21) =~= a.be_bytes());
    assert(pre.len() == 21);
    if has_prefix(ks2, pre) {
        assert(ks2.subrange(0, 21).subrange(1, 21) =~= ks2.subrange(1, 21));
    }
    if a2 == a {
        assert(ks2.subrange(0, 21) =~= pre);
    }
    let kp = account_key(p, a2);
    if has_prefix(kp, pre) {
        assert(kp.subrange(0, 21)[0] == kp[0]);
        assert(kp[0] == p.spec_byte());
        assert(pre[0] == 3u8);
    }
}

/// What a store says after one slot of `address` was written: a slot that
/// is written as zero is removed.
pub proof fn lemma_slot_write(
    store: Map<Seq<u8>, Seq<u8>>,
    address: Address,
    index: Word,
    value: Word,
    a: Address,
    k: Word,
)
    ensures
        ({
            let after = if value.value() == 0 {
                store.remove(slot_key(address, index))
            } else {
                store.insert(slot_key(address, index), value.be_bytes())
            };
            seen(after, a, k) == if a == address {
                Committed {
                    slot: if k == index {
                        value
                    } else {
                        seen(store, a, k).slot
                    },
                    ..seen(store, a, k)
                }
            } else {
                seen(store, a, k)
            }
        }),
{
    reveal(seen);
    lemma_word_round_trip(value);
    if value.value() == 0 {
        crate::word::lemma_value_injective(value, Word::spec_zero());
    }
    lemma_key_scheme(KeyPrefix::Code, a, k, KeyPrefix::Code, address, index);
    lemma_key_scheme(KeyPrefix::Nonce, a, k, KeyPrefix::Nonce, address, index);
    lemma_key_scheme(KeyPrefix::Balance, a, k, KeyPrefix::Balance, address, index);
}

impl<S: HostStore> Backend<S> {
    /// Stores nonce and balance of `address`.
    fn put_basic(&mut self, address: &Address, basic: Basic)
        ensures
            same_elsewhere(
                old(self).spec_store().entries(),
                final(self).spec_store().entries(),
                *address,
            ),
            forall|k: Word| #[trigger]
                seen(final(self).spec_store().entries(), *address, k) == (Committed {
                    basic,
                    ..seen(old(self).spec_store().entries(), *address, k)
                }),
            final(self).spec_store().logged() == old(self).spec_store().logged(),
            final(self).spec_persisted() == old(self).spec_persisted(),
            crate::backend::Backend::spec_chain_id(final(self)) == crate::backend::Backend::spec_chain_id(
                old(self),
            ),
            crate::backend::Backend::spec_origin(final(self)) == crate::backend::Backend::spec_origin(old(self)),
    {
        self.set_nonce(address, &basic.nonce);
        self.set_balance(address, &basic.balance);
        proof {
            reveal(seen);
            lemma_word_round_trip(basic.nonce);
            lemma_word_round_trip(basic.balance);
            assert forall|a: Address, k: Word|
                #![trigger seen(self.spec_store().entries(), a, k)]
                seen(self.spec_store().entries(), a, k) == if a == *address {
                    Committed { basic, ..seen(old(self).spec_store().entries(), a, k) }
                } else {
                    seen(old(self).spec_store().entries(), a, k)
                } by {
                lemma_key_scheme(KeyPrefix::Nonce, *address, k, KeyPrefix::Nonce, a, k);
                lemma_key_scheme(KeyPrefix::Nonce, *address, k, KeyPrefix::Balance, a, k);
                lemma_key_scheme(KeyPrefix::Nonce, *address, k, KeyPrefix::Code, a, k);
                lemma_key_scheme(KeyPrefix::Balance, *address, k, KeyPrefix::Nonce, a, k);
                lemma_key_scheme(KeyPrefix::Balance, *address, k, KeyPrefix::Balance, a, k);
                lemma_key_scheme(KeyPrefix::Balance, *address, k, KeyPrefix::Code, a, k);
            }
        }
    }

    /// Stores the code of `address`.
    fn put_code(&mut self, address: &Address, code: &[u8])
        ensures
            same_elsewhere(
                old(self).spec_store().entries(),
                final(self).spec_store().entries(),
                *address,
            ),
            forall|k: Word| #[trigger]
                seen(final(self).spec_store().entries(), *address, k) == (Committed {
                    code: code@,
                    ..seen(old(self).spec_store().entries(), *address, k)
                }),
            final(self).spec_store().logged() == old(self).spec_store().logged(),
            final(self).spec_persisted() == old(self).spec_persisted(),
            crate::backend::Backend::spec_chain_id(final(self)) == crate::backend::Backend::spec_chain_id(
                old(self),
            ),
            crate::backend::Backend::spec_origin(final(self)) == crate::backend::Backend::spec_origin(old(self)),
    {
        self.set_code(address, code);
        proof {
            reveal(seen);
            assert forall|a: Address, k: Word|
                #![trigger seen(self.spec_store().entries(), a, k)]
                seen(self.spec_store().entries(), a, k) == if a == *address {
                    Committed { code: code@, ..seen(old(self).spec_store().entries(), a, k) }
                } else {
                    seen(old(self).spec_store().entries(), a, k)
                } by {
                lemma_key_scheme(KeyPrefix::Code, *address, k, KeyPrefix::Nonce, a, k);
                lemma_key_scheme(KeyPrefix::Code, *address, k, KeyPrefix::Balance, a, k);
                lemma_key_scheme(KeyPrefix::Code, *address, k, KeyPrefix::Code, a, k);
            }
        }
    }

    /// Removes all storage slots of `address`.
    fn clear_slots(&mut self, address: &Address)
        ensures
            same_elsewhere(
                old(self).spec_store().entries(),
                final(self).spec_store().entries(),
                *address,
            ),
            forall|k: Word| #[trigger]
                seen(final(self).spec_store().entries(), *address, k) == (Committed {
                    slot: Word::spec_zero(),
                    ..seen(old(self).spec_store().entries(), *address, k)
                }),
            final(self).spec_store().logged() == old(self).spec_store().logged(),
            final(self).spec_persisted() == old(self).spec_persisted(),
            crate::backend::Backend::spec_chain_id(final(self)) == crate::backend::Backend::spec_chain_id(
                old(self),
            ),
            crate::backend::Backend::spec_origin(final(self)) == crate::backend::Backend::spec_origin(old(self)),
    {
        self.remove_all_storage(address);
        proof {
            reveal(seen);
            assert forall|a: Address, k: Word|
                #![trigger seen(self.spec_store().entries(), a, k)]
                seen(self.spec_store().entries(), a, k) == if a == *address {
                    Committed {
                        slot: Word::spec_zero(),
                        ..seen(old(self).spec_store().entries(), a, k)
                    }
                } else {
                    seen(old(self).spec_store().entries(), a, k)
                } by {
                lemma_key_scheme(KeyPrefix::Code, *address, k, KeyPrefix::Code, a, k);
                lemma_key_scheme(KeyPrefix::Nonce, *address, k, KeyPrefix::Nonce, a, k);
                lemma_key_scheme(KeyPrefix::Balance, *address, k, KeyPrefix::Balance, a, k);
            }
        }
    }

    /// Writes one slot of the storage of `address`; a slot that is written
    /// as zero is removed.
    fn put_slot(&mut self, address: &Address, index: Word, value: Word)
        ensures
            same_elsewhere(
                old(self).spec_store().entries(),
                final(self).spec_store().entries(),
                *address,
            ),
            forall|k: Word| #[trigger]
                seen(final(self).spec_store().entries(), *address, k) == (Committed {
                    slot: if k == index {
                        value
                    } else {
                        seen(old(self).spec_store().entries(), *address, k).slot
                    },
                    ..seen(old(self).spec_store().entries(), *address, k)
                }),
            final(self).spec_store().logged() == old(self).spec_store().logged(),
            final(self).spec_persisted() == old(self).spec_persisted(),
            crate::backend::Backend::spec_chain_id(final(self)) == crate::backend::Backend::spec_chain_id(
                old(self),
            ),
            crate::backend::Backend::spec_origin(final(self)) == crate::backend::Backend::spec_origin(old(self)),
    {
        if value.is_zero() {
            self.remove_storage(address, &index);
        } else {
            self.set_storage(address, &index, &value);
        }
        proof {
            let before = old(self).spec_store().entries();
            let after = self.spec_store().entries();
            assert forall|a: Address, k: Word|
                #![trigger seen(after, a, k)]
                seen(after, a, k) == if a == *address {
                    Committed {
                        slot: if k == index {
                            value
                        } else {
                            seen(before, a, k).slot
                        },
                        ..seen(before, a, k)
                    }
                } else {
                    seen(before, a, k)
                } by {
                lemma_slot_write(before, *address, index, value, a, k);
            }
        }
    }

    /// Writes the slots of `storage` into the storage of `address`, one
    /// after the other; a slot that is written as zero is removed.
    fn put_slots(&mut self, address: &Address, storage: &Vec<(Word, Word)>)
        ensures
            same_elsewhere(
                old(self).spec_store().entries(),
                final(self).spec_store().entries(),
                *address,
            ),
            forall|k: Word| #[trigger]
                seen(final(self).spec_store().entries(), *address, k) == (Committed {
                    slot: match slot_written(storage@, k) {
                        Some(v) => v,
                        None => seen(old(self).spec_store().entries(), *address, k).slot,
                    },
                    ..seen(old(self).spec_store().entries(), *address, k)
                }),
            final(self).spec_store().logged() == old(self).spec_store().logged(),
            final(self).spec_persisted() == old(self).spec_persisted(),
            crate::backend::Backend::spec_chain_id(final(self)) == crate::backend::Backend::spec_chain_id(
                old(self),
            ),
            crate::backend::Backend::spec_origin(final(self)) == crate::backend::Backend::spec_origin(old(self)),
    {
        let n = storage.len();
        let mut i: usize = 0;
        let ghost start = self.spec_store().entries();
        assert(storage@.subrange(0, 0) =~= Seq::<(Word, Word)>::empty());
        while i < n
            invariant
                i <= n,
                n == storage@.len(),
                start == old(self).spec_store().entries(),
                same_elsewhere(start, self.spec_store().entries(), *address),
                forall|k: Word| #[trigger]
                    seen(self.spec_store().entries(), *address, k) == (Committed {
                        slot: match slot_written(storage@.subrange(0, i as int), k) {
                            Some(v) => v,
                            None => seen(start, *address, k).slot,
                        },
                        ..seen(start, *address, k)
                    }),
                self.spec_store().logged() == old(self).spec_store().logged(),
                self.spec_persisted() == old(self).spec_persisted(),
                crate::backend::Backend::spec_chain_id(self) == crate::backend::Backend::spec_chain_id(
                    old(self),
                ),
                crate::backend::Backend::spec_origin(self) == crate::backend::Backend::spec_origin(old(self)),
            decreases n - i,
        {
            let (index, value) = storage[i];
            let ghost before = self.spec_store().entries();
            self.put_slot(address, index, value);
            proof {
                let next = storage@.subrange(0, i + 1);
                assert(next.drop_last() =~= storage@.subrange(0, i as int));
                assert(next.last() == storage@[i as int]);
                assert forall|k: Word| #[trigger]
                    seen(self.spec_store().entries(), *address, k) == (Committed {
                        slot: match slot_written(next, k) {
                            Some(v) => v,
                            None => seen(start, *address, k).slot,
                        },
                        ..seen(start, *address, k)
                    }) by {
                    let _ = seen(before, *address, k);
                }
                assert forall|a: Address, k: Word| a != *address implies #[trigger] seen(
                    self.spec_store().entries(),
                    a,
                    k,
                ) == seen(start, a, k) by {
                    let _ = seen(before, a, k);
                }
            }
            i = i + 1;
        }
        assert(storage@.subrange(0, n as int) =~= storage@);
    }

    /// Removes all the account information.
    pub fn remove_account(&mut self, address: &Address)
        ensures
            same_elsewhere(
                old(self).spec_store().entries(),
                final(self).spec_store().entries(),
                *address,
            ),
            forall|k: Word| #[trigger]
                seen(final(self).spec_store().entries(), *address, k) == (Committed {
                    exists: true,
                    basic: Basic::spec_empty(),
                    code: Seq::empty(),
                    slot: Word::spec_zero(),
                }),
            final(self).spec_store().logged() == old(self).spec_store().logged(),
            final(self).spec_persisted() == old(self).spec_persisted(),
            crate::backend::Backend::spec_chain_id(final(self)) == crate::backend::Backend::spec_chain_id(
                old(self),
            ),
            crate::backend::Backend::spec_origin(final(self)) == crate::backend::Backend::spec_origin(old(self)),
    {
        self.remove_nonce(address);
        self.remove_balance(address);
        self.remove_code(address);
        let ghost mid = self.spec_store().entries();
        proof {
            reveal(seen);
            assert forall|a: Address, k: Word|
                #![trigger seen(mid, a, k)]
                seen(mid, a, k) == if a == *address {
                    Committed {
                        basic: Basic::spec_empty(),
                        code: Seq::empty(),
                        ..seen(old(self).spec_store().entries(), a, k)
                    }
                } else {
                    seen(old(self).spec_store().entries(), a, k)
                } by {
                lemma_key_scheme(KeyPrefix::Nonce, *address, k, KeyPrefix::Nonce, a, k);
                lemma_key_scheme(KeyPrefix::Nonce, *address, k, KeyPrefix::Balance, a, k);
                lemma_key_scheme(KeyPrefix::Nonce, *address, k, KeyPrefix::Code, a, k);
                lemma_key_scheme(KeyPrefix::Balance, *address, k, KeyPrefix::Nonce, a, k);
                lemma_key_scheme(KeyPrefix::Balance, *address, k, KeyPrefix::Balance, a, k);
                lemma_key_scheme(KeyPrefix::Balance, *address, k, KeyPrefix::Code, a, k);
                lemma_key_scheme(KeyPrefix::Code, *address, k, KeyPrefix::Nonce, a, k);
                lemma_key_scheme(KeyPrefix::Code, *address, k, KeyPrefix::Balance, a, k);
                lemma_key_scheme(KeyPrefix::Code, *address, k, KeyPrefix::Code, a, k);
            }
        }
        self.clear_slots(address);
    }

    /// Removes the account where it has no balance, no nonce and no code.
    pub fn remove_account_if_empty(&mut self, address: &Address)
        ensures
            same_elsewhere(
                old(self).spec_store().entries(),
                final(self).spec_store().entries(),
                *address,
            ),
            forall|k: Word| #[trigger]
                seen(final(self).spec_store().entries(), *address, k) == if leaves_empty(
                    Seq::empty(),
                    seen(old(self).spec_store().entries(), *address, k).basic,
                    Some(seen(old(self).spec_store().entries(), *address, k).code),
                ) {
                    Committed {
                        exists: true,
                        basic: Basic::spec_empty(),
                        code: Seq::empty(),
                        slot: Word::spec_zero(),
                    }
                } else {
                    seen(old(self).spec_store().entries(), *address, k)
                },
            final(self).spec_store().logged() == old(self).spec_store().logged(),
            final(self).spec_persisted() == old(self).spec_persisted(),
            crate::backend::Backend::spec_chain_id(final(self)) == crate::backend::Backend::spec_chain_id(
                old(self),
            ),
            crate::backend::Backend::spec_origin(final(self)) == crate::backend::Backend::spec_origin(old(self)),
    {
        proof {
            reveal(seen);
        }
        if self.is_account_empty(address) {
            self.remove_account(address);
        }
    }
}

/// The line that a log is handed to the host as: the lowercase hexadecimal
/// form of its wire form, as text.
pub open spec fn log_line(log: LogView) -> Seq<u8> {
    vstd::utf8::encode_utf8(hex_chars(log_bytes(log)))
}

/// What a store says of one account after a `Modify` was committed.
pub open spec fn modified(
    before: Committed,
    basic: Basic,
    code: Option<Seq<u8>>,
    storage: Seq<(Word, Word)>,
    reset_storage: bool,
    delete_empty: bool,
    index: Word,
) -> Committed {
    if delete_empty && leaves_empty(before.code, basic, code) {
        Committed {
            exists: true,
            basic: Basic::spec_empty(),
            code: Seq::empty(),
            slot: Word::spec_zero(),
        }
    } else {
        Committed {
            exists: true,
            basic,
            code: match code {
                Some(c) => c,
                None => before.code,
            },
            slot: match slot_written(storage, index) {
                Some(v) => v,
                None => if reset_storage {
                    Word::spec_zero()
                } else {
                    before.slot
                },
            },
        }
    }
}

impl<S: HostStore> Backend<S> {
    /// Commits one `Modify`: nonce and balance are stored, the code where
    /// there is one; the storage is emptied where it is reset; the slots are
    /// written; with `delete_empty`, an account that is left without nonce,
    /// balance and code is removed.
    pub fn commit_modify(
        &mut self,
        address: &Address,
        basic: Basic,
        code: Option<Vec<u8>>,
        storage: &Vec<(Word, Word)>,
        reset_storage: bool,
        delete_empty: bool,
    )
        ensures
            same_elsewhere(
                old(self).spec_store().entries(),
                final(self).spec_store().entries(),
                *address,
            ),
            forall|k: Word| #[trigger]
                seen(final(self).spec_store().entries(), *address, k) == modified(
                    seen(old(self).spec_store().entries(), *address, k),
                    basic,
                    match code {
                        Some(c) => Some(c@),
                        None => None,
                    },
                    storage@,
                    reset_storage,
                    delete_empty,
                    k,
                ),
            final(self).spec_store().logged() == old(self).spec_store().logged(),
            final(self).spec_persisted() == old(self).spec_persisted(),
            crate::backend::Backend::spec_chain_id(final(self)) == crate::backend::Backend::spec_chain_id(
                old(self),
            ),
            crate::backend::Backend::spec_origin(final(self)) == crate::backend::Backend::spec_origin(old(self)),
    {
        let ghost s0 = self.spec_store().entries();
        self.put_basic(address, basic);
        let ghost s1 = self.spec_store().entries();
        match &code {
            Some(c) => {
                self.put_code(address, c.as_slice());
            },
            None => {},
        }
        let ghost s2 = self.spec_store().entries();
        if reset_storage {
            self.clear_slots(address);
        }
        let ghost s3 = self.spec_store().entries();
        self.put_slots(address, storage);
        let ghost s4 = self.spec_store().entries();
        if delete_empty {
            self.remove_account_if_empty(address);
        }
        proof {
            let s5 = self.spec_store().entries();
            assert forall|a: Address, k: Word| a != *address implies #[trigger] seen(s5, a, k) == seen(
                s0,
                a,
                k,
            ) by {
                let _ = seen(s1, a, k);
                let _ = seen(s2, a, k);
                let _ = seen(s3, a, k);
                let _ = seen(s4, a, k);
            }
            assert forall|k: Word| #[trigger]
                seen(s5, *address, k) == modified(
                    seen(s0, *address, k),
                    basic,
                    match code {
                        Some(c) => Some(c@),
                        None => None,
                    },
                    storage@,
                    reset_storage,
                    delete_empty,
                    k,
                ) by {
                let _ = seen(s1, *address, k);
                let _ = seen(s2, *address, k);
                let _ = seen(s3, *address, k);
                let _ = seen(s4, *address, k);
                assert(seen(s0, *address, k).exists && seen(s5, *address, k).exists) by {
                    reveal(seen);
                }
            }
        }
    }

    /// Hands the logs to the host, in their order, each as a line of
    /// hexadecimal text.
    pub fn persist_logs(&mut self, logs: Vec<Log>)
        ensures
            final(self).spec_store().entries() == old(self).spec_store().entries(),
            final(self).spec_store().logged() == old(self).spec_store().logged() + Seq::new(
                logs@.len(),
                |i: int| log_line(logs@[i]@),
            ),
            final(self).spec_persisted() == old(self).spec_persisted() + Seq::new(
                logs@.len(),
                |i: int| logs@[i]@,
            ),
            crate::backend::Backend::spec_chain_id(final(self)) == crate::backend::Backend::spec_chain_id(
                old(self),
            ),
            crate::backend::Backend::spec_origin(final(self)) == crate::backend::Backend::spec_origin(old(self)),
    {
        let ghost given = logs@;
        let total = logs.len();
        let mut logs = logs;
        let mut pending: Vec<Log> = Vec::new();
        while logs.len() > 0
            invariant
                logs@.len() + pending@.len() == total,
                total == given.len(),
                logs@ == given.subrange(0, logs@.len() as int),
                forall|j: int| 0 <= j < pending@.len() ==> pending@[j] == given[total - 1 - j],
            decreases logs@.len(),
        {
            let e = logs.pop().unwrap();
            pending.push(e);
        }
        while pending.len() > 0
            invariant
                pending@.len() <= total,
                total == given.len(),
                forall|j: int| 0 <= j < pending@.len() ==> pending@[j] == given[total - 1 - j],
                self.spec_store().entries() == old(self).spec_store().entries(),
                self.spec_store().logged() == old(self).spec_store().logged() + Seq::new(
                    (total - pending@.len()) as nat,
                    |i: int| log_line(given[i]@),
                ),
                self.spec_persisted() == old(self).spec_persisted() + Seq::new(
                    (total - pending@.len()) as nat,
                    |i: int| given[i]@,
                ),
                crate::backend::Backend::spec_chain_id(self) == crate::backend::Backend::spec_chain_id(
                    old(self),
                ),
                crate::backend::Backend::spec_origin(self) == crate::backend::Backend::spec_origin(old(self)),
            decreases pending@.len(),
        {
            let ghost i = total - pending@.len();
            let ghost kept = self.persisted@;
            let log = pending.pop().unwrap();
            let ghost view = log@;
            let wire = log_to_bytes(log);
            let text = bytes_to_hex(wire.as_slice());
            self.store.log_utf8(text.as_str().as_bytes());
            proof {
                self.persisted@ = kept.push(view);
                assert(self.spec_store().logged() =~= old(self).spec_store().logged() + Seq::new(
                    (i + 1) as nat,
                    |j: int| log_line(given[j]@),
                ));
                assert(self.persisted@ =~= old(self).spec_persisted() + Seq::new(
                    (i + 1) as nat,
                    |j: int| given[j]@,
                ));
            }
        }
    }

    /// Commits the changes, one after the other, and hands the logs to the
    /// host.
    pub fn commit(&mut self, values: Vec<Apply>, logs: Vec<Log>, delete_empty: bool)
        ensures
            forall|address: Address, index: Word|
                {
                    let c = #[trigger] committed(
                        old(self),
                        change_views(values@),
                        delete_empty,
                        address,
                        index,
                    );
                    let s = seen(final(self).spec_store().entries(), address, index);
                    s.basic == c.basic && s.code == c.code && s.slot == c.slot
                },
            final(self).spec_store().logged() == old(self).spec_store().logged() + Seq::new(
                logs@.len(),
                |i: int| log_line(logs@[i]@),
            ),
            final(self).spec_persisted() == old(self).spec_persisted() + Seq::new(
                logs@.len(),
                |i: int| logs@[i]@,
            ),
            crate::backend::Backend::spec_chain_id(final(self)) == crate::backend::Backend::spec_chain_id(
                old(self),
            ),
            crate::backend::Backend::spec_origin(final(self)) == crate::backend::Backend::spec_origin(old(self)),
    {
        let ghost all = change_views(values@);
        let ghost given = values@;
        let total = values.len();
        let mut i: usize = 0;
        assert(all.subrange(0, 0) =~= Seq::<ApplyView>::empty());
        proof {
            assert forall|a: Address, k: Word|
                {
                    let c = #[trigger] committed(old(self), all.subrange(0, 0), delete_empty, a, k);
                    let s = seen(self.spec_store().entries(), a, k);
                    s.basic == c.basic && s.code == c.code && s.slot == c.slot
                } by {
                reveal(seen);
            }
        }
        while i < total
            invariant
                i <= total,
                total == values@.len(),
                given == values@,
                all == change_views(given),
                forall|a: Address, k: Word|
                    {
                        let c = #[trigger] committed(
                            old(self),
                            all.subrange(0, i as int),
                            delete_empty,
                            a,
                            k,
                        );
                        let s = seen(self.spec_store().entries(), a, k);
                        s.basic == c.basic && s.code == c.code && s.slot == c.slot
                    },
                self.spec_store().logged() == old(self).spec_store().logged(),
                self.spec_persisted() == old(self).spec_persisted(),
                crate::backend::Backend::spec_chain_id(self) == crate::backend::Backend::spec_chain_id(
                    old(self),
                ),
                crate::backend::Backend::spec_origin(self) == crate::backend::Backend::spec_origin(old(self)),
            decreases total - i,
        {
            let ghost before = self.spec_store().entries();
            match &values[i] {
                Apply::Modify { address, basic, code, storage, reset_storage } => {
                    let code_copy = match code {
                        Some(c) => Some(copy_bytes(c.as_slice())),
                        None => None,
                    };
                    self.commit_modify(address, *basic, code_copy, storage, *reset_storage, delete_empty);
                },
                Apply::Delete { address } => {
                    self.remove_account(address);
                },
            }
            proof {
                let after = self.spec_store().entries();
                let next = all.subrange(0, i + 1);
                assert(next.drop_last() =~= all.subrange(0, i as int));
                assert(next.last() == values@[i as int]@);
                assert forall|a: Address, k: Word|
                    {
                        let c = #[trigger] committed(old(self), next, delete_empty, a, k);
                        let s = seen(after, a, k);
                        s.basic == c.basic && s.code == c.code && s.slot == c.slot
                    } by {
                    let _ = committed(old(self), all.subrange(0, i as int), delete_empty, a, k);
                    let _ = seen(before, a, k);
                    let _ = seen(after, a, k);
                }
            }
            i = i + 1;
        }
        assert(all.subrange(0, total as int) =~= all);
        self.persist_logs(logs);
    }
}

impl<S: HostStore> ApplyBackend for Backend<S> {
    closed spec fn spec_logs(&self) -> Seq<LogView> {
        self.persisted@
    }

    fn apply(&mut self, values: Vec<Apply>, logs: Vec<Log>, delete_empty: bool) {
        proof {
            reveal(seen);
        }
        self.commit(values, logs, delete_empty);
    }
}

} // verus!
