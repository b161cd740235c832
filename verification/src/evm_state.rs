//! Layered account state: a store of staged changes over a parent state.

use crate::account::copy_bytes;
use crate::address::Address;
use crate::sorted_map::{holds_before, increasing, lemma_place_before, Key, SortedMap};
use crate::word::{lemma_value_of_word, lemma_word_of_value, modulus, Word};
use vstd::prelude::*;

verus! {

/// What a state says of an account: its code, balance and nonce, and the
/// balance and nonce that the state itself holds for it, if it holds any.
pub struct AccountFacts {
    pub code: Option<Seq<u8>>,
    pub balance: Word,
    pub nonce: Word,
    pub own_balance: Option<Word>,
    pub own_nonce: Option<Word>,
}

/// What a state says of a storage slot of a contract: its value, whether
/// the state itself holds a storage for the contract, and the value that
/// this storage holds for the slot, if it holds one.
pub struct SlotFacts {
    pub value: Option<Word>,
    pub own_storage: bool,
    pub own_value: Option<Word>,
}

/// Staged changes: code, balances, nonces and storage by account, and log
/// lines.
pub struct StateStore {
    pub code: SortedMap<Address, Vec<u8>>,
    pub balances: SortedMap<Address, Word>,
    pub nonces: SortedMap<Address, Word>,
    pub storages: SortedMap<Address, SortedMap<Word, Word>>,
    pub logs: Vec<String>,
}

/// What a store holds.
pub struct StateStoreView {
    pub code: Map<Address, Seq<u8>>,
    pub balances: Map<Address, Word>,
    pub nonces: Map<Address, Word>,
    pub storages: Map<Address, Map<Word, Word>>,
    pub logs: Seq<Seq<char>>,
}

impl View for StateStore {
    type V = StateStoreView;

    open spec fn view(&self) -> StateStoreView {
        StateStoreView {
            code: self.code@,
            balances: self.balances@,
            nonces: self.nonces@,
            storages: self.storages@,
            logs: Seq::new(self.logs@.len(), |i: int| self.logs@[i]@),
        }
    }
}

/// The value of `k` in `m`, if it has one.
pub open spec fn lookup<K, V>(m: Map<K, V>, k: K) -> Option<V> {
    if m.contains_key(k) {
        Some(m[k])
    } else {
        None
    }
}

/// The storages of `older` with those of `newer` committed: where both hold
/// a storage for a contract, the slots of `newer` are written into that of
/// `older`; a storage that only one holds is kept.
pub open spec fn merged_storages(
    older: Map<Address, Map<Word, Word>>,
    newer: Map<Address, Map<Word, Word>>,
) -> Map<Address, Map<Word, Word>> {
    Map::new(
        |a: Address| older.contains_key(a) || newer.contains_key(a),
        |a: Address|
            if newer.contains_key(a) {
                if older.contains_key(a) {
                    older[a].union_prefer_right(newer[a])
                } else {
                    newer[a]
                }
            } else {
                older[a]
            },
    )
}

impl StateStoreView {
    /// What the store alone says of an account: what it does not hold is
    /// missing or zero.
    pub open spec fn account(self, address: Address) -> AccountFacts {
        AccountFacts {
            code: lookup(self.code, address),
            balance: match lookup(self.balances, address) {
                Some(b) => b,
                None => Word::spec_zero(),
            },
            nonce: match lookup(self.nonces, address) {
                Some(n) => n,
                None => Word::spec_zero(),
            },
            own_balance: lookup(self.balances, address),
            own_nonce: lookup(self.nonces, address),
        }
    }

    /// What the store alone says of a storage slot.
    pub open spec fn slot(self, address: Address, key: Word) -> SlotFacts {
        let own = match lookup(self.storages, address) {
            Some(s) => lookup(s, key),
            None => None,
        };
        SlotFacts { value: own, own_storage: self.storages.contains_key(address), own_value: own }
    }

    /// The store with the changes of `other` committed.
    pub open spec fn committed(self, other: StateStoreView) -> StateStoreView {
        StateStoreView {
            code: self.code.union_prefer_right(other.code),
            balances: self.balances.union_prefer_right(other.balances),
            nonces: self.nonces.union_prefer_right(other.nonces),
            storages: merged_storages(self.storages, other.storages),
            logs: self.logs + other.logs,
        }
    }
}

/// A copy of a text.
fn copy_text(text: &String) -> (r: String)
    ensures
        r@ == text@,
{
    text.clone()
}

impl StateStore {
    /// An empty store.
    pub fn new() -> (r: Self)
        ensures
            r@ == (StateStoreView {
                code: Map::empty(),
                balances: Map::empty(),
                nonces: Map::empty(),
                storages: Map::empty(),
                logs: Seq::empty(),
            }),
    {
        let r = StateStore {
            code: SortedMap::new(),
            balances: SortedMap::new(),
            nonces: SortedMap::new(),
            storages: SortedMap::new(),
            logs: Vec::new(),
        };
        assert(r@.logs =~= Seq::<Seq<char>>::empty());
        r
    }

    /// Commits staged code: the code of `other` replaces the code here.
    pub fn commit_code(&mut self, other: &SortedMap<Address, Vec<u8>>)
        ensures
            final(self)@ == (StateStoreView {
                code: old(self)@.code.union_prefer_right(other@),
                ..old(self)@
            }),
    {
        let mut code: SortedMap<Address, Vec<u8>> = SortedMap::new();
        std::mem::swap(&mut self.code, &mut code);
        self.code = code.absorb(other.duplicate());
    }

    /// Commits staged balances: the balances of `other` replace those here.
    pub fn commit_balances(&mut self, other: &SortedMap<Address, Word>)
        ensures
            final(self)@ == (StateStoreView {
                balances: old(self)@.balances.union_prefer_right(other@),
                ..old(self)@
            }),
    {
        let mut balances: SortedMap<Address, Word> = SortedMap::new();
        std::mem::swap(&mut self.balances, &mut balances);
        self.balances = balances.absorb(other.duplicate());
    }

    /// Commits staged nonces: the nonces of `other` replace those here.
    pub fn commit_nonces(&mut self, other: &SortedMap<Address, Word>)
        ensures
            final(self)@ == (StateStoreView {
                nonces: old(self)@.nonces.union_prefer_right(other@),
                ..old(self)@
            }),
    {
        let mut nonces: SortedMap<Address, Word> = SortedMap::new();
        std::mem::swap(&mut self.nonces, &mut nonces);
        self.nonces = nonces.absorb(other.duplicate());
    }

    /// Commits staged storage: the slots of `other` are written into the
    /// storage of the same contract here; a storage that is new here is
    /// taken whole.
    pub fn commit_storages(&mut self, other: &SortedMap<Address, SortedMap<Word, Word>>)
        ensures
            final(self)@ == (StateStoreView {
                storages: merged_storages(old(self)@.storages, other@),
                ..old(self)@
            }),
    {
        let mut storages: SortedMap<Address, SortedMap<Word, Word>> = SortedMap::new();
        std::mem::swap(&mut self.storages, &mut storages);
        let ghost start = storages@;
        let ghost keys = other.keys();
        let n = other.len();
        let mut i: usize = 0;
        proof {
            other.lemma_keys();
        }
        while i < n
            invariant
                i <= n,
                n == keys.len(),
                keys == other.keys(),
                increasing(keys),
                forall|q: Address|
                    storages@.contains_key(q) <==> (start.contains_key(q) || holds_before(keys, i as int, q)),
                forall|j: int|
                    0 <= j < i ==> storages@[#[trigger] keys[j]] == merged_storages(start, other@)[keys[j]],
                forall|q: Address|
                    start.contains_key(q) && !holds_before(keys, i as int, q) ==> storages@[q] == start[q],
            decreases n - i,
        {
            let k = other.key_at(i);
            let v = other.value_at(i).duplicate();
            proof {
                assert(!holds_before(keys, i as int, k)) by {
                    if holds_before(keys, i as int, k) {
                        let j = choose|j: int| 0 <= j < i && j < keys.len() && keys[j] == k;
                        assert(keys[j].rank() < keys[i as int].rank());
                    }
                }
            }
            let ghost before = storages@;
            let (rest, existing) = storages.remove(&k);
            let merged = match existing {
                Some(slots) => slots.absorb(v),
                None => v,
            };
            storages = rest.insert(k, merged);
            proof {
                assert(before.contains_key(k) == start.contains_key(k));
                if before.contains_key(k) {
                    assert(before[k] == start[k]);
                }
                assert(storages@[k] == merged_storages(start, other@)[k]);
                assert forall|q: Address| holds_before(keys, i + 1, q) <==> (q == k || holds_before(keys, i as int, q)) by {
                    if q == k {
                        assert(0 <= i < i + 1 && keys[i as int] == q);
                    }
                    if holds_before(keys, i + 1, q) {
                        let j = choose|j: int| 0 <= j < i + 1 && j < keys.len() && keys[j] == q;
                        if j < i {
                            assert(0 <= j < i && j < keys.len() && keys[j] == q);
                        }
                    }
                    if holds_before(keys, i as int, q) {
                        let j = choose|j: int| 0 <= j < i && j < keys.len() && keys[j] == q;
                        assert(0 <= j < i + 1 && j < keys.len() && keys[j] == q);
                    }
                }
                assert forall|j: int| 0 <= j < i + 1 implies storages@[#[trigger] keys[j]]
                    == merged_storages(start, other@)[keys[j]] by {
                    if j < i {
                        assert(keys[j].rank() < keys[i as int].rank());
                    }
                }
                assert forall|q: Address|
                    storages@.contains_key(q) <==> (start.contains_key(q) || holds_before(
                        keys,
                        i + 1,
                        q,
                    )) by {
                    assert(storages@.contains_key(q) <==> (before.contains_key(q) || q == k));
                }
                assert forall|q: Address|
                    start.contains_key(q) && !holds_before(keys, i + 1, q) implies storages@[q]
                    == start[q] by {
                    assert(q != k);
                    assert(!holds_before(keys, i as int, q));
                }
            }
            i = i + 1;
        }
        proof {
            other.lemma_keys();
            assert forall|q: Address| other@.contains_key(q) <==> holds_before(keys, n as int, q) by {
                if other@.contains_key(q) {
                    assert(keys.contains(q));
                    let j = choose|j: int| 0 <= j < keys.len() && keys[j] == q;
                    assert(0 <= j < n && j < keys.len() && keys[j] == q);
                }
                if holds_before(keys, n as int, q) {
                    let j = choose|j: int| 0 <= j < n && j < keys.len() && keys[j] == q;
                    assert(keys[j] == q);
                    assert(keys.contains(q));
                }
            }
            assert forall|q: Address| other@.contains_key(q) implies storages@[q] == merged_storages(
                start,
                other@,
            )[q] by {
                let j = lemma_place_before(keys, n as int, q);
                assert(storages@[keys[j]] == merged_storages(start, other@)[keys[j]]);
            }
            let merged = merged_storages(start, other@);
            assert forall|q: Address| storages@.contains_key(q) <==> merged.contains_key(q) by {
                assert(storages@.contains_key(q) <==> (start.contains_key(q) || holds_before(
                    keys,
                    i as int,
                    q,
                )));
                assert(other@.contains_key(q) <==> holds_before(keys, n as int, q));
            }
            assert forall|q: Address| storages@.contains_key(q) implies storages@[q] == merged[q] by {
                if !other@.contains_key(q) {
                    assert(!holds_before(keys, n as int, q));
                }
            }
            assert(storages@ =~= merged);
        }
        self.storages = storages;
    }

    /// Commits the log lines of `other`: they are added after those here.
    pub fn commit_logs(&mut self, other: &Vec<String>)
        ensures
            final(self)@ == (StateStoreView {
                logs: old(self)@.logs + Seq::new(other@.len(), |i: int| other@[i]@),
                ..old(self)@
            }),
    {
        let n = other.len();
        let mut i: usize = 0;
        let ghost first = self.logs@;
        while i < n
            invariant
                i <= n,
                n == other@.len(),
                self.code == old(self).code,
                self.balances == old(self).balances,
                self.nonces == old(self).nonces,
                self.storages == old(self).storages,
                first == old(self).logs@,
                self.logs@.len() == first.len() + i,
                forall|j: int| 0 <= j < first.len() ==> self.logs@[j] == first[j],
                forall|j: int| 0 <= j < i ==> (#[trigger] self.logs@[first.len() + j])@ == other@[j]@,
            decreases n - i,
        {
            self.logs.push(copy_text(&other[i]));
            i = i + 1;
        }
        proof {
            let added = Seq::new(other@.len(), |i: int| other@[i]@);
            assert forall|j: int| 0 <= j < self@.logs.len() implies self@.logs[j] == (old(self)@.logs
                + added)[j] by {
                if j >= first.len() {
                    assert(self.logs@[first.len() + (j - first.len())]@ == other@[j - first.len()]@);
                }
            }
            assert(self@.logs =~= old(self)@.logs + added);
        }
    }

    /// Commits everything that `other` has staged.
    pub fn commit(&mut self, other: &StateStore)
        ensures
            final(self)@ == old(self)@.committed(other@),
    {
        self.commit_code(&other.code);
        self.commit_balances(&other.balances);
        self.commit_nonces(&other.nonces);
        self.commit_storages(&other.storages);
        self.commit_logs(&other.logs);
    }
}

impl StateStore {
    /// Stages the code of an account.
    pub fn put_code(&mut self, address: Address, code: Vec<u8>)
        ensures
            final(self)@ == (StateStoreView { code: old(self)@.code.insert(address, code@), ..old(self)@ }),
    {
        let mut m: SortedMap<Address, Vec<u8>> = SortedMap::new();
        std::mem::swap(&mut self.code, &mut m);
        self.code = m.insert(address, code);
    }

    /// Stages the balance of an account and gives back the one that was
    /// staged before.
    pub fn put_balance(&mut self, address: Address, balance: Word) -> (r: Option<Word>)
        ensures
            r == lookup(old(self)@.balances, address),
            final(self)@ == (StateStoreView {
                balances: old(self)@.balances.insert(address, balance),
                ..old(self)@
            }),
    {
        let mut m: SortedMap<Address, Word> = SortedMap::new();
        std::mem::swap(&mut self.balances, &mut m);
        let previous = match m.get(&address) {
            Some(b) => Some(*b),
            None => None,
        };
        self.balances = m.insert(address, balance);
        previous
    }

    /// Stages the nonce of an account and gives back the one that was
    /// staged before.
    pub fn put_nonce(&mut self, address: Address, nonce: Word) -> (r: Option<Word>)
        ensures
            r == lookup(old(self)@.nonces, address),
            final(self)@ == (StateStoreView {
                nonces: old(self)@.nonces.insert(address, nonce),
                ..old(self)@
            }),
    {
        let mut m: SortedMap<Address, Word> = SortedMap::new();
        std::mem::swap(&mut self.nonces, &mut m);
        let previous = match m.get(&address) {
            Some(b) => Some(*b),
            None => None,
        };
        self.nonces = m.insert(address, nonce);
        previous
    }

    /// Stages a storage slot of a contract, in a storage that is made for
    /// the contract where the store holds none, and gives back the value
    /// that was staged before.
    pub fn put_slot(&mut self, address: Address, key: Word, value: Word) -> (r: Option<Word>)
        ensures
            r == old(self)@.slot(address, key).own_value,
            final(self)@ == (StateStoreView {
                storages: old(self)@.storages.insert(
                    address,
                    match lookup(old(self)@.storages, address) {
                        Some(s) => s.insert(key, value),
                        None => Map::<Word, Word>::empty().insert(key, value),
                    },
                ),
                ..old(self)@
            }),
    {
        let mut m: SortedMap<Address, SortedMap<Word, Word>> = SortedMap::new();
        std::mem::swap(&mut self.storages, &mut m);
        let (rest, existing) = m.remove(&address);
        let slots = match existing {
            Some(s) => s,
            None => SortedMap::new(),
        };
        let previous = match slots.get(&key) {
            Some(v) => Some(*v),
            None => None,
        };
        self.storages = rest.insert(address, slots.insert(key, value));
        assert(self@.storages =~= old(self)@.storages.insert(
            address,
            match lookup(old(self)@.storages, address) {
                Some(s) => s.insert(key, value),
                None => Map::<Word, Word>::empty().insert(key, value),
            },
        ));
        previous
    }
}

/// The facts of an account after the changes of `other` were committed over
/// `before`.
pub open spec fn account_after_commit(before: AccountFacts, other: StateStoreView, address: Address) -> AccountFacts {
    AccountFacts {
        code: match lookup(other.code, address) {
            Some(c) => Some(c),
            None => before.code,
        },
        balance: match lookup(other.balances, address) {
            Some(b) => b,
            None => before.balance,
        },
        nonce: match lookup(other.nonces, address) {
            Some(n) => n,
            None => before.nonce,
        },
        own_balance: match lookup(other.balances, address) {
            Some(b) => Some(b),
            None => before.own_balance,
        },
        own_nonce: match lookup(other.nonces, address) {
            Some(n) => Some(n),
            None => before.own_nonce,
        },
    }
}

/// The facts of a storage slot after the changes of `other` were committed
/// over `before`.
pub open spec fn slot_after_commit(before: SlotFacts, other: StateStoreView, address: Address, key: Word) -> SlotFacts {
    match lookup(other.storages, address) {
        None => before,
        Some(s) => {
            let own = match lookup(s, key) {
                Some(v) => Some(v),
                None => if before.own_storage {
                    before.own_value
                } else {
                    None
                },
            };
            SlotFacts { value: own, own_storage: true, own_value: own }
        },
    }
}

/// The facts of a storage slot after `value` was written at `key` of the
/// contract `address`.
pub open spec fn slot_after_write(before: SlotFacts, address: Address, key: Word, value: Word, a: Address, k: Word) -> SlotFacts {
    if a != address {
        before
    } else if k == key {
        SlotFacts { value: Some(value), own_storage: true, own_value: Some(value) }
    } else {
        let own = if before.own_storage {
            before.own_value
        } else {
            None
        };
        SlotFacts { value: own, own_storage: true, own_value: own }
    }
}

/// A state of accounts that changes can be staged on.
pub trait EvmState {
    /// What the state says of an account.
    closed spec fn account(&self, address: Address) -> AccountFacts {
        arbitrary()
    }

    /// What the state says of a storage slot of a contract.
    closed spec fn slot(&self, address: Address, key: Word) -> SlotFacts {
        arbitrary()
    }

    /// The code of the account, if it has any.
    fn code_at(&self, address: &Address) -> (r: Option<Vec<u8>>)
        ensures
            r is Some == self.account(*address).code is Some,
            r is Some ==> self.account(*address).code == Some(r->0@),
    ;

    /// Sets the code of the account.
    fn set_code(&mut self, address: &Address, bytecode: &[u8])
        ensures
            forall|a: Address| #[trigger]
                final(self).account(a) == if a == *address {
                    AccountFacts { code: Some(bytecode@), ..old(self).account(a) }
                } else {
                    old(self).account(a)
                },
            forall|a: Address, k: Word| #[trigger] final(self).slot(a, k) == old(self).slot(a, k),
    ;

    /// Sets the balance of the account and gives back the balance that the
    /// state itself held for it before.
    fn _set_balance(&mut self, address: Address, balance: Word) -> (r: Option<Word>)
        ensures
            r == old(self).account(address).own_balance,
            forall|a: Address| #[trigger]
                final(self).account(a) == if a == address {
                    AccountFacts { balance, own_balance: Some(balance), ..old(self).account(a) }
                } else {
                    old(self).account(a)
                },
            forall|a: Address, k: Word| #[trigger] final(self).slot(a, k) == old(self).slot(a, k),
    ;

    /// The balance of the account.
    fn _balance_of(&self, address: Address) -> (r: Word)
        ensures
            r == self.account(address).balance,
    ;

    /// Sets the nonce of the account and gives back the nonce that the state
    /// itself held for it before.
    fn _set_nonce(&mut self, address: Address, nonce: Word) -> (r: Option<Word>)
        ensures
            r == old(self).account(address).own_nonce,
            forall|a: Address| #[trigger]
                final(self).account(a) == if a == address {
                    AccountFacts { nonce, own_nonce: Some(nonce), ..old(self).account(a) }
                } else {
                    old(self).account(a)
                },
            forall|a: Address, k: Word| #[trigger] final(self).slot(a, k) == old(self).slot(a, k),
    ;

    /// The nonce of the account.
    fn _nonce_of(&self, address: Address) -> (r: Word)
        ensures
            r == self.account(address).nonce,
    ;

    /// What the storage of the contract holds at `key`, if anything.
    fn read_contract_storage(&self, address: &Address, key: Word) -> (r: Option<Word>)
        ensures
            r == self.slot(*address, key).value,
    ;

    /// Writes a storage slot of the contract and gives back the value that
    /// the state itself held for it before.
    fn set_contract_storage(&mut self, address: &Address, key: Word, value: Word) -> (r: Option<Word>)
        ensures
            r == (if old(self).slot(*address, key).own_storage {
                old(self).slot(*address, key).own_value
            } else {
                None
            }),
            forall|a: Address| #[trigger] final(self).account(a) == old(self).account(a),
            forall|a: Address, k: Word| #[trigger]
                final(self).slot(a, k) == slot_after_write(old(self).slot(a, k), *address, key, value, a, k),
    ;

    /// Commits the changes that `other` has staged.
    fn commit_changes(&mut self, other: &StateStore)
        ensures
            forall|a: Address| #[trigger]
                final(self).account(a) == account_after_commit(old(self).account(a), other@, a),
            forall|a: Address, k: Word| #[trigger]
                final(self).slot(a, k) == slot_after_commit(old(self).slot(a, k), other@, a, k),
    ;

    /// Sets the balance of the account.
    fn set_balance(&mut self, address: &Address, balance: Word) -> (r: Option<Word>)
        ensures
            r == old(self).account(*address).own_balance,
            forall|a: Address| #[trigger]
                final(self).account(a) == if a == *address {
                    AccountFacts { balance, own_balance: Some(balance), ..old(self).account(a) }
                } else {
                    old(self).account(a)
                },
            forall|a: Address, k: Word| #[trigger] final(self).slot(a, k) == old(self).slot(a, k),
    {
        self._set_balance(*address, balance)
    }

    /// The balance of the account.
    fn balance_of(&self, address: &Address) -> (r: Word)
        ensures
            r == self.account(*address).balance,
    {
        self._balance_of(*address)
    }

    /// Sets the nonce of the account.
    fn set_nonce(&mut self, address: &Address, nonce: Word) -> (r: Option<Word>)
        ensures
            r == old(self).account(*address).own_nonce,
            forall|a: Address| #[trigger]
                final(self).account(a) == if a == *address {
                    AccountFacts { nonce, own_nonce: Some(nonce), ..old(self).account(a) }
                } else {
                    old(self).account(a)
                },
            forall|a: Address, k: Word| #[trigger] final(self).slot(a, k) == old(self).slot(a, k),
    {
        self._set_nonce(*address, nonce)
    }

    /// The nonce of the account.
    fn nonce_of(&self, address: &Address) -> (r: Word)
        ensures
            r == self.account(*address).nonce,
    {
        self._nonce_of(*address)
    }

    /// Gives the nonce of the account and raises it by one.
    fn next_nonce(&mut self, address: &Address) -> (r: Word)
        requires
            old(self).account(*address).nonce.value() + 1 < modulus(),
        ensures
            r == old(self).account(*address).nonce,
            forall|a: Address| #[trigger]
                final(self).account(a) == if a == *address {
                    AccountFacts {
                        nonce: Word::from_nat(r.value() + 1),
                        own_nonce: Some(Word::from_nat(r.value() + 1)),
                        ..old(self).account(a)
                    }
                } else {
                    old(self).account(a)
                },
            forall|a: Address, k: Word| #[trigger] final(self).slot(a, k) == old(self).slot(a, k),
    {
        let nonce = self.nonce_of(address);
        match nonce.checked_add(Word::one()) {
            Some(next) => {
                proof {
                    lemma_word_of_value(next);
                }
                let _ = self.set_nonce(address, next);
            },
            None => {},
        }
        nonce
    }

    /// Adds `incr` to the balance of the account.
    fn add_balance(&mut self, address: &Address, incr: Word) -> (r: Option<Word>)
        requires
            old(self).account(*address).balance.value() + incr.value() < modulus(),
        ensures
            r == old(self).account(*address).own_balance,
            forall|a: Address| #[trigger]
                final(self).account(a) == if a == *address {
                    let sum = Word::from_nat(old(self).account(a).balance.value() + incr.value());
                    AccountFacts { balance: sum, own_balance: Some(sum), ..old(self).account(a) }
                } else {
                    old(self).account(a)
                },
            forall|a: Address, k: Word| #[trigger] final(self).slot(a, k) == old(self).slot(a, k),
    {
        let balance = self.balance_of(address);
        match balance.checked_add(incr) {
            Some(sum) => {
                proof {
                    lemma_word_of_value(sum);
                }
                self.set_balance(address, sum)
            },
            None => None,
        }
    }

    /// Takes `decr` from the balance of the account.
    fn sub_balance(&mut self, address: &Address, decr: Word) -> (r: Option<Word>)
        requires
            old(self).account(*address).balance.value() >= decr.value(),
        ensures
            r == old(self).account(*address).own_balance,
            forall|a: Address| #[trigger]
                final(self).account(a) == if a == *address {
                    let rest = Word::from_nat(
                        (old(self).account(a).balance.value() - decr.value()) as nat,
                    );
                    AccountFacts { balance: rest, own_balance: Some(rest), ..old(self).account(a) }
                } else {
                    old(self).account(a)
                },
            forall|a: Address, k: Word| #[trigger] final(self).slot(a, k) == old(self).slot(a, k),
    {
        let balance = self.balance_of(address);
        let rest = balance.wrapping_sub(decr);
        proof {
            lemma_word_of_value(balance);
            lemma_word_of_value(decr);
            let d = (balance.value() - decr.value()) as nat;
            vstd::arithmetic::div_mod::lemma_small_mod(d, modulus());
            lemma_value_of_word(d);
        }
        self.set_balance(address, rest)
    }

    /// Moves `amnt` from the sender to the recipient.
    fn transfer_balance(&mut self, sender: &Address, recipient: &Address, amnt: Word)
        requires
            old(self).account(*sender).balance.value() >= amnt.value(),
            *sender != *recipient ==> old(self).account(*recipient).balance.value() + amnt.value()
                < modulus(),
        ensures
            forall|a: Address| #[trigger]
                final(self).account(a) == if a == *sender && a == *recipient {
                    AccountFacts {
                        own_balance: Some(old(self).account(a).balance),
                        ..old(self).account(a)
                    }
                } else if a == *sender {
                    let rest = Word::from_nat(
                        (old(self).account(a).balance.value() - amnt.value()) as nat,
                    );
                    AccountFacts { balance: rest, own_balance: Some(rest), ..old(self).account(a) }
                } else if a == *recipient {
                    let sum = Word::from_nat(old(self).account(a).balance.value() + amnt.value());
                    AccountFacts { balance: sum, own_balance: Some(sum), ..old(self).account(a) }
                } else {
                    old(self).account(a)
                },
            forall|a: Address, k: Word| #[trigger] final(self).slot(a, k) == old(self).slot(a, k),
    {
        let ghost before = old(self).account(*sender).balance;
        proof {
            lemma_word_of_value(before);
            lemma_word_of_value(amnt);
            lemma_value_of_word((before.value() - amnt.value()) as nat);
        }
        let _ = self.sub_balance(sender, amnt);
        let ghost mid = self.account(*sender);
        let _ = self.add_balance(recipient, amnt);
        proof {
            if *sender == *recipient {
                assert(Word::from_nat(mid.balance.value() + amnt.value()) == before);
            }
        }
    }
}

impl EvmState for StateStore {
    open spec fn account(&self, address: Address) -> AccountFacts {
        self@.account(address)
    }

    open spec fn slot(&self, address: Address, key: Word) -> SlotFacts {
        self@.slot(address, key)
    }

    fn code_at(&self, address: &Address) -> (r: Option<Vec<u8>>) {
        match self.code.get(address) {
            Some(c) => Some(copy_bytes(c.as_slice())),
            None => None,
        }
    }

    fn set_code(&mut self, address: &Address, bytecode: &[u8]) {
        self.put_code(*address, copy_bytes(bytecode));
    }

    fn _set_balance(&mut self, address: Address, balance: Word) -> (r: Option<Word>) {
        self.put_balance(address, balance)
    }

    fn _balance_of(&self, address: Address) -> (r: Word) {
        match self.balances.get(&address) {
            Some(b) => *b,
            None => Word::zero(),
        }
    }

    fn _set_nonce(&mut self, address: Address, nonce: Word) -> (r: Option<Word>) {
        self.put_nonce(address, nonce)
    }

    fn _nonce_of(&self, address: Address) -> (r: Word) {
        match self.nonces.get(&address) {
            Some(b) => *b,
            None => Word::zero(),
        }
    }

    fn read_contract_storage(&self, address: &Address, key: Word) -> (r: Option<Word>) {
        match self.storages.get(address) {
            Some(s) => match s.get(&key) {
                Some(v) => Some(*v),
                None => None,
            },
            None => None,
        }
    }

    fn set_contract_storage(&mut self, address: &Address, key: Word, value: Word) -> (r: Option<Word>) {
        self.put_slot(*address, key, value)
    }

    fn commit_changes(&mut self, other: &StateStore) {
        self.commit(other);
    }
}

/// Changes staged over a parent state: what is not staged is read from the
/// parent.
pub struct SubState<'a, P: EvmState> {
    /// The sender of the message that the changes belong to.
    pub msg_sender: Address,
    /// The staged changes.
    pub state: StateStore,
    /// The state below.
    pub parent: &'a P,
}

impl<'a, P: EvmState> SubState<'a, P> {
    /// A layer over `parent` that has `state` staged.
    pub fn new(msg_sender: Address, state: StateStore, parent: &'a P) -> (r: Self)
        ensures
            r.msg_sender == msg_sender,
            r.state == state,
            *r.parent == *parent,
    {
        SubState { msg_sender, state, parent }
    }

    /// Gives the staged changes back.
    pub fn into_state(self) -> (r: StateStore)
        ensures
            r == self.state,
    {
        self.state
    }

    /// The storage that is staged for the contract, if there is one.
    pub fn contract_storage(&self, address: Address) -> (r: Option<&SortedMap<Word, Word>>)
        ensures
            r is Some == self.state@.storages.contains_key(address),
            r is Some ==> r->0@ == self.state@.storages[address],
    {
        self.state.storages.get(&address)
    }

    /// Makes sure that a storage is staged for the contract: where there is
    /// none, an empty one is made.
    pub fn mut_contract_storage(&mut self, address: Address)
        ensures
            final(self).msg_sender == old(self).msg_sender,
            final(self).parent == old(self).parent,
            final(self).state@ == (StateStoreView {
                storages: if old(self).state@.storages.contains_key(address) {
                    old(self).state@.storages
                } else {
                    old(self).state@.storages.insert(address, Map::empty())
                },
                ..old(self).state@
            }),
    {
        if !self.state.storages.contains_key(&address) {
            let mut m: SortedMap<Address, SortedMap<Word, Word>> = SortedMap::new();
            std::mem::swap(&mut self.state.storages, &mut m);
            self.state.storages = m.insert(address, SortedMap::new());
        }
    }
}

impl<'a, P: EvmState> EvmState for SubState<'a, P> {
    open spec fn account(&self, address: Address) -> AccountFacts {
        AccountFacts {
            code: match lookup(self.state@.code, address) {
                Some(c) => Some(c),
                None => self.parent.account(address).code,
            },
            balance: match lookup(self.state@.balances, address) {
                Some(b) => b,
                None => self.parent.account(address).balance,
            },
            nonce: match lookup(self.state@.nonces, address) {
                Some(n) => n,
                None => self.parent.account(address).nonce,
            },
            own_balance: lookup(self.state@.balances, address),
            own_nonce: lookup(self.state@.nonces, address),
        }
    }

    open spec fn slot(&self, address: Address, key: Word) -> SlotFacts {
        match lookup(self.state@.storages, address) {
            Some(s) => SlotFacts { value: lookup(s, key), own_storage: true, own_value: lookup(s, key) },
            None => SlotFacts {
                value: self.parent.slot(address, key).value,
                own_storage: false,
                own_value: None,
            },
        }
    }

    fn code_at(&self, address: &Address) -> (r: Option<Vec<u8>>) {
        match self.state.code.get(address) {
            Some(c) => Some(copy_bytes(c.as_slice())),
            None => self.parent.code_at(address),
        }
    }

    fn set_code(&mut self, address: &Address, bytecode: &[u8]) {
        self.state.put_code(*address, copy_bytes(bytecode));
    }

    fn _set_balance(&mut self, address: Address, balance: Word) -> (r: Option<Word>) {
        self.state.put_balance(address, balance)
    }

    fn _balance_of(&self, address: Address) -> (r: Word) {
        match self.state.balances.get(&address) {
            Some(b) => *b,
            None => self.parent._balance_of(address),
        }
    }

    fn _set_nonce(&mut self, address: Address, nonce: Word) -> (r: Option<Word>) {
        self.state.put_nonce(address, nonce)
    }

    fn _nonce_of(&self, address: Address) -> (r: Word) {
        match self.state.nonces.get(&address) {
            Some(b) => *b,
            None => self.parent._nonce_of(address),
        }
    }

    fn read_contract_storage(&self, address: &Address, key: Word) -> (r: Option<Word>) {
        match self.contract_storage(*address) {
            Some(s) => match s.get(&key) {
                Some(v) => Some(*v),
                None => None,
            },
            None => self.parent.read_contract_storage(address, key),
        }
    }

    fn set_contract_storage(&mut self, address: &Address, key: Word, value: Word) -> (r: Option<Word>) {
        self.state.put_slot(*address, key, value)
    }

    fn commit_changes(&mut self, other: &StateStore) {
        self.state.commit(other);
    }
}

} // verus!
