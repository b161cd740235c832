//! A backend that keeps the whole chain state in memory.

use crate::account::copy_bytes;
use crate::address::Address;
use crate::backend::{
    change_views, committed, leaves_empty, slot_written, Apply, ApplyBackend, ApplyView, Backend, Basic,
    Committed, Log, LogView,
};
use crate::hash::{keccak256, keccak256_digest};
use crate::sorted_map::SortedMap;
use crate::word::Word;
use vstd::prelude::*;

verus! {

/// The block and transaction that a `MemoryBackend` answers with.
#[derive(Clone, Copy, Debug, PartialEq, Eq, Structural)]
pub struct MemoryVicinity {
    /// The gas price.
    pub gas_price: Word,
    /// The account that started the transaction.
    pub origin: Address,
    /// The chain's identifier.
    pub chain_id: Word,
    /// The number of the current block.
    pub block_number: Word,
    /// The beneficiary of the current block.
    pub block_coinbase: Address,
    /// The time of the current block.
    pub block_timestamp: Word,
    /// The difficulty of the current block.
    pub block_difficulty: Word,
    /// The gas limit of the current block.
    pub block_gas_limit: Word,
}

impl MemoryVicinity {
    /// A vicinity with the given origin and zero everywhere else.
    pub fn with_origin(origin: Address) -> (r: Self)
        ensures
            r == (MemoryVicinity {
                gas_price: Word::spec_zero(),
                origin,
                chain_id: Word::spec_zero(),
                block_number: Word::spec_zero(),
                block_coinbase: Address::spec_zero(),
                block_timestamp: Word::spec_zero(),
                block_difficulty: Word::spec_zero(),
                block_gas_limit: Word::spec_zero(),
            }),
    {
        MemoryVicinity {
            gas_price: Word::zero(),
            origin,
            chain_id: Word::zero(),
            block_number: Word::zero(),
            block_coinbase: Address::zero(),
            block_timestamp: Word::zero(),
            block_difficulty: Word::zero(),
            block_gas_limit: Word::zero(),
        }
    }
}

/// An account of a `MemoryBackend`.
pub struct MemoryAccount {
    /// Nonce and balance.
    pub basic: Basic,
    /// The code.
    pub code: Vec<u8>,
    /// The storage; a slot that is not held is zero.
    pub storage: SortedMap<Word, Word>,
}

/// What an account of a `MemoryBackend` holds.
pub struct MemoryAccountView {
    pub basic: Basic,
    pub code: Seq<u8>,
    pub storage: Map<Word, Word>,
}

impl View for MemoryAccount {
    type V = MemoryAccountView;

    open spec fn view(&self) -> MemoryAccountView {
        MemoryAccountView { basic: self.basic, code: self.code@, storage: self.storage@ }
    }
}

impl MemoryAccountView {
    /// What the storage holds at `index`.
    pub open spec fn slot(self, index: Word) -> Word {
        if self.storage.contains_key(index) {
            self.storage[index]
        } else {
            Word::spec_zero()
        }
    }
}

/// A backend in memory.
pub struct MemoryBackend {
    vicinity: MemoryVicinity,
    state: SortedMap<Address, MemoryAccount>,
    logs: Vec<Log>,
}

impl MemoryBackend {
    /// The accounts.
    pub closed spec fn accounts(&self) -> Map<Address, MemoryAccountView> {
        self.state@
    }

    /// The block and transaction that the backend answers with.
    pub closed spec fn spec_vicinity(&self) -> MemoryVicinity {
        self.vicinity
    }

    /// The logs, oldest first.
    pub closed spec fn log_seq(&self) -> Seq<LogView> {
        Seq::new(self.logs@.len(), |i: int| self.logs@[i]@)
    }

    /// A backend without accounts.
    pub fn new(vicinity: MemoryVicinity) -> (r: Self)
        ensures
            r.accounts() == Map::<Address, MemoryAccountView>::empty(),
            r.spec_vicinity() == vicinity,
            r.log_seq() == Seq::<LogView>::empty(),
    {
        let r = MemoryBackend { vicinity, state: SortedMap::new(), logs: Vec::new() };
        assert(r.log_seq() =~= Seq::<LogView>::empty());
        r
    }

    /// Sets the account that transactions start from.
    pub fn set_origin(&mut self, origin: Address)
        ensures
            final(self).accounts() == old(self).accounts(),
            final(self).log_seq() == old(self).log_seq(),
            final(self).spec_vicinity() == (MemoryVicinity { origin, ..old(self).spec_vicinity() }),
    {
        self.vicinity.origin = origin;
    }

    /// Puts an account into the state, in place of the one at the address.
    pub fn insert_account(&mut self, address: Address, basic: Basic, code: Vec<u8>, storage: Vec<(Word, Word)>)
        ensures
            final(self).spec_vicinity() == old(self).spec_vicinity(),
            final(self).log_seq() == old(self).log_seq(),
            final(self).accounts().dom() == old(self).accounts().dom().insert(address),
            forall|a: Address| a != address && old(self).accounts().contains_key(a) ==> final(self).accounts()[a] == old(self).accounts()[a],
            final(self).accounts()[address].basic == basic,
            final(self).accounts()[address].code == code@,
            forall|k: Word| #[trigger]
                final(self).accounts()[address].storage.contains_key(k) ==> slot_written(storage@, k)
                    == Some(final(self).accounts()[address].storage[k]),
            forall|k: Word| slot_written(storage@, k) is Some ==> #[trigger] final(self).accounts()[address].storage.contains_key(k),
    {
        let mut slots: SortedMap<Word, Word> = SortedMap::new();
        let n = storage.len();
        let mut i: usize = 0;
        while i < n
            invariant
                i <= n,
                n == storage@.len(),
                forall|k: Word| #[trigger]
                    slots@.contains_key(k) ==> slot_written(storage@.subrange(0, i as int), k) == Some(
                        slots@[k],
                    ),
                forall|k: Word|
                    slot_written(storage@.subrange(0, i as int), k) is Some ==> #[trigger] slots@.contains_key(
                        k,
                    ),
            decreases n - i,
        {
            let (k, v) = storage[i];
            slots = slots.insert(k, v);
            assert(storage@.subrange(0, i + 1).drop_last() =~= storage@.subrange(0, i as int));
            i = i + 1;
        }
        assert(storage@.subrange(0, n as int) =~= storage@);
        let mut state: SortedMap<Address, MemoryAccount> = SortedMap::new();
        std::mem::swap(&mut self.state, &mut state);
        self.state = state.insert(address, MemoryAccount { basic, code, storage: slots });
        assert(self.accounts().dom() =~= old(self).accounts().dom().insert(address));
    }

    /// The logs that were persisted, oldest first.
    pub fn logs(&self) -> (r: &Vec<Log>)
        ensures
            Seq::new(r@.len(), |i: int| r@[i]@) == self.log_seq(),
    {
        &self.logs
    }
}

impl Backend for MemoryBackend {
    closed spec fn spec_gas_left(&self) -> Word {
        Word::spec_zero()
    }

    closed spec fn spec_gas_price(&self) -> Word {
        self.vicinity.gas_price
    }

    closed spec fn spec_origin(&self) -> Address {
        self.vicinity.origin
    }

    closed spec fn spec_block_hash(&self, number: Word) -> Word {
        Word::spec_zero()
    }

    closed spec fn spec_block_number(&self) -> Word {
        self.vicinity.block_number
    }

    closed spec fn spec_block_coinbase(&self) -> Address {
        self.vicinity.block_coinbase
    }

    closed spec fn spec_block_timestamp(&self) -> Word {
        self.vicinity.block_timestamp
    }

    closed spec fn spec_block_difficulty(&self) -> Word {
        self.vicinity.block_difficulty
    }

    closed spec fn spec_block_gas_limit(&self) -> Word {
        self.vicinity.block_gas_limit
    }

    closed spec fn spec_chain_id(&self) -> Word {
        self.vicinity.chain_id
    }

    closed spec fn spec_exists(&self, address: Address) -> bool {
        self.state@.contains_key(address)
    }

    closed spec fn spec_basic(&self, address: Address) -> Basic {
        if self.state@.contains_key(address) {
            self.state@[address].basic
        } else {
            Basic::spec_empty()
        }
    }

    closed spec fn spec_code_hash(&self, address: Address) -> Word {
        Word::from_be(keccak256(self.spec_code(address)))
    }

    closed spec fn spec_code_size(&self, address: Address) -> usize {
        self.spec_code(address).len() as usize
    }

    closed spec fn spec_code(&self, address: Address) -> Seq<u8> {
        if self.state@.contains_key(address) {
            self.state@[address].code
        } else {
            Seq::empty()
        }
    }

    closed spec fn spec_storage(&self, address: Address, index: Word) -> Word {
        if self.state@.contains_key(address) {
            self.state@[address].slot(index)
        } else {
            Word::spec_zero()
        }
    }

    fn gas_left(&self) -> (r: Word) {
        Word::zero()
    }

    fn gas_price(&self) -> (r: Word) {
        self.vicinity.gas_price
    }

    fn origin(&self) -> (r: Address) {
        self.vicinity.origin
    }

    fn block_hash(&self, number: Word) -> (r: Word) {
        Word::zero()
    }

    fn block_number(&self) -> (r: Word) {
        self.vicinity.block_number
    }

    fn block_coinbase(&self) -> (r: Address) {
        self.vicinity.block_coinbase
    }

    fn block_timestamp(&self) -> (r: Word) {
        self.vicinity.block_timestamp
    }

    fn block_difficulty(&self) -> (r: Word) {
        self.vicinity.block_difficulty
    }

    fn block_gas_limit(&self) -> (r: Word) {
        self.vicinity.block_gas_limit
    }

    fn chain_id(&self) -> (r: Word) {
        self.vicinity.chain_id
    }

    fn account_exists(&self, address: Address) -> (r: bool) {
        self.state.contains_key(&address)
    }

    fn basic(&self, address: Address) -> (r: Basic) {
        match self.state.get(&address) {
            Some(a) => a.basic,
            None => Basic::empty(),
        }
    }

    fn code_hash(&self, address: Address) -> (r: Word) {
        let code = self.code(address);
        let digest = keccak256_digest(code.as_slice());
        Word::from_be_vec(&digest)
    }

    fn code_size(&self, address: Address) -> (r: usize) {
        match self.state.get(&address) {
            Some(a) => a.code.len(),
            None => 0,
        }
    }

    fn code(&self, address: Address) -> (r: Vec<u8>) {
        match self.state.get(&address) {
            Some(a) => copy_bytes(a.code.as_slice()),
            None => Vec::new(),
        }
    }

    fn storage(&self, address: Address, index: Word) -> (r: Word) {
        match self.state.get(&address) {
            Some(a) => match a.storage.get(&index) {
                Some(v) => *v,
                None => Word::zero(),
            },
            None => Word::zero(),
        }
    }
}

/// What a map of accounts says of one account and one slot of its storage.
pub open spec fn observed(accounts: Map<Address, MemoryAccountView>, address: Address, index: Word) -> Committed {
    if accounts.contains_key(address) {
        Committed {
            exists: true,
            basic: accounts[address].basic,
            code: accounts[address].code,
            slot: accounts[address].slot(index),
        }
    } else {
        Committed {
            exists: false,
            basic: Basic::spec_empty(),
            code: Seq::empty(),
            slot: Word::spec_zero(),
        }
    }
}

/// What a storage holds at `index`: zero where it holds no value.
pub open spec fn slot_of(storage: Map<Word, Word>, index: Word) -> Word {
    if storage.contains_key(index) {
        storage[index]
    } else {
        Word::spec_zero()
    }
}

/// Writes the slots of `storage` into `slots`, one after the other; a slot
/// that is written as zero is dropped.
fn write_slots(slots: SortedMap<Word, Word>, storage: &Vec<(Word, Word)>) -> (r: SortedMap<Word, Word>)
    ensures
        forall|k: Word|
            slot_of(r@, k) == match #[trigger] slot_written(storage@, k) {
                Some(v) => v,
                None => slot_of(slots@, k),
            },
{
    let ghost start = slots@;
    let mut slots = slots;
    let n = storage.len();
    let mut i: usize = 0;
    while i < n
        invariant
            i <= n,
            n == storage@.len(),
            forall|k: Word|
                slot_of(slots@, k) == match #[trigger] slot_written(storage@.subrange(0, i as int), k) {
                    Some(v) => v,
                    None => slot_of(start, k),
                },
        decreases n - i,
    {
        let (k, v) = storage[i];
        if v.is_zero() {
            slots = slots.remove(&k).0;
        } else {
            slots = slots.insert(k, v);
        }
        proof {
            assert(storage@.subrange(0, i + 1).drop_last() =~= storage@.subrange(0, i as int));
            assert forall|q: Word|
                slot_of(slots@, q) == match #[trigger] slot_written(storage@.subrange(0, i + 1), q) {
                    Some(v) => v,
                    None => slot_of(start, q),
                } by {
                let _ = slot_written(storage@.subrange(0, i as int), q);
            }
        }
        i = i + 1;
    }
    assert(storage@.subrange(0, n as int) =~= storage@);
    slots
}

/// Commits one `Modify`.
fn commit_modify(
    state: SortedMap<Address, MemoryAccount>,
    address: Address,
    basic: Basic,
    code: Option<Vec<u8>>,
    storage: Vec<(Word, Word)>,
    reset_storage: bool,
    delete_empty: bool,
) -> (r: SortedMap<Address, MemoryAccount>)
    ensures
        forall|a: Address, k: Word|
            a != address ==> #[trigger] observed(r@, a, k) == observed(state@, a, k),
        forall|k: Word| #[trigger]
            observed(r@, address, k) == if delete_empty && leaves_empty(
                observed(state@, address, k).code,
                basic,
                match code {
                    Some(c) => Some(c@),
                    None => None,
                },
            ) {
                Committed {
                    exists: false,
                    basic: Basic::spec_empty(),
                    code: Seq::empty(),
                    slot: Word::spec_zero(),
                }
            } else {
                Committed {
                    exists: true,
                    basic,
                    code: match code {
                        Some(c) => c@,
                        None => observed(state@, address, k).code,
                    },
                    slot: match slot_written(storage@, k) {
                        Some(v) => v,
                        None => if reset_storage {
                            Word::spec_zero()
                        } else {
                            observed(state@, address, k).slot
                        },
                    },
                }
            },
{
    let (rest, existing) = state.remove(&address);
    let (old_code, old_storage) = match existing {
        Some(account) => {
            let MemoryAccount { basic: _, code, storage } = account;
            (code, storage)
        },
        None => (Vec::new(), SortedMap::new()),
    };
    let ghost old_slots = old_storage@;
    let code = match code {
        Some(c) => c,
        None => old_code,
    };
    let is_empty = basic.balance.is_zero() && basic.nonce.is_zero() && code.len() == 0;
    if delete_empty && is_empty {
        return rest;
    }
    let slots = if reset_storage {
        SortedMap::new()
    } else {
        old_storage
    };
    let slots = write_slots(slots, &storage);
    let r = rest.insert(address, MemoryAccount { basic, code, storage: slots });
    proof {
        assert forall|k: Word| slot_of(old_slots, k) == observed(state@, address, k).slot by {}
        assert forall|k: Word| slot_of(Map::<Word, Word>::empty(), k) == Word::spec_zero() by {}
    }
    r
}

impl ApplyBackend for MemoryBackend {
    closed spec fn spec_logs(&self) -> Seq<LogView> {
        self.log_seq()
    }

    fn apply(&mut self, values: Vec<Apply>, logs: Vec<Log>, delete_empty: bool) {
        let ghost all = change_views(values@);
        let total = values.len();
        let mut values = values;
        let ghost given = values@;
        let mut pending: Vec<Apply> = Vec::new();
        while values.len() > 0
            invariant
                values@.len() + pending@.len() == total,
                total == given.len(),
                values@ == given.subrange(0, values@.len() as int),
                forall|j: int| 0 <= j < pending@.len() ==> pending@[j] == given[total - 1 - j],
            decreases values@.len(),
        {
            let e = values.pop().unwrap();
            pending.push(e);
        }
        let mut state: SortedMap<Address, MemoryAccount> = SortedMap::new();
        std::mem::swap(&mut self.state, &mut state);
        assert(all.subrange(0, 0) =~= Seq::<ApplyView>::empty());
        while pending.len() > 0
            invariant
                pending@.len() <= total,
                total == given.len(),
                all == change_views(given),
                forall|j: int| 0 <= j < pending@.len() ==> pending@[j] == given[total - 1 - j],
                forall|a: Address, k: Word|
                    observed(state@, a, k) == #[trigger] committed(
                        old(self),
                        all.subrange(0, total - pending@.len()),
                        delete_empty,
                        a,
                        k,
                    ),
            decreases pending@.len(),
        {
            let ghost i = total - pending@.len();
            let ghost before = state@;
            let apply = pending.pop().unwrap();
            assert(apply@ == all[i]);
            match apply {
                Apply::Modify { address, basic, code, storage, reset_storage } => {
                    state = commit_modify(state, address, basic, code, storage, reset_storage, delete_empty);
                },
                Apply::Delete { address } => {
                    state = state.remove(&address).0;
                },
            }
            proof {
                assert(all.subrange(0, i + 1).drop_last() =~= all.subrange(0, i));
                assert(all.subrange(0, i + 1).last() == all[i]);
                assert forall|a: Address, k: Word|
                    observed(state@, a, k) == #[trigger] committed(
                        old(self),
                        all.subrange(0, i + 1),
                        delete_empty,
                        a,
                        k,
                    ) by {
                    let _ = committed(old(self), all.subrange(0, i), delete_empty, a, k);
                    assert(observed(before, a, k) == committed(
                        old(self),
                        all.subrange(0, i),
                        delete_empty,
                        a,
                        k,
                    ));
                }
            }
        }
        assert(all.subrange(0, total as int) =~= all);
        self.state = state;
        let ghost new_logs = logs@;
        let mut logs = logs;
        self.logs.append(&mut logs);
        assert(self.log_seq() =~= old(self).log_seq() + Seq::new(
            new_logs.len(),
            |i: int| new_logs[i]@,
        ));
    }
}

} // verus!
