//! What the executor expects of the chain that hosts it.

use crate::address::Address;
use crate::context::Context;
use crate::error::{ExitError, ExitSucceed};
use crate::word::Word;
use vstd::prelude::*;

verus! {

/// The nonce and the balance of an account.
#[derive(Clone, Copy, Debug, PartialEq, Eq, Structural)]
pub struct Basic {
    /// The balance.
    pub balance: Word,
    /// The nonce.
    pub nonce: Word,
}

impl Basic {
    pub open spec fn spec_empty() -> Basic {
        Basic { balance: Word::spec_zero(), nonce: Word::spec_zero() }
    }

    /// Nonce 0 and balance 0: what an unknown account has.
    #[verifier::when_used_as_spec(spec_empty)]
    pub fn empty() -> (r: Basic)
        ensures
            r == Basic::spec_empty(),
    {
        Basic { balance: Word::zero(), nonce: Word::zero() }
    }
}

/// A log record.
#[derive(Debug)]
pub struct Log {
    /// The account that logged.
    pub address: Address,
    /// The topics, four at most.
    pub topics: Vec<Word>,
    /// The data.
    pub data: Vec<u8>,
}

/// What a log record holds.
pub struct LogView {
    pub address: Address,
    pub topics: Seq<Word>,
    pub data: Seq<u8>,
}

impl View for Log {
    type V = LogView;

    open spec fn view(&self) -> LogView {
        LogView { address: self.address, topics: self.topics@, data: self.data@ }
    }
}

/// One change to commit.
#[derive(Debug)]
pub enum Apply {
    /// Set the account at `address`.
    Modify {
        /// The account.
        address: Address,
        /// Its nonce and balance.
        basic: Basic,
        /// Its code, where it changes.
        code: Option<Vec<u8>>,
        /// The storage slots to write, in increasing order of the key.
        storage: Vec<(Word, Word)>,
        /// Whether the storage is emptied before the slots are written.
        reset_storage: bool,
    },
    /// Remove the account at `address`.
    Delete {
        /// The account.
        address: Address,
    },
}

/// What a change holds.
pub enum ApplyView {
    Modify {
        address: Address,
        basic: Basic,
        code: Option<Seq<u8>>,
        storage: Seq<(Word, Word)>,
        reset_storage: bool,
    },
    Delete { address: Address },
}

impl View for Apply {
    type V = ApplyView;

    open spec fn view(&self) -> ApplyView {
        match self {
            Apply::Modify { address, basic, code, storage, reset_storage } => ApplyView::Modify {
                address: *address,
                basic: *basic,
                code: match code {
                    Some(c) => Some(c@),
                    None => None,
                },
                storage: storage@,
                reset_storage: *reset_storage,
            },
            Apply::Delete { address } => ApplyView::Delete { address: *address },
        }
    }
}

/// The read-only view of the chain that an executor works on. Each method
/// returns what the spec function of the same name says; an unknown account
/// has nonce 0, balance 0 and no code, an unknown storage slot holds 0.
///
/// The spec functions have a default so that a type outside the verified
/// code can implement the trait; what is proved of an executor over such a
/// type rests on the type answering the same question in the same way.
pub trait Backend {
    closed spec fn spec_gas_left(&self) -> Word {
        arbitrary()
    }

    closed spec fn spec_gas_price(&self) -> Word {
        arbitrary()
    }

    closed spec fn spec_origin(&self) -> Address {
        arbitrary()
    }

    closed spec fn spec_block_hash(&self, number: Word) -> Word {
        arbitrary()
    }

    closed spec fn spec_block_number(&self) -> Word {
        arbitrary()
    }

    closed spec fn spec_block_coinbase(&self) -> Address {
        arbitrary()
    }

    closed spec fn spec_block_timestamp(&self) -> Word {
        arbitrary()
    }

    closed spec fn spec_block_difficulty(&self) -> Word {
        arbitrary()
    }

    closed spec fn spec_block_gas_limit(&self) -> Word {
        arbitrary()
    }

    closed spec fn spec_chain_id(&self) -> Word {
        arbitrary()
    }

    closed spec fn spec_exists(&self, address: Address) -> bool {
        arbitrary()
    }

    closed spec fn spec_basic(&self, address: Address) -> Basic {
        arbitrary()
    }

    closed spec fn spec_code_hash(&self, address: Address) -> Word {
        arbitrary()
    }

    closed spec fn spec_code_size(&self, address: Address) -> usize {
        arbitrary()
    }

    closed spec fn spec_code(&self, address: Address) -> Seq<u8> {
        arbitrary()
    }

    closed spec fn spec_storage(&self, address: Address, index: Word) -> Word {
        arbitrary()
    }

    /// The gas that is left.
    fn gas_left(&self) -> (r: Word)
        ensures
            r == self.spec_gas_left(),
    ;

    /// The gas price of the transaction.
    fn gas_price(&self) -> (r: Word)
        ensures
            r == self.spec_gas_price(),
    ;

    /// The account that started the transaction.
    fn origin(&self) -> (r: Address)
        ensures
            r == self.spec_origin(),
    ;

    /// The hash of the block with the given number.
    fn block_hash(&self, number: Word) -> (r: Word)
        ensures
            r == self.spec_block_hash(number),
    ;

    /// The number of the current block.
    fn block_number(&self) -> (r: Word)
        ensures
            r == self.spec_block_number(),
    ;

    /// The beneficiary of the current block.
    fn block_coinbase(&self) -> (r: Address)
        ensures
            r == self.spec_block_coinbase(),
    ;

    /// The time of the current block.
    fn block_timestamp(&self) -> (r: Word)
        ensures
            r == self.spec_block_timestamp(),
    ;

    /// The difficulty of the current block.
    fn block_difficulty(&self) -> (r: Word)
        ensures
            r == self.spec_block_difficulty(),
    ;

    /// The gas limit of the current block.
    fn block_gas_limit(&self) -> (r: Word)
        ensures
            r == self.spec_block_gas_limit(),
    ;

    /// The chain's identifier.
    fn chain_id(&self) -> (r: Word)
        ensures
            r == self.spec_chain_id(),
    ;

    /// Whether the account exists on the chain.
    fn account_exists(&self, address: Address) -> (r: bool)
        ensures
            r == self.spec_exists(address),
    ;

    /// The nonce and the balance of the account.
    fn basic(&self, address: Address) -> (r: Basic)
        ensures
            r == self.spec_basic(address),
    ;

    /// The hash of the account's code.
    fn code_hash(&self, address: Address) -> (r: Word)
        ensures
            r == self.spec_code_hash(address),
    ;

    /// The length of the account's code.
    fn code_size(&self, address: Address) -> (r: usize)
        ensures
            r == self.spec_code_size(address),
    ;

    /// The account's code.
    fn code(&self, address: Address) -> (r: Vec<u8>)
        ensures
            r@ == self.spec_code(address),
    ;

    /// What the account's storage holds at `index`.
    fn storage(&self, address: Address, index: Word) -> (r: Word)
        ensures
            r == self.spec_storage(address, index),
    ;
}

/// What a precompiled contract returned.
pub type PrecompileResult = Option<Result<(ExitSucceed, Vec<u8>), ExitError>>;

/// What a precompiled contract returned, as a view.
pub type PrecompileOutcome = Option<Result<(ExitSucceed, Seq<u8>), ExitError>>;

/// The view of a precompile result.
pub open spec fn precompile_view(r: PrecompileResult) -> PrecompileOutcome {
    match r {
        None => None,
        Some(Ok((s, out))) => Some(Ok((s, out@))),
        Some(Err(e)) => Some(Err(e)),
    }
}

/// The resolver of precompiled contracts: a pure function from an address,
/// an input and a context to `None`, where no precompile lives at the
/// address, or to what the precompile returns.
pub trait PrecompileSet {
    closed spec fn spec_resolve(&self, address: Address, input: Seq<u8>, context: Context) -> PrecompileOutcome {
        arbitrary()
    }

    fn resolve(&self, address: Address, input: &[u8], context: &Context) -> (r: PrecompileResult)
        ensures
            precompile_view(r) == self.spec_resolve(address, input@, *context),
    ;
}

/// The resolver that knows no precompiled contract.
#[derive(Clone, Copy, Debug)]
pub struct NoPrecompiles {}

impl PrecompileSet for NoPrecompiles {
    open spec fn spec_resolve(&self, address: Address, input: Seq<u8>, context: Context) -> PrecompileOutcome {
        None
    }

    fn resolve(&self, address: Address, input: &[u8], context: &Context) -> (r: PrecompileResult) {
        precompiles(address, input, context)
    }
}

/// The precompiled contracts of this engine: there are none.
pub fn precompiles(address: Address, input: &[u8], context: &Context) -> (r: PrecompileResult)
    ensures
        r is None,
{
    None
}

/// The views of a sequence of changes.
pub open spec fn change_views(values: Seq<Apply>) -> Seq<ApplyView> {
    Seq::new(values.len(), |i: int| values[i]@)
}

/// The value that the last of `entries` with the key `k` gives it, if any
/// does.
pub open spec fn slot_written(entries: Seq<(Word, Word)>, k: Word) -> Option<Word>
    decreases entries.len(),
{
    if entries.len() == 0 {
        None
    } else if entries.last().0 == k {
        Some(entries.last().1)
    } else {
        slot_written(entries.drop_last(), k)
    }
}

/// Whether a `Modify` of an account with the code `old_code` leaves it
/// without nonce, balance and code.
pub open spec fn leaves_empty(old_code: Seq<u8>, basic: Basic, code: Option<Seq<u8>>) -> bool {
    basic.balance.value() == 0 && basic.nonce.value() == 0 && (match code {
        Some(c) => c.len() == 0,
        None => old_code.len() == 0,
    })
}

/// What an account is after changes were committed to a backend: whether it
/// exists, its nonce and balance, its code and what its storage holds at
/// one index.
pub struct Committed {
    pub exists: bool,
    pub basic: Basic,
    pub code: Seq<u8>,
    pub slot: Word,
}

/// The account `address`, with slot `index` of its storage, after the
/// changes `values` were committed to `backend` one after the other. A
/// `Modify` sets nonce and balance, the code where it has one, empties the
/// storage where it resets it, and writes its slots; with `delete_empty`, an
/// account that it leaves without nonce, balance and code is removed. A
/// `Delete` removes the account. A removed account has no nonce, no balance,
/// no code, and zero in every slot.
pub open spec fn committed<B: Backend>(
    backend: &B,
    values: Seq<ApplyView>,
    delete_empty: bool,
    address: Address,
    index: Word,
) -> Committed
    decreases values.len(),
{
    if values.len() == 0 {
        Committed {
            exists: backend.spec_exists(address),
            basic: backend.spec_basic(address),
            code: backend.spec_code(address),
            slot: backend.spec_storage(address, index),
        }
    } else {
        let before = committed(backend, values.drop_last(), delete_empty, address, index);
        let removed = Committed {
            exists: false,
            basic: Basic::spec_empty(),
            code: Seq::empty(),
            slot: Word::spec_zero(),
        };
        match values.last() {
            ApplyView::Delete { address: at } => if at == address {
                removed
            } else {
                before
            },
            ApplyView::Modify { address: at, basic, code, storage, reset_storage } => if at != address {
                before
            } else if delete_empty && leaves_empty(before.code, basic, code) {
                removed
            } else {
                Committed {
                    exists: true,
                    basic,
                    code: match code {
                        Some(c) => c,
                        None => before.code,
                    },
                    slot: match slot_written(storage, index) {
                        Some(v) => v,
                        None => if reset_storage {
                            Word::spec_zero()
                        } else {
                            before.slot
                        },
                    },
                }
            },
        }
    }
}

/// A backend that commits changes. After a commit, nonce, balance, code and
/// storage of every account are what `committed` says.
pub trait ApplyBackend: Backend + Sized {
    /// The logs that the backend has persisted, oldest first.
    closed spec fn spec_logs(&self) -> Seq<LogView> {
        arbitrary()
    }

    /// Commits the changes, one after the other, and persists the logs in
    /// their order. What the backend does not change stays as it is: the
    /// block, the origin, the chain.
    fn apply(&mut self, values: Vec<Apply>, logs: Vec<Log>, delete_empty: bool)
        ensures
            forall|address: Address, index: Word|
                {
                    let c = #[trigger] committed(
                        old(self),
                        change_views(values@),
                        delete_empty,
                        address,
                        index,
                    );
                    &&& final(self).spec_basic(address) == c.basic
                    &&& final(self).spec_code(address) == c.code
                    &&& final(self).spec_storage(address, index) == c.slot
                },
            final(self).spec_logs() == old(self).spec_logs() + Seq::new(
                logs@.len(),
                |i: int| logs@[i]@,
            ),
            final(self).spec_origin() == old(self).spec_origin(),
            final(self).spec_chain_id() == old(self).spec_chain_id(),
    ;
}

} // verus!
