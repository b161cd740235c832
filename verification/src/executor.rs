//! The stack executor: the substates of the active call frames over a
//! backend, and what reading and writing accounts through them means.

use crate::account::{AccountView, StackAccount, StackExitKind, StackSubstate, SubstateView};
use crate::address::Address;
use crate::account::log_views;
use crate::backend::{Apply, ApplyView, Backend, Basic, Log, LogView, PrecompileSet};
use crate::config::Config;
use crate::context::{CreateScheme, Transfer};
use crate::error::ExitError;
use crate::hash::{keccak256, keccak256_digest, rlp_address_and_number, rlp_encode_address_and_number};
use crate::sorted_map::{increasing, keys_of, lists, Key, SortedMap};
use crate::word::{lemma_word_of_value, modulus, Word};
use vstd::prelude::*;

verus! {

/// The message of the fault of a frame that tries to change the state though
/// it may not.
pub open spec fn static_fault() -> ExitError {
    ExitError::Other("MutableCallInStaticContext")
}

/// The message of the fault of a deposit that would take a balance to
/// `2^256` or beyond.
pub open spec fn overflow_fault() -> ExitError {
    ExitError::Other("BalanceOverflow")
}

/// The record that the topmost of `substates` holding `address` has for it.
pub open spec fn find_account(substates: Seq<SubstateView>, address: Address) -> Option<AccountView>
    decreases substates.len(),
{
    if substates.len() == 0 {
        None
    } else if substates.last().state.contains_key(address) {
        Some(substates.last().state[address])
    } else {
        find_account(substates.drop_last(), address)
    }
}

/// The address of a contract created by `sender` at `nonce`: the last 20
/// bytes of the Keccak-256 digest of the RLP list of the two.
pub open spec fn legacy_address(sender: Address, nonce: Word) -> Address {
    Address::from_be(
        keccak256(rlp_address_and_number(sender.be_bytes(), nonce.be_bytes())).subrange(12, 32),
    )
}

/// The address of a contract created by `sender` with `salt` from init code
/// with the digest `code_hash`: the last 20 bytes of the Keccak-256 digest
/// of `0xff`, the sender, the salt and the code's digest.
pub open spec fn create2_address(sender: Address, salt: Word, code_hash: Word) -> Address {
    Address::from_be(
        keccak256(seq![0xffu8] + sender.be_bytes() + salt.be_bytes() + code_hash.be_bytes()).subrange(
            12,
            32,
        ),
    )
}

/// The same sender and the same nonce give the same address.
pub proof fn lemma_legacy_address_is_pure(
    sender_a: Address,
    nonce_a: Word,
    sender_b: Address,
    nonce_b: Word,
)
    requires
        sender_a == sender_b,
        nonce_a == nonce_b,
    ensures
        legacy_address(sender_a, nonce_a) == legacy_address(sender_b, nonce_b),
{
}

/// The account that a change is about.
pub open spec fn apply_address(a: ApplyView) -> Address {
    match a {
        ApplyView::Modify { address, .. } => address,
        ApplyView::Delete { address } => address,
    }
}

/// Whether the change sets the account at `address` to `account`: its nonce,
/// balance and code, and its staged storage slots in increasing order of
/// the key.
pub open spec fn is_modify_of(a: ApplyView, address: Address, account: AccountView) -> bool {
    match a {
        ApplyView::Modify { address: at, basic, code, storage, reset_storage } => {
            &&& at == address
            &&& basic == account.basic
            &&& code == account.code
            &&& reset_storage == account.reset_storage
            &&& lists(storage, account.storage)
        },
        ApplyView::Delete { .. } => false,
    }
}

/// Whether `applies` are the changes that commit the substate `root`, the
/// first `n` of them being the `Modify` changes: in increasing order of the
/// address, one `Modify` for each staged account that is not scheduled for
/// removal; then, in increasing order of the address, one `Delete` for each
/// account that is.
pub open spec fn deconstructed_at(root: SubstateView, applies: Seq<ApplyView>, n: int) -> bool {
        {
            &&& 0 <= n <= applies.len()
            &&& forall|i: int|
                0 <= i < n ==> {
                    let a = apply_address(#[trigger] applies[i]);
                    root.state.contains_key(a) && !root.deleted.contains(a) && is_modify_of(
                        applies[i],
                        a,
                        root.state[a],
                    )
                }
            &&& forall|i: int, j: int|
                0 <= i < j < n ==> apply_address(applies[i]).value() < apply_address(applies[j]).value()
            &&& forall|a: Address|
                root.state.contains_key(a) && !root.deleted.contains(a) ==> exists|i: int|
                    0 <= i < n && apply_address(applies[i]) == a
            &&& forall|i: int|
                n <= i < applies.len() ==> (#[trigger] applies[i]) is Delete && root.deleted.contains(
                    apply_address(applies[i]),
                )
            &&& forall|i: int, j: int|
                n <= i < j < applies.len() ==> apply_address(applies[i]).value() < apply_address(
                    applies[j],
                ).value()
            &&& forall|a: Address|
                root.deleted.contains(a) ==> exists|i: int|
                    n <= i < applies.len() && apply_address(applies[i]) == a
        }
}

/// Whether `applies` are the changes that commit the substate `root`: the
/// `Modify` changes first, then the `Delete` changes.
pub open spec fn deconstructed(root: SubstateView, applies: Seq<ApplyView>) -> bool {
    exists|n: int| deconstructed_at(root, applies, n)
}

/// The views of a sequence of changes.
pub open spec fn apply_views(applies: Seq<Apply>) -> Seq<ApplyView> {
    Seq::new(applies.len(), |i: int| applies[i]@)
}

/// What an executor holds: the backend it reads, the precompiles, the
/// configuration, the substates of the active frames (the root first), and
/// the number of interpreter steps that it may still take.
pub struct ExecutorView<B, P> {
    pub backend: B,
    pub precompile: P,
    pub config: Config,
    pub substates: Seq<SubstateView>,
    pub steps_left: u64,
}

impl<B: Backend, P: PrecompileSet> ExecutorView<B, P> {
    /// There is a root substate, and every substate above it is one level
    /// deeper than the one below.
    pub open spec fn wf(self) -> bool {
        &&& 1 <= self.substates.len() <= usize::MAX
        &&& self.substates[0].depth is None
        &&& forall|i: int|
            1 <= i < self.substates.len() ==> (#[trigger] self.substates[i]).depth == Some(
                (i - 1) as usize,
            )
    }

    /// The substate of the current frame.
    pub open spec fn top(self) -> SubstateView {
        self.substates.last()
    }

    pub open spec fn with_top(self, top: SubstateView) -> Self {
        ExecutorView { substates: self.substates.update(self.substates.len() - 1, top), ..self }
    }

    /// The executor with `account` staged for `address` in the current
    /// frame.
    pub open spec fn with_account(self, address: Address, account: AccountView) -> Self {
        self.with_top(SubstateView { state: self.top().state.insert(address, account), ..self.top() })
    }

    /// The record of `address` in the topmost substate that has one.
    pub open spec fn account(self, address: Address) -> Option<AccountView> {
        find_account(self.substates, address)
    }

    /// The record of `address` as the current frame sees it: the staged one,
    /// or one made from the backend's nonce and balance, with the code not
    /// staged and no slot staged.
    pub open spec fn resolved(self, address: Address) -> AccountView {
        match self.account(address) {
            Some(a) => a,
            None => AccountView::fresh(self.backend.spec_basic(address)),
        }
    }

    /// The executor after the current frame has made sure that it holds a
    /// record of `address`.
    pub open spec fn account_mut(self, address: Address) -> Self {
        self.with_account(address, self.resolved(address))
    }

    /// The nonce and the balance of `address`.
    pub open spec fn basic(self, address: Address) -> Basic {
        match self.account(address) {
            Some(a) => a.basic,
            None => self.backend.spec_basic(address),
        }
    }

    pub open spec fn nonce(self, address: Address) -> Word {
        self.basic(address).nonce
    }

    pub open spec fn balance(self, address: Address) -> Word {
        self.basic(address).balance
    }

    /// The code of `address`: the staged one, else the backend's.
    pub open spec fn code(self, address: Address) -> Seq<u8> {
        match self.account(address) {
            Some(a) => match a.code {
                Some(c) => c,
                None => self.backend.spec_code(address),
            },
            None => self.backend.spec_code(address),
        }
    }

    /// The length of the code of `address`.
    pub open spec fn code_size(self, address: Address) -> Word {
        match self.account(address) {
            Some(a) => match a.code {
                Some(c) => Word::spec_from_usize(c.len() as usize),
                None => Word::spec_from_usize(self.backend.spec_code_size(address)),
            },
            None => Word::spec_from_usize(self.backend.spec_code_size(address)),
        }
    }

    /// Whether the account exists. Where an empty account counts as
    /// existing, every staged account and every account of the backend
    /// exists; else an account exists that has a nonce, a balance or code.
    pub open spec fn account_exists(self, address: Address) -> bool {
        if self.config.empty_considered_exists {
            self.account(address) is Some || self.backend.spec_exists(address)
        } else {
            match self.account(address) {
                Some(a) => a.basic.nonce.value() != 0 || a.basic.balance.value() != 0 || (match a.code {
                    Some(c) => c.len() != 0,
                    None => false,
                }) || self.backend.spec_code(address).len() != 0,
                None => self.backend.spec_basic(address).nonce.value() != 0
                    || self.backend.spec_basic(address).balance.value() != 0
                    || self.backend.spec_code(address).len() != 0,
            }
        }
    }

    /// The hash of the code of `address`: zero for an account that does not
    /// exist or that has no nonce, no balance and no code; else the
    /// Keccak-256 digest of the staged code or, where none is staged, the
    /// hash that the backend gives.
    pub open spec fn code_hash(self, address: Address) -> Word {
        if !self.account_exists(address) {
            Word::spec_zero()
        } else if self.balance(address).value() == 0 && self.nonce(address).value() == 0
            && self.code_size(address).value() == 0 {
            Word::spec_zero()
        } else {
            match self.account(address) {
                Some(a) => match a.code {
                    Some(c) => Word::from_be(keccak256(c)),
                    None => self.backend.spec_code_hash(address),
                },
                None => self.backend.spec_code_hash(address),
            }
        }
    }

    /// What the storage of `address` holds at `index`: the staged value;
    /// zero where none is staged and the record shadows the backend's
    /// storage; else the backend's value.
    pub open spec fn storage(self, address: Address, index: Word) -> Word {
        match self.account(address) {
            Some(a) => if a.storage.contains_key(index) {
                a.storage[index]
            } else if a.reset_storage {
                Word::spec_zero()
            } else {
                self.backend.spec_storage(address, index)
            },
            None => self.backend.spec_storage(address, index),
        }
    }

    /// What the storage of `address` held at `index` before the transaction:
    /// zero where the record shadows the backend's storage, else the
    /// backend's value.
    pub open spec fn original_storage(self, address: Address, index: Word) -> Word {
        match self.account(address) {
            Some(a) => if a.reset_storage {
                Word::spec_zero()
            } else {
                self.backend.spec_storage(address, index)
            },
            None => self.backend.spec_storage(address, index),
        }
    }

    /// Whether some active frame has scheduled `address` for removal.
    pub open spec fn deleted(self, address: Address) -> bool {
        exists|i: int| 0 <= i < self.substates.len() && (#[trigger] self.substates[i]).deleted.contains(address)
    }

    /// Whether the current frame may not change the state.
    pub open spec fn is_static(self) -> bool {
        self.top().is_static
    }

    /// The executor after a frame was opened.
    pub open spec fn enter_substate(self, is_static: bool) -> Self {
        ExecutorView { substates: self.substates.push(self.top().child(is_static)), ..self }
    }

    /// The executor after the current frame ended: its substate is merged
    /// into its parent where it succeeded, and dropped whole (records,
    /// deletions and logs) where it reverted or failed.
    pub open spec fn exit_substate(self, kind: StackExitKind) -> Self
        recommends
            self.substates.len() > 1,
    {
        let rest = self.substates.drop_last();
        match kind {
            StackExitKind::Succeeded => ExecutorView {
                substates: rest.drop_last().push(rest.last().merged(self.top())),
                ..self
            },
            _ => ExecutorView { substates: rest, ..self },
        }
    }

    /// The executor with `balance` taken from `address`; where the account
    /// has less, `OutOfFund`. Either way the current frame then holds a
    /// record of the account.
    pub open spec fn withdraw(self, address: Address, balance: Word) -> (Self, Result<(), ExitError>) {
        let a = self.resolved(address);
        if a.basic.balance.value() < balance.value() {
            (self.account_mut(address), Err(ExitError::OutOfFund))
        } else {
            (
                self.with_account(
                    address,
                    AccountView {
                        basic: Basic { balance: a.basic.balance.spec_wrapping_sub(balance), ..a.basic },
                        ..a
                    },
                ),
                Ok(()),
            )
        }
    }

    /// The executor with `balance` given to `address`; where that would take
    /// the account's balance to `2^256` or beyond, a fault.
    pub open spec fn deposit(self, address: Address, balance: Word) -> (Self, Result<(), ExitError>) {
        let a = self.resolved(address);
        if a.basic.balance.value() + balance.value() >= modulus() {
            (self.account_mut(address), Err(overflow_fault()))
        } else {
            (
                self.with_account(
                    address,
                    AccountView {
                        basic: Basic { balance: a.basic.balance.spec_wrapping_add(balance), ..a.basic },
                        ..a
                    },
                ),
                Ok(()),
            )
        }
    }

    /// A transfer: the value is taken from the source and given to the
    /// target.
    pub open spec fn transfer(self, transfer: Transfer) -> (Self, Result<(), ExitError>) {
        let (s, withdrawn) = self.withdraw(transfer.source, transfer.value);
        match withdrawn {
            Err(e) => (s, Err(e)),
            Ok(()) => s.deposit(transfer.target, transfer.value),
        }
    }

    /// The executor with the nonce of `address` raised by one (modulo
    /// `2^256`).
    pub open spec fn bump_nonce(self, address: Address) -> Self {
        let a = self.resolved(address);
        self.with_account(
            address,
            AccountView {
                basic: Basic { nonce: a.basic.nonce.spec_wrapping_add(Word::spec_one()), ..a.basic },
                ..a
            },
        )
    }

    /// The executor with `code` staged as the code of `address`.
    pub open spec fn set_code(self, address: Address, code: Seq<u8>) -> Self {
        self.with_account(address, AccountView { code: Some(code), ..self.resolved(address) })
    }

    /// The executor with the storage of `address` emptied: no slot is
    /// staged, and the backend's storage is shadowed.
    pub open spec fn reset_storage(self, address: Address) -> Self {
        self.with_account(
            address,
            AccountView { storage: Map::empty(), reset_storage: true, ..self.resolved(address) },
        )
    }

    /// The executor with `value` staged at `index` in the storage of
    /// `address`.
    pub open spec fn set_storage(self, address: Address, index: Word, value: Word) -> Self {
        let a = self.resolved(address);
        self.with_account(address, AccountView { storage: a.storage.insert(index, value), ..a })
    }

    /// The executor with a log added to the current frame.
    pub open spec fn log(self, log: LogView) -> Self {
        self.with_top(SubstateView { logs: self.top().logs.push(log), ..self.top() })
    }

    /// The executor after `address` destroyed itself in favour of `target`:
    /// its whole balance is transferred to the target, its balance is then
    /// set to zero, and the current frame schedules it for removal. Where
    /// the transfer fails, nothing more is done.
    pub open spec fn mark_delete(self, address: Address, target: Address) -> (Self, Result<(), ExitError>) {
        let (s, moved) = self.transfer(
            Transfer { source: address, target, value: self.balance(address) },
        );
        match moved {
            Err(e) => (s, Err(e)),
            Ok(()) => {
                let a = s.resolved(address);
                let s2 = s.with_account(
                    address,
                    AccountView { basic: Basic { balance: Word::spec_zero(), ..a.basic }, ..a },
                );
                (
                    s2.with_top(
                        SubstateView { deleted: s2.top().deleted.insert(address), ..s2.top() },
                    ),
                    Ok(()),
                )
            },
        }
    }

    /// The address that a creation under `scheme` gives.
    pub open spec fn create_address(self, scheme: CreateScheme) -> Address {
        match scheme {
            CreateScheme::Create2 { caller, code_hash, salt } => create2_address(caller, salt, code_hash),
            CreateScheme::Legacy { caller } => legacy_address(caller, self.nonce(caller)),
            CreateScheme::Fixed(address) => address,
        }
    }
}

/// The views of a sequence of substates.
pub open spec fn substate_views(substates: Seq<StackSubstate>) -> Seq<SubstateView> {
    Seq::new(substates.len(), |i: int| substates[i]@)
}

/// Stack-based executor.
pub struct StackExecutor<'backend, B: Backend, P: PrecompileSet> {
    backend: &'backend B,
    config: Config,
    precompile: P,
    substates: Vec<StackSubstate>,
    steps_left: u64,
}

impl<'backend, B: Backend, P: PrecompileSet> View for StackExecutor<'backend, B, P> {
    type V = ExecutorView<B, P>;

    closed spec fn view(&self) -> ExecutorView<B, P> {
        ExecutorView {
            backend: *self.backend,
            precompile: self.precompile,
            config: self.config,
            substates: substate_views(self.substates@),
            steps_left: self.steps_left,
        }
    }
}

impl<'backend, B: Backend, P: PrecompileSet> StackExecutor<'backend, B, P> {
    /// A new executor over `backend` with a root substate and as many
    /// interpreter steps as a `u64` counts.
    pub fn new_with_precompile(backend: &'backend B, config: Config, precompile: P) -> (r: Self)
        ensures
            r@.wf(),
            r@ == (ExecutorView {
                backend: *backend,
                precompile,
                config,
                substates: seq![SubstateView::empty(false, None)],
                steps_left: u64::MAX,
            }),
    {
        let mut substates: Vec<StackSubstate> = Vec::new();
        substates.push(StackSubstate::empty(false, None));
        let r = Self { backend, config, precompile, substates, steps_left: u64::MAX };
        assert(r@.substates =~= seq![SubstateView::empty(false, None)]);
        r
    }

    /// Sets the number of interpreter steps that the executor may still
    /// take.
    pub fn set_step_limit(&mut self, steps: u64)
        ensures
            final(self)@ == (ExecutorView { steps_left: steps, ..old(self)@ }),
    {
        self.steps_left = steps;
    }

    /// The number of interpreter steps that the executor may still take.
    pub fn steps_left(&self) -> (r: u64)
        ensures
            r == self@.steps_left,
    {
        self.steps_left
    }

    /// The configuration.
    pub fn config(&self) -> (r: &Config)
        ensures
            *r == self@.config,
    {
        &self.config
    }

    pub(crate) fn backend(&self) -> (r: &'backend B)
        ensures
            *r == self@.backend,
    {
        self.backend
    }

    pub(crate) fn precompile(&self) -> (r: &P)
        ensures
            *r == self@.precompile,
    {
        &self.precompile
    }

    pub(crate) fn spend_step(&mut self)
        requires
            old(self)@.steps_left > 0,
        ensures
            final(self)@ == (ExecutorView {
                steps_left: (old(self)@.steps_left - 1) as u64,
                ..old(self)@
            }),
    {
        self.steps_left = self.steps_left - 1;
    }

    fn take_top(&mut self) -> (top: StackSubstate)
        requires
            old(self)@.substates.len() > 0,
        ensures
            top@ == old(self)@.substates.last(),
            final(self)@ == (ExecutorView {
                substates: old(self)@.substates.drop_last(),
                ..old(self)@
            }),
    {
        let top = self.substates.pop().unwrap();
        assert(self@.substates =~= old(self)@.substates.drop_last());
        top
    }

    fn put_top(&mut self, top: StackSubstate)
        ensures
            final(self)@ == (ExecutorView {
                substates: old(self)@.substates.push(top@),
                ..old(self)@
            }),
    {
        self.substates.push(top);
        assert(self@.substates =~= old(self)@.substates.push(top@));
    }

    /// The depth of the current frame.
    pub fn depth(&self) -> (r: Option<usize>)
        requires
            self@.wf(),
        ensures
            r == self@.top().depth,
    {
        self.substates[self.substates.len() - 1].depth
    }

    /// Whether the current frame may not change the state.
    pub fn is_static(&self) -> (r: bool)
        requires
            self@.wf(),
        ensures
            r == self@.is_static(),
    {
        self.substates[self.substates.len() - 1].is_static
    }

    /// Opens a frame: pushes an empty substate.
    pub fn enter_substate(&mut self, is_static: bool)
        requires
            old(self)@.wf(),
        ensures
            final(self)@.wf(),
            final(self)@ == old(self)@.enter_substate(is_static),
    {
        let n = self.substates.len();
        let parent_static = self.substates[n - 1].is_static;
        let depth = match self.substates[n - 1].depth {
            None => Some(0),
            Some(d) => Some(d + 1),
        };
        self.put_top(StackSubstate::empty(is_static || parent_static, depth));
        let _ = self.substates.len();
    }

    /// Ends the current frame.
    pub fn exit_substate(&mut self, kind: StackExitKind) -> (r: Result<(), ExitError>)
        requires
            old(self)@.wf(),
            old(self)@.substates.len() > 1,
        ensures
            r is Ok,
            final(self)@.wf(),
            final(self)@ == old(self)@.exit_substate(kind),
    {
        let exited = self.take_top();
        match kind {
            StackExitKind::Succeeded => {
                let parent = self.take_top();
                self.put_top(parent.merge(exited));
            },
            StackExitKind::Reverted => {},
            StackExitKind::Failed => {},
        }
        Ok(())
    }

    /// The record of `address` in the topmost substate that has one.
    pub fn account(&self, address: Address) -> (r: Option<&StackAccount>)
        ensures
            r is Some == self@.account(address) is Some,
            r is Some ==> self@.account(address) == Some(r->0@),
    {
        let ghost views = self@.substates;
        let mut i: usize = self.substates.len();
        assert(views.subrange(0, i as int) =~= views);
        while i > 0
            invariant
                i <= self.substates@.len(),
                views == self@.substates,
                find_account(views, address) == find_account(views.subrange(0, i as int), address),
            decreases i,
        {
            i = i - 1;
            match self.substates[i].state.get(&address) {
                Some(a) => {
                    return Some(a);
                },
                None => {
                    assert(views.subrange(0, i + 1).drop_last() =~= views.subrange(0, i as int));
                },
            }
        }
        None
    }

    /// A copy of the record of `address` as the current frame sees it.
    fn resolve(&self, address: Address) -> (r: StackAccount)
        ensures
            r@ == self@.resolved(address),
    {
        match self.account(address) {
            Some(a) => a.duplicate(),
            None => StackAccount::fresh(self.backend.basic(address)),
        }
    }

    /// Stages `account` for `address` in the current frame.
    fn set_account(&mut self, address: Address, account: StackAccount)
        requires
            old(self)@.wf(),
        ensures
            final(self)@.wf(),
            final(self)@ == old(self)@.with_account(address, account@),
    {
        let top = self.take_top();
        let StackSubstate { state, deleted, logs, is_static, depth } = top;
        let top = StackSubstate { state: state.insert(address, account), deleted, logs, is_static, depth };
        self.put_top(top);
        assert(self@.substates =~= old(self)@.with_account(address, account@).substates);
    }

    /// Makes sure that the current frame holds a record of `address`: where
    /// it has none, it gets a copy of the one below, or one made from the
    /// backend.
    pub fn account_mut(&mut self, address: Address)
        requires
            old(self)@.wf(),
        ensures
            final(self)@.wf(),
            final(self)@ == old(self)@.account_mut(address),
    {
        let n = self.substates.len();
        if self.substates[n - 1].state.contains_key(&address) {
            proof {
                let v = self@;
                assert(v.top().state.insert(address, v.resolved(address)) =~= v.top().state);
                assert(v.account_mut(address).substates =~= v.substates);
            }
            return ;
        }
        let account = self.resolve(address);
        self.set_account(address, account);
    }

    /// The nonce and the balance of `address`.
    pub fn basic(&self, address: Address) -> (r: Basic)
        ensures
            r == self@.basic(address),
    {
        match self.account(address) {
            Some(a) => a.basic,
            None => self.backend.basic(address),
        }
    }

    /// The nonce of `address`.
    pub fn nonce(&self, address: Address) -> (r: Word)
        ensures
            r == self@.nonce(address),
    {
        self.basic(address).nonce
    }

    /// The balance of `address`.
    pub fn balance(&self, address: Address) -> (r: Word)
        ensures
            r == self@.balance(address),
    {
        self.basic(address).balance
    }

    /// The length of the code of `address`.
    pub fn code_size(&self, address: Address) -> (r: Word)
        ensures
            r == self@.code_size(address),
    {
        match self.account(address) {
            Some(a) => match &a.code {
                Some(c) => Word::from_usize(c.len()),
                None => Word::from_usize(self.backend.code_size(address)),
            },
            None => Word::from_usize(self.backend.code_size(address)),
        }
    }

    /// The code of `address`.
    pub fn code(&self, address: Address) -> (r: Vec<u8>)
        ensures
            r@ == self@.code(address),
    {
        match self.account(address) {
            Some(a) => match &a.code {
                Some(c) => crate::account::copy_bytes(c.as_slice()),
                None => self.backend.code(address),
            },
            None => self.backend.code(address),
        }
    }

    /// Whether the account exists.
    pub fn account_exists(&self, address: Address) -> (r: bool)
        ensures
            r == self@.account_exists(address),
    {
        if self.config.empty_considered_exists {
            self.account(address).is_some() || self.backend.account_exists(address)
        } else {
            match self.account(address) {
                Some(a) => {
                    let has_code = match &a.code {
                        Some(c) => c.len() != 0,
                        None => false,
                    };
                    !a.basic.nonce.is_zero() || !a.basic.balance.is_zero() || has_code
                        || self.backend.code(address).len() != 0
                },
                None => {
                    let basic = self.backend.basic(address);
                    !basic.nonce.is_zero() || !basic.balance.is_zero() || self.backend.code(
                        address,
                    ).len() != 0
                },
            }
        }
    }

    /// The hash of the code of `address`.
    pub fn code_hash(&self, address: Address) -> (r: Word)
        ensures
            r == self@.code_hash(address),
    {
        if !self.account_exists(address) {
            return Word::zero();
        }
        let basic = self.basic(address);
        let size = self.code_size(address);
        if basic.balance.is_zero() && basic.nonce.is_zero() && size.is_zero() {
            return Word::zero();
        }
        match self.account(address) {
            Some(a) => match &a.code {
                Some(c) => {
                    let digest = keccak256_digest(c.as_slice());
                    Word::from_be_vec(&digest)
                },
                None => self.backend.code_hash(address),
            },
            None => self.backend.code_hash(address),
        }
    }

    /// What the storage of `address` holds at `index`.
    pub fn storage(&self, address: Address, index: Word) -> (r: Word)
        ensures
            r == self@.storage(address, index),
    {
        match self.account(address) {
            Some(a) => match a.storage.get(&index) {
                Some(v) => *v,
                None => if a.reset_storage {
                    Word::zero()
                } else {
                    self.backend.storage(address, index)
                },
            },
            None => self.backend.storage(address, index),
        }
    }

    /// What the storage of `address` held at `index` before the
    /// transaction.
    pub fn original_storage(&self, address: Address, index: Word) -> (r: Word)
        ensures
            r == self@.original_storage(address, index),
    {
        match self.account(address) {
            Some(a) => if a.reset_storage {
                Word::zero()
            } else {
                self.backend.storage(address, index)
            },
            None => self.backend.storage(address, index),
        }
    }

    /// Whether some active frame has scheduled `address` for removal.
    pub fn deleted(&self, address: Address) -> (r: bool)
        ensures
            r == self@.deleted(address),
    {
        let mut i: usize = self.substates.len();
        while i > 0
            invariant
                i <= self.substates@.len(),
                forall|j: int|
                    i <= j < self.substates@.len() ==> !(#[trigger] self@.substates[j]).deleted.contains(
                        address,
                    ),
            decreases i,
        {
            i = i - 1;
            if self.substates[i].deleted.contains_key(&address) {
                assert(self@.substates[i as int].deleted.contains(address));
                return true;
            }
        }
        false
    }

    /// The gas that is left, as the backend gives it.
    pub fn gas_left(&self) -> (r: Word)
        ensures
            r == self@.backend.spec_gas_left(),
    {
        self.backend.gas_left()
    }

    /// Remaining gas: gas is not metered, the figure is 0.
    pub fn gas(&self) -> (r: usize)
        ensures
            r == 0,
    {
        0
    }

    /// Used gas: gas is not metered, the figure is 0.
    pub fn used_gas(&self) -> (r: usize)
        ensures
            r == 0,
    {
        0
    }

    /// The fee for the gas used at `price`: gas is not metered, the fee is
    /// 0.
    pub fn fee(&self, price: Word) -> (r: Word)
        ensures
            r == Word::spec_zero(),
    {
        Word::zero()
    }

    /// Takes `balance` from `address`.
    pub fn withdraw(&mut self, address: Address, balance: Word) -> (r: Result<(), ExitError>)
        requires
            old(self)@.wf(),
        ensures
            final(self)@.wf(),
            (final(self)@, r) == old(self)@.withdraw(address, balance),
    {
        let mut account = self.resolve(address);
        if account.basic.balance.lt(&balance) {
            self.set_account(address, account);
            return Err(ExitError::OutOfFund);
        }
        account.basic.balance = account.basic.balance.wrapping_sub(balance);
        self.set_account(address, account);
        Ok(())
    }

    /// Gives `balance` to `address`.
    pub fn deposit(&mut self, address: Address, balance: Word) -> (r: Result<(), ExitError>)
        requires
            old(self)@.wf(),
        ensures
            final(self)@.wf(),
            (final(self)@, r) == old(self)@.deposit(address, balance),
    {
        let mut account = self.resolve(address);
        match account.basic.balance.checked_add(balance) {
            Some(sum) => {
                proof {
                    lemma_word_of_value(sum);
                    vstd::arithmetic::div_mod::lemma_small_mod(sum.value(), modulus());
                }
                account.basic.balance = sum;
                self.set_account(address, account);
                Ok(())
            },
            None => {
                self.set_account(address, account);
                Err(ExitError::Other("BalanceOverflow"))
            },
        }
    }

    /// Moves value from one account to another.
    pub fn transfer(&mut self, transfer: Transfer) -> (r: Result<(), ExitError>)
        requires
            old(self)@.wf(),
        ensures
            final(self)@.wf(),
            (final(self)@, r) == old(self)@.transfer(transfer),
    {
        match self.withdraw(transfer.source, transfer.value) {
            Ok(()) => self.deposit(transfer.target, transfer.value),
            Err(e) => Err(e),
        }
    }

    /// Raises the nonce of `address` by one.
    pub fn bump_nonce(&mut self, address: Address)
        requires
            old(self)@.wf(),
        ensures
            final(self)@.wf(),
            final(self)@ == old(self)@.bump_nonce(address),
    {
        let mut account = self.resolve(address);
        account.basic.nonce = account.basic.nonce.wrapping_add(Word::one());
        self.set_account(address, account);
    }

    /// Stages `code` as the code of `address`.
    pub fn set_code(&mut self, address: Address, code: Vec<u8>)
        requires
            old(self)@.wf(),
        ensures
            final(self)@.wf(),
            final(self)@ == old(self)@.set_code(address, code@),
    {
        let mut account = self.resolve(address);
        account.code = Some(code);
        self.set_account(address, account);
    }

    /// Empties the storage of `address` and shadows the backend's.
    pub fn reset_storage(&mut self, address: Address)
        requires
            old(self)@.wf(),
        ensures
            final(self)@.wf(),
            final(self)@ == old(self)@.reset_storage(address),
    {
        let mut account = self.resolve(address);
        account.reset_storage = true;
        account.storage = SortedMap::new();
        self.set_account(address, account);
    }

    /// Stages `value` at `index` in the storage of `address`.
    pub fn set_storage(&mut self, address: Address, index: Word, value: Word) -> (r: Result<
        (),
        ExitError,
    >)
        requires
            old(self)@.wf(),
        ensures
            r is Ok,
            final(self)@.wf(),
            final(self)@ == old(self)@.set_storage(address, index, value),
    {
        let account = self.resolve(address);
        let StackAccount { basic, code, storage, reset_storage } = account;
        let account = StackAccount { basic, code, storage: storage.insert(index, value), reset_storage };
        self.set_account(address, account);
        Ok(())
    }

    /// Adds a log to the current frame.
    pub fn log(&mut self, address: Address, topics: Vec<Word>, data: Vec<u8>) -> (r: Result<(), ExitError>)
        requires
            old(self)@.wf(),
        ensures
            r is Ok,
            final(self)@.wf(),
            final(self)@ == old(self)@.log(LogView { address, topics: topics@, data: data@ }),
    {
        let mut top = self.take_top();
        let ghost before = top@;
        top.logs.push(Log { address, topics, data });
        assert(top@.logs =~= before.logs.push(LogView { address, topics: topics@, data: data@ }));
        self.put_top(top);
        assert(self@.substates =~= old(self)@.log(
            LogView { address, topics: topics@, data: data@ },
        ).substates);
        Ok(())
    }

    /// Destroys `address` in favour of `target`.
    pub fn mark_delete(&mut self, address: Address, target: Address) -> (r: Result<(), ExitError>)
        requires
            old(self)@.wf(),
        ensures
            final(self)@.wf(),
            (final(self)@, r) == old(self)@.mark_delete(address, target),
    {
        let balance = self.balance(address);
        match self.transfer(Transfer { source: address, target, value: balance }) {
            Ok(()) => {},
            Err(e) => {
                return Err(e);
            },
        }
        let mut account = self.resolve(address);
        account.basic.balance = Word::zero();
        self.set_account(address, account);
        let ghost staged = self@;
        let top = self.take_top();
        let StackSubstate { state, deleted, logs, is_static, depth } = top;
        let top = StackSubstate { state, deleted: deleted.insert(address, ()), logs, is_static, depth };
        assert(top@.deleted =~= staged.top().deleted.insert(address));
        self.put_top(top);
        assert(self@.substates =~= staged.with_top(
            SubstateView { deleted: staged.top().deleted.insert(address), ..staged.top() },
        ).substates);
        Ok(())
    }

    /// The address that a creation under `scheme` gives.
    pub fn create_address(&self, scheme: CreateScheme) -> (r: Address)
        ensures
            r == self@.create_address(scheme),
    {
        match scheme {
            CreateScheme::Create2 { caller, code_hash, salt } => {
                let mut buffer: Vec<u8> = Vec::new();
                buffer.push(0xff);
                let mut part = caller.to_be_vec();
                buffer.append(&mut part);
                let mut part = salt.to_be_vec();
                buffer.append(&mut part);
                let mut part = code_hash.to_be_vec();
                buffer.append(&mut part);
                assert(buffer@ =~= seq![0xffu8] + caller.be_bytes() + salt.be_bytes()
                    + code_hash.be_bytes());
                let digest = keccak256_digest(buffer.as_slice());
                Address::from_slice_at(&digest, 12)
            },
            CreateScheme::Legacy { caller } => {
                let nonce = self.nonce(caller);
                let encoded = rlp_encode_address_and_number(&caller.to_bytes(), &nonce.to_big_endian());
                let digest = keccak256_digest(encoded.as_slice());
                Address::from_slice_at(&digest, 12)
            },
            CreateScheme::Fixed(address) => address,
        }
    }

    /// Takes the executor apart at the end of a transaction: the changes to
    /// commit and the logs, in the order in which they were made.
    pub fn deconstruct(self) -> (r: (Vec<Apply>, Vec<Log>))
        requires
            self@.wf(),
            self@.substates.len() == 1,
        ensures
            deconstructed(self@.top(), apply_views(r.0@)),
            log_views(r.1@) == self@.top().logs,
    {
        let ghost root = self@.top();
        let mut this = self;
        let current = this.take_top();
        let StackSubstate { state, deleted, logs, .. } = current;
        let mut entries = state.into_entries();
        let ghost all = entries@;
        let ghost all_keys = keys_of(all);
        let total = entries.len();
        let mut pending: Vec<(Address, StackAccount)> = Vec::new();
        while entries.len() > 0
            invariant
                entries@.len() + pending@.len() == total,
                total == all.len(),
                entries@ == all.subrange(0, entries@.len() as int),
                forall|j: int| 0 <= j < pending@.len() ==> pending@[j] == all[total - 1 - j],
            decreases entries@.len(),
        {
            let e = entries.pop().unwrap();
            pending.push(e);
        }
        let mut applies: Vec<Apply> = Vec::new();
        let ghost origin: Seq<int> = Seq::empty();
        while pending.len() > 0
            invariant
                pending@.len() <= total,
                total == all.len(),
                all_keys == keys_of(all),
                increasing(all_keys),
                root.deleted == deleted@.dom(),
                forall|j: int| 0 <= j < pending@.len() ==> pending@[j] == all[total - 1 - j],
                forall|i: int|
                    0 <= i < all.len() ==> root.state.contains_key(#[trigger] all[i].0)
                        && root.state[all[i].0] == all[i].1@,
                forall|a: Address| root.state.contains_key(a) <==> all_keys.contains(a),
                origin.len() == applies@.len(),
                forall|i: int|
                    0 <= i < origin.len() ==> 0 <= #[trigger] origin[i] < total - pending@.len(),
                forall|i: int, j: int| 0 <= i < j < origin.len() ==> origin[i] < origin[j],
                forall|i: int|
                    0 <= i < applies@.len() ==> {
                        let a = all[origin[i]].0;
                        &&& apply_address(#[trigger] applies@[i]@) == a
                        &&& !root.deleted.contains(a)
                        &&& is_modify_of(applies@[i]@, a, all[origin[i]].1@)
                    },
                forall|k: int|
                    0 <= k < total - pending@.len() && !root.deleted.contains(all[k].0) ==> exists|
                        i: int,
                    |
                        0 <= i < origin.len() && #[trigger] origin[i] == k,
            decreases pending@.len(),
        {
            let ghost k = total - pending@.len();
            let ghost before_origin = origin;
            let (address, account) = pending.pop().unwrap();
            assert(address == all[k].0);
            if !deleted.contains_key(&address) {
                let StackAccount { basic, code, storage, reset_storage } = account;
                let ghost slots = storage@;
                let listed = storage.into_entries();
                proof {
                    assert(lists(listed@, slots)) by {
                        assert forall|i: int| 0 <= i < listed@.len() implies slots.contains_key(
                            #[trigger] listed@[i].0,
                        ) && slots[listed@[i].0] == listed@[i].1 by {}
                    }
                    origin = origin.push(k);
                }
                applies.push(Apply::Modify { address, basic, code, storage: listed, reset_storage });
                proof {
                    assert forall|q: int|
                        0 <= q < k + 1 && !root.deleted.contains(all[q].0) implies exists|i: int|
                        0 <= i < origin.len() && #[trigger] origin[i] == q by {
                        if q < k {
                            let i = choose|i: int|
                                0 <= i < before_origin.len() && #[trigger] before_origin[i] == q;
                            assert(origin[i] == q);
                        } else {
                            assert(origin[origin.len() - 1] == k);
                        }
                    }
                }
            } else {
                proof {
                    assert forall|q: int|
                        0 <= q < k + 1 && !root.deleted.contains(all[q].0) implies exists|i: int|
                        0 <= i < origin.len() && #[trigger] origin[i] == q by {
                        let i = choose|i: int|
                            0 <= i < before_origin.len() && #[trigger] before_origin[i] == q;
                        assert(origin[i] == q);
                    }
                }
            }
        }
        let modified = applies.len();
        let ghost first = applies@;
        let removed = deleted.len();
        let mut d: usize = 0;
        while d < removed
            invariant
                d <= removed,
                removed == deleted.keys().len(),
                increasing(deleted.keys()),
                applies@.len() == modified + d,
                modified == first.len(),
                total == all.len(),
                root.deleted == deleted@.dom(),
                all_keys == keys_of(all),
                increasing(all_keys),
                origin.len() == first.len(),
                forall|i: int| 0 <= i < origin.len() ==> 0 <= #[trigger] origin[i] < total,
                forall|i: int, j: int| 0 <= i < j < origin.len() ==> origin[i] < origin[j],
                forall|i: int|
                    0 <= i < first.len() ==> {
                        let a = all[origin[i]].0;
                        &&& apply_address(#[trigger] first[i]@) == a
                        &&& !root.deleted.contains(a)
                        &&& is_modify_of(first[i]@, a, all[origin[i]].1@)
                    },
                forall|k: int|
                    0 <= k < total && !root.deleted.contains(all[k].0) ==> exists|i: int|
                        0 <= i < origin.len() && #[trigger] origin[i] == k,
                forall|i: int|
                    0 <= i < all.len() ==> root.state.contains_key(#[trigger] all[i].0)
                        && root.state[all[i].0] == all[i].1@,
                forall|a: Address| root.state.contains_key(a) <==> all_keys.contains(a),
                forall|i: int| 0 <= i < modified ==> applies@[i] == first[i],
                forall|j: int|
                    0 <= j < d ==> (#[trigger] applies@[modified + j])@ == (ApplyView::Delete {
                        address: deleted.keys()[j],
                    }),
            decreases removed - d,
        {
            let address = deleted.key_at(d);
            applies.push(Apply::Delete { address });
            d = d + 1;
        }
        proof {
            let views = apply_views(applies@);
            let n = modified as int;
            deleted.lemma_keys();
            assert forall|i: int| 0 <= i < n implies views[i] == first[i]@ by {
                assert(applies@[i] == first[i]);
            }
            assert forall|i: int, j: int| 0 <= i < j < n implies apply_address(views[i]).value()
                < apply_address(views[j]).value() by {
                assert(apply_address(first[i]@) == all[origin[i]].0);
                assert(apply_address(first[j]@) == all[origin[j]].0);
                assert(all_keys[origin[i]].rank() < all_keys[origin[j]].rank());
            }
            assert forall|a: Address|
                root.state.contains_key(a) && !root.deleted.contains(a) implies exists|i: int|
                0 <= i < n && apply_address(views[i]) == a by {
                let q = choose|q: int| 0 <= q < all_keys.len() && all_keys[q] == a;
                assert(all[q].0 == a);
                let i = choose|i: int| 0 <= i < origin.len() && #[trigger] origin[i] == q;
                assert(apply_address(first[i]@) == all[origin[i]].0);
                assert(apply_address(views[i]) == a);
            }
            assert forall|i: int| n <= i < views.len() implies (#[trigger] views[i]) is Delete
                && root.deleted.contains(apply_address(views[i])) by {
                assert(applies@[n + (i - n)]@ == (ApplyView::Delete { address: deleted.keys()[i - n] }));
                assert(deleted.keys().contains(deleted.keys()[i - n]));
            }
            assert forall|i: int, j: int| n <= i < j < views.len() implies apply_address(
                views[i],
            ).value() < apply_address(views[j]).value() by {
                assert(applies@[n + (i - n)]@ == (ApplyView::Delete { address: deleted.keys()[i - n] }));
                assert(applies@[n + (j - n)]@ == (ApplyView::Delete { address: deleted.keys()[j - n] }));
                assert(deleted.keys()[i - n].rank() < deleted.keys()[j - n].rank());
            }
            assert forall|a: Address| root.deleted.contains(a) implies exists|i: int|
                n <= i < views.len() && apply_address(views[i]) == a by {
                assert(deleted@.dom().contains(a));
                assert(deleted@.contains_key(a));
                assert(deleted.keys().contains(a));
                let q = choose|q: int| 0 <= q < deleted.keys().len() && deleted.keys()[q] == a;
                assert(applies@[n + q]@ == (ApplyView::Delete { address: deleted.keys()[q] }));
                assert(apply_address(views[n + q]) == a);
            }
            assert forall|i: int| 0 <= i < n implies {
                let a = apply_address(#[trigger] views[i]);
                root.state.contains_key(a) && !root.deleted.contains(a) && is_modify_of(
                    views[i],
                    a,
                    root.state[a],
                )
            } by {
                assert(applies@[i] == first[i]);
                assert(apply_address(first[i]@) == all[origin[i]].0);
            }
            assert(deconstructed_at(root, views, n));
        }
        (applies, logs)
    }
}

} // verus!
