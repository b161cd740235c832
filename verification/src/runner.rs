//! Whole transactions against a backend.

use crate::account::SubstateView;
use crate::address::Address;
use crate::backend::{committed, ApplyBackend, ApplyView, Backend, NoPrecompiles};
use crate::config::Config;
use crate::context::CreateScheme;
use crate::error::ExitReason;
use crate::executor::{apply_views, deconstructed, ExecutorView, StackExecutor};
use crate::types::{FunctionCallArgs, ViewCallArgs};
use crate::word::Word;
use vstd::prelude::*;

verus! {

/// A transaction to execute.
pub enum Transaction {
    /// Create a contract from `init_code`.
    Create { caller: Address, value: Word, init_code: Vec<u8> },
    /// Call `address` with `data`.
    Call { caller: Address, address: Address, value: Word, data: Vec<u8> },
}

/// What a transaction holds.
pub enum TransactionView {
    Create { caller: Address, value: Word, init_code: Seq<u8> },
    Call { caller: Address, address: Address, value: Word, data: Seq<u8> },
}

impl View for Transaction {
    type V = TransactionView;

    open spec fn view(&self) -> TransactionView {
        match self {
            Transaction::Create { caller, value, init_code } => TransactionView::Create {
                caller: *caller,
                value: *value,
                init_code: init_code@,
            },
            Transaction::Call { caller, address, value, data } => TransactionView::Call {
                caller: *caller,
                address: *address,
                value: *value,
                data: data@,
            },
        }
    }
}

/// Runs transactions against a backend.
pub struct Runner {}

/// The executor that a transaction starts on: the Istanbul configuration,
/// no precompiles, a root substate, and as many steps as a `u64` counts.
pub open spec fn fresh_executor<B: Backend>(backend: B) -> ExecutorView<B, NoPrecompiles> {
    ExecutorView {
        backend,
        precompile: NoPrecompiles {  },
        config: Config::spec_istanbul(),
        substates: seq![SubstateView::empty(false, None)],
        steps_left: u64::MAX,
    }
}

/// The executor after `transaction`, and what the transaction returned: how
/// it ended, the address of the contract that a creation derives, and the
/// bytes that a call gave back.
pub open spec fn transacted<B: Backend>(
    executor: ExecutorView<B, NoPrecompiles>,
    transaction: TransactionView,
) -> (ExecutorView<B, NoPrecompiles>, (ExitReason, Option<Address>, Seq<u8>)) {
    match transaction {
        TransactionView::Create { caller, value, init_code } => {
            let (s, reason) = executor.transact_create(caller, value, init_code);
            (
                s,
                (reason, Some(executor.create_address(CreateScheme::Legacy { caller })), Seq::empty()),
            )
        },
        TransactionView::Call { caller, address, value, data } => {
            let (s, outcome) = executor.transact_call(caller, address, value, data);
            (s, (outcome.0, None, outcome.1))
        },
    }
}

/// Whether `after` is `before` with the root substate `root` committed: the
/// changes that commit it were applied, with empty accounts removed, and its
/// logs persisted.
pub open spec fn commits<B: ApplyBackend>(before: &B, after: &B, root: SubstateView) -> bool {
    exists|applies: Seq<ApplyView>|
        {
            &&& #[trigger] deconstructed(root, applies)
            &&& forall|address: Address, index: Word|
                {
                    let c = #[trigger] committed(before, applies, true, address, index);
                    &&& after.spec_basic(address) == c.basic
                    &&& after.spec_code(address) == c.code
                    &&& after.spec_storage(address, index) == c.slot
                }
            &&& after.spec_logs() == before.spec_logs() + root.logs
        }
}

impl Runner {
    /// Executes `transaction` on a fresh executor over `backend` and, with
    /// `should_commit`, commits what it staged.
    pub fn execute<B: ApplyBackend>(backend: &mut B, _value: Word, should_commit: bool, transaction: Transaction) -> (r:
        (ExitReason, Option<Address>, Vec<u8>))
        ensures
            (r.0, r.1, r.2@) == transacted(fresh_executor(*old(backend)), transaction@).1,
            should_commit ==> commits(
                old(backend),
                final(backend),
                transacted(fresh_executor(*old(backend)), transaction@).0.top(),
            ),
            !should_commit ==> *final(backend) == *old(backend),
    {
        let config = Config::istanbul();
        let mut executor = StackExecutor::new_with_precompile(&*backend, config, NoPrecompiles {  });
        let outcome = match transaction {
            Transaction::Create { caller, value, init_code } => {
                let address = executor.create_address(CreateScheme::Legacy { caller });
                let reason = executor.transact_create(caller, value, init_code);
                (reason, Some(address), Vec::new())
            },
            Transaction::Call { caller, address, value, data } => {
                let (reason, out) = executor.transact_call(caller, address, value, data);
                (reason, None, out)
            },
        };
        let ghost root = executor@.top();
        let (values, logs) = executor.deconstruct();
        if should_commit {
            let ghost applies = apply_views(values@);
            let ghost log_seq = Seq::new(logs@.len(), |i: int| logs@[i]@);
            assert(log_seq =~= root.logs);
            assert(crate::backend::change_views(values@) =~= applies);
            backend.apply(values, logs, true);
            assert(deconstructed(root, applies));
        }
        outcome
    }

    /// Creates a contract from `input`, in the name of the backend's origin,
    /// and commits. The address is the one that the creation derives.
    pub fn deploy_code<B: ApplyBackend>(backend: &mut B, input: &[u8]) -> (r: (ExitReason, Address))
        ensures
            (r.0, Some(r.1), Seq::<u8>::empty()) == transacted(
                fresh_executor(*old(backend)),
                TransactionView::Create {
                    caller: old(backend).spec_origin(),
                    value: Word::spec_zero(),
                    init_code: input@,
                },
            ).1,
            commits(
                old(backend),
                final(backend),
                transacted(
                    fresh_executor(*old(backend)),
                    TransactionView::Create {
                        caller: old(backend).spec_origin(),
                        value: Word::spec_zero(),
                        init_code: input@,
                    },
                ).0.top(),
            ),
    {
        let origin = backend.origin();
        let value = Word::zero();
        let init_code = crate::account::copy_bytes(input);
        let (reason, address, _) = Runner::execute(
            backend,
            value,
            true,
            Transaction::Create { caller: origin, value, init_code },
        );
        match address {
            Some(a) => (reason, a),
            None => (reason, Address::zero()),
        }
    }

    /// Calls the contract of `args` with its input, in the name of the
    /// backend's origin and without value, and commits.
    pub fn call<B: ApplyBackend>(backend: &mut B, args: FunctionCallArgs) -> (r: (ExitReason, Vec<u8>))
        ensures
            (r.0, None::<Address>, r.1@) == transacted(
                fresh_executor(*old(backend)),
                TransactionView::Call {
                    caller: old(backend).spec_origin(),
                    address: Address::from_be(args.contract@),
                    value: Word::spec_zero(),
                    data: args.input@,
                },
            ).1,
            commits(
                old(backend),
                final(backend),
                transacted(
                    fresh_executor(*old(backend)),
                    TransactionView::Call {
                        caller: old(backend).spec_origin(),
                        address: Address::from_be(args.contract@),
                        value: Word::spec_zero(),
                        data: args.input@,
                    },
                ).0.top(),
            ),
    {
        let origin = backend.origin();
        let value = Word::zero();
        let FunctionCallArgs { contract, input } = args;
        let (reason, _, out) = Runner::execute(
            backend,
            value,
            true,
            Transaction::Call {
                caller: origin,
                address: Address::from_bytes(&contract),
                value,
                data: input,
            },
        );
        (reason, out)
    }

    /// Calls the contract of `args` in the name of the sender and with the
    /// value that `args` give, and commits nothing.
    pub fn view<B: ApplyBackend>(backend: &mut B, args: ViewCallArgs) -> (r: (ExitReason, Vec<u8>))
        ensures
            (r.0, None::<Address>, r.1@) == transacted(
                fresh_executor(*old(backend)),
                TransactionView::Call {
                    caller: Address::from_be(args.sender@),
                    address: Address::from_be(args.address@),
                    value: Word::from_be(args.amount@),
                    data: args.input@,
                },
            ).1,
            *final(backend) == *old(backend),
    {
        let ViewCallArgs { sender, address, amount, input } = args;
        let value = Word::from_big_endian(&amount);
        let (reason, _, out) = Runner::execute(
            backend,
            value,
            false,
            Transaction::Call {
                caller: Address::from_bytes(&sender),
                address: Address::from_bytes(&address),
                value,
                data: input,
            },
        );
        (reason, out)
    }
}

} // verus!
