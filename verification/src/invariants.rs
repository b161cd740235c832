//! What holds of every execution.

use crate::account::{AccountView, StackExitKind, SubstateView};
use crate::address::Address;
use crate::backend::{Backend, Basic, PrecompileSet};
use crate::context::{CallScheme, Context, CreateScheme, Transfer};
use crate::error::{Capture, ExitReason};
use crate::executor::{find_account, ExecutorView};
use crate::frames::{lemma_leads_to_is_transitive, lemma_top_changes_lead_on};
use crate::opcode::ExternalOpcode;
use crate::runtime::RuntimeView;
use crate::word::Word;
use vstd::prelude::*;

verus! {

impl<B: Backend, P: PrecompileSet> ExecutorView<B, P> {
    /// The frames are no more than the call stack limit allows, and the
    /// limit leaves room for them in a `usize`.
    pub open spec fn within_depth(self) -> bool {
        &&& self.config.call_stack_limit <= usize::MAX - 3
        &&& self.substates.len() <= self.config.call_stack_limit + 2
    }

    /// The executor when the init code of a creation at `address` has run:
    /// the creator's nonce is raised, the frame is opened, the code has run
    /// to its end.
    pub open spec fn after_init_code(self, caller: Address, address: Address, value: Word, init_code: Seq<u8>) -> (
        Self,
        RuntimeView,
        ExitReason,
    ) {
        self.bump_nonce(caller).create_open(caller, address, value).0.run(
            RuntimeView::new(
                init_code,
                Seq::empty(),
                Context { address, caller, apparent_value: value },
                self.config,
            ),
        )
    }

    /// Staging a record for one account changes what is seen of that
    /// account, and of no other.
    pub proof fn lemma_account_after_staging(self, staged: Address, account: AccountView, address: Address)
        requires
            self.substates.len() >= 1,
        ensures
            self.with_account(staged, account).account(address) == if address == staged {
                Some(account)
            } else {
                self.account(address)
            },
    {
        let after = self.with_account(staged, account);
        assert(after.substates.drop_last() =~= self.substates.drop_last());
    }

    /// Merging the frame that succeeded into its parent changes nothing of
    /// what is seen of any account.
    pub proof fn lemma_merge_keeps_accounts(self, address: Address)
        requires
            self.substates.len() >= 2,
        ensures
            self.exit_substate(StackExitKind::Succeeded).account(address) == self.account(address),
    {
        let after = self.exit_substate(StackExitKind::Succeeded);
        let rest = self.substates.drop_last();
        assert(after.substates.drop_last() =~= rest.drop_last());
        assert(after.substates.last() == rest.last().merged(self.top()));
        let _ = find_account(rest, address);
    }

    /// A transfer changes no nonce and no code.
    pub proof fn lemma_transfer_keeps_nonce_and_code(self, transfer: Transfer, address: Address)
        requires
            self.substates.len() >= 1,
        ensures
            self.transfer(transfer).0.nonce(address) == self.nonce(address),
            self.transfer(transfer).0.code(address) == self.code(address),
    {
        let a = self.resolved(transfer.source);
        self.lemma_account_after_staging(transfer.source, a, address);
        self.lemma_account_after_staging(
            transfer.source,
            AccountView {
                basic: Basic { balance: a.basic.balance.spec_wrapping_sub(transfer.value), ..a.basic },
                ..a
            },
            address,
        );
        let (w, withdrawn) = self.withdraw(transfer.source, transfer.value);
        if withdrawn is Ok {
            let b = w.resolved(transfer.target);
            w.lemma_account_after_staging(transfer.target, b, address);
            w.lemma_account_after_staging(
                transfer.target,
                AccountView {
                    basic: Basic { balance: b.basic.balance.spec_wrapping_add(transfer.value), ..b.basic },
                    ..b
                },
                address,
            );
        }
    }

    /// When the frame of a creation is open, the new account has no code,
    /// and its nonce is 1 where the configuration raises it and 0 where it
    /// does not.
    pub proof fn lemma_create_open_starts_fresh(self, caller: Address, address: Address, value: Word)
        requires
            self.substates.len() >= 1,
        ensures
            self.create_open(caller, address, value).1 is Ok ==> {
                let opened = self.create_open(caller, address, value).0;
                &&& opened.code(address) == Seq::<u8>::empty()
                &&& opened.nonce(address) == if self.config.create_increase_nonce {
                    Word::spec_one()
                } else {
                    Word::spec_zero()
                }
            },
    {
        let s0 = self.enter_substate(false);
        s0.lemma_account_after_staging(address, s0.resolved(address), address);
        let s1 = s0.account_mut(address);
        let staged = s1.resolved(address).code;
        let code = match staged {
            Some(c) => c,
            None => self.backend.spec_code(address),
        };
        s1.lemma_account_after_staging(
            address,
            AccountView { code: Some(code), ..s1.resolved(address) },
            address,
        );
        let s2 = if staged is None {
            s1.set_code(address, code)
        } else {
            s1
        };
        if code.len() == 0 && s2.nonce(address).value() == 0 {
            crate::word::lemma_value_injective(s2.nonce(address), Word::spec_zero());
            s2.lemma_account_after_staging(
                address,
                AccountView { storage: Map::empty(), reset_storage: true, ..s2.resolved(address) },
                address,
            );
            let r = s2.reset_storage(address);
            let t = Transfer { source: caller, target: address, value };
            r.lemma_transfer_keeps_nonce_and_code(t, address);
            let (s3, moved) = r.transfer(t);
            if moved is Ok {
                let a = s3.resolved(address);
                s3.lemma_account_after_staging(
                    address,
                    AccountView {
                        basic: Basic {
                            nonce: a.basic.nonce.spec_wrapping_add(Word::spec_one()),
                            ..a.basic
                        },
                        ..a
                    },
                    address,
                );
                assert(Word::spec_zero().spec_wrapping_add(Word::spec_one()) == Word::spec_one());
            }
        }
    }

    /// When a creation ends in success, the returned bytes are the code of
    /// the new account, and its nonce is as the init code left it.
    pub proof fn lemma_create_finish_installs(self, address: Address, reason: ExitReason, out: Seq<u8>)
        requires
            self.substates.len() >= 2,
        ensures
            self.create_finish(address, reason, out).1.0 is Succeed ==> {
                let after = self.create_finish(address, reason, out).0;
                &&& reason is Succeed
                &&& self.create_finish(address, reason, out).1.1 == Some(address)
                &&& after.code(address) == out
                &&& after.nonce(address) == self.nonce(address)
                &&& self.config.create_contract_limit is Some ==> out.len()
                    <= self.config.create_contract_limit->0
            },
    {
        let merged = self.exit_substate(StackExitKind::Succeeded);
        self.lemma_merge_keeps_accounts(address);
        merged.lemma_account_after_staging(
            address,
            AccountView { code: Some(out), ..merged.resolved(address) },
            address,
        );
    }
}

impl<B: Backend, P: PrecompileSet> ExecutorView<B, P> {
    /// A step of a runtime leaves the frames below the current one as they
    /// are, and a step that does not stop spends a step of the executor.
    pub proof fn lemma_step_leads_on(self, rt: RuntimeView)
        requires
            self.wf(),
            self.within_depth(),
        ensures
            self.leads_to(self.step(rt).0),
            self.step(rt).2 is Ok ==> self.step(rt).0.steps_left < self.steps_left,
        decreases self.steps_left, 0int,
    {
        lemma_top_changes_lead_on(self, self);
        if rt.status is Ok && self.steps_left > 0 {
            lemma_top_changes_lead_on(self, self.spent());
            let (m, r) = rt.machine.step();
            match r {
                Err(Capture::Trap(opcode)) => {
                    self.spent().lemma_eval_leads_on(rt.with_machine(m), opcode);
                    lemma_leads_to_is_transitive(
                        self,
                        self.spent(),
                        self.spent().eval(rt.with_machine(m), opcode).0,
                    );
                },
                _ => {},
            }
        }
    }

    /// A run of a runtime leaves the frames below the current one as they
    /// are.
    pub proof fn lemma_run_leads_on(self, rt: RuntimeView)
        requires
            self.wf(),
            self.within_depth(),
        ensures
            self.leads_to(self.run(rt).0),
        decreases self.steps_left, 1int,
    {
        self.lemma_step_leads_on(rt);
        let (s, rt2, r) = self.step(rt);
        if r is Ok && s.steps_left < self.steps_left {
            s.lemma_run_leads_on(rt2);
            lemma_leads_to_is_transitive(self, s, s.run(rt2).0);
        }
    }

    /// An operation that the machine cannot do alone leaves the frames below
    /// the current one as they are.
    pub proof fn lemma_eval_leads_on(self, rt: RuntimeView, opcode: ExternalOpcode)
        requires
            self.wf(),
            self.within_depth(),
        ensures
            self.leads_to(self.eval(rt, opcode).0),
        decreases self.steps_left, 4int,
    {
        lemma_top_changes_lead_on(self, self);
        match opcode {
            ExternalOpcode::SStore => {
                let a = self.resolved(rt.context.address);
                self.lemma_with_account(
                    rt.context.address,
                    AccountView { storage: a.storage.insert(rt.arg(0), rt.arg(1)), ..a },
                );
                lemma_top_changes_lead_on(self, self.eval(rt, opcode).0);
            },
            ExternalOpcode::Log(n) => {
                let after = self.eval(rt, opcode).0;
                if after != self {
                    let log = choose|log: crate::backend::LogView| after == self.log(log);
                    self.lemma_with_top(SubstateView { logs: self.top().logs.push(log), ..self.top() });
                    lemma_top_changes_lead_on(self, after);
                }
            },
            ExternalOpcode::Suicide => {
                let target = Address::spec_from_word(rt.arg(0));
                let address = rt.context.address;
                let t = Transfer { source: address, target, value: self.balance(address) };
                self.lemma_transfer(t);
                let (s, moved) = self.transfer(t);
                lemma_top_changes_lead_on(self, s);
                if moved is Ok {
                    let a = s.resolved(address);
                    s.lemma_with_account(
                        address,
                        AccountView { basic: Basic { balance: Word::spec_zero(), ..a.basic }, ..a },
                    );
                    let s2 = s.with_account(
                        address,
                        AccountView { basic: Basic { balance: Word::spec_zero(), ..a.basic }, ..a },
                    );
                    s2.lemma_with_top(
                        SubstateView { deleted: s2.top().deleted.insert(address), ..s2.top() },
                    );
                    lemma_top_changes_lead_on(self, self.mark_delete(address, target).0);
                }
            },
            ExternalOpcode::Create => self.lemma_eval_create_leads_on(rt, false),
            ExternalOpcode::Create2 => self.lemma_eval_create_leads_on(rt, true),
            ExternalOpcode::Call => self.lemma_eval_call_leads_on(rt, CallScheme::Call),
            ExternalOpcode::CallCode => self.lemma_eval_call_leads_on(rt, CallScheme::CallCode),
            ExternalOpcode::DelegateCall => self.lemma_eval_call_leads_on(rt, CallScheme::DelegateCall),
            ExternalOpcode::StaticCall => self.lemma_eval_call_leads_on(rt, CallScheme::StaticCall),
            _ => {},
        }
    }

    /// A creation from within code leaves the frames below the current one
    /// as they are.
    pub proof fn lemma_eval_create_leads_on(self, rt: RuntimeView, is_create2: bool)
        requires
            self.wf(),
            self.within_depth(),
        ensures
            self.leads_to(self.eval_create(rt, is_create2).0),
        decreases self.steps_left, 3int,
    {
        lemma_top_changes_lead_on(self, self);
        let (rt1, prepared) = rt.create_prepare(is_create2, self.is_static());
        if prepared is Ok {
            let request = prepared->Ok_0;
            self.lemma_create_inner_leads_on(
                rt.context.address,
                request.scheme(is_create2, rt.context.address),
                request.value,
                request.code,
            );
        }
    }

    /// A call from within code leaves the frames below the current one as
    /// they are.
    pub proof fn lemma_eval_call_leads_on(self, rt: RuntimeView, scheme: CallScheme)
        requires
            self.wf(),
            self.within_depth(),
        ensures
            self.leads_to(self.eval_call(rt, scheme).0),
        decreases self.steps_left, 3int,
    {
        lemma_top_changes_lead_on(self, self);
        let (rt1, prepared) = rt.call_prepare(scheme, self.is_static());
        if prepared is Ok {
            let request = prepared->Ok_0;
            self.lemma_call_inner_leads_on(
                request.to,
                Self::call_transfer(scheme, rt.context, request.to, request.value),
                request.input,
                scheme == CallScheme::StaticCall,
                Self::call_context(scheme, rt.context, request.to, request.value),
            );
        }
    }

    /// A call leaves the frames below the current one as they are; a call
    /// that does not succeed leaves every substate as it was: nothing that
    /// its frame staged, deleted or logged is left.
    pub proof fn lemma_call_inner_leads_on(
        self,
        code_address: Address,
        transfer: Option<Transfer>,
        input: Seq<u8>,
        is_static: bool,
        context: Context,
    )
        requires
            self.wf(),
            self.within_depth(),
        ensures
            self.leads_to(self.call_inner(code_address, transfer, input, is_static, context).0),
            !(self.call_inner(code_address, transfer, input, is_static, context).1.0 is Succeed)
                ==> self.call_inner(code_address, transfer, input, is_static, context).0.substates
                == self.substates,
        decreases self.steps_left, 2int,
    {
        lemma_top_changes_lead_on(self, self);
        self.lemma_call_open(transfer, is_static, context);
        let (s, opened) = self.call_open(transfer, is_static, context);
        if opened is Ok {
            let n = self.substates.len() as int;
            assert(s.substates[n].depth == Some((n - 1) as usize));
            self.lemma_frame_ends(s, StackExitKind::Succeeded);
            self.lemma_frame_ends(s, StackExitKind::Failed);
            if self.precompile.spec_resolve(code_address, input, context) is None {
                let rt = RuntimeView::new(self.code(code_address), input, context, self.config);
                s.lemma_run_leads_on(rt);
                let ran = s.run(rt).0;
                assert(self.opened(ran));
                self.lemma_frame_ends(ran, StackExitKind::Succeeded);
                self.lemma_frame_ends(ran, StackExitKind::Failed);
                self.lemma_frame_ends(ran, StackExitKind::Reverted);
            }
        }
    }

    /// The end of a creation leaves the frames below the creator's as they
    /// are; unless the creation succeeded, it leaves every substate as it
    /// was when the frame was opened.
    pub proof fn lemma_create_finish_leads_on(self, ran: Self, address: Address, reason: ExitReason, out: Seq<u8>)
        requires
            self.wf(),
            self.opened(ran),
        ensures
            self.leads_to(ran.create_finish(address, reason, out).0),
            !(ran.create_finish(address, reason, out).1.0 is Succeed) ==> ran.create_finish(
                address,
                reason,
                out,
            ).0.substates == self.substates,
    {
        self.lemma_frame_ends(ran, StackExitKind::Succeeded);
        self.lemma_frame_ends(ran, StackExitKind::Failed);
        self.lemma_frame_ends(ran, StackExitKind::Reverted);
        let merged = ran.exit_substate(StackExitKind::Succeeded);
        merged.lemma_with_account(address, AccountView { code: Some(out), ..merged.resolved(address) });
        lemma_top_changes_lead_on(self, merged.set_code(address, out));
    }

    /// A creation leaves the frames below the current one as they are; a
    /// creation that does not succeed leaves every substate as it was, but
    /// for the creator's nonce where it was raised.
    pub proof fn lemma_create_inner_leads_on(
        self,
        caller: Address,
        scheme: CreateScheme,
        value: Word,
        init_code: Seq<u8>,
    )
        requires
            self.wf(),
            self.within_depth(),
        ensures
            self.leads_to(self.create_inner(caller, scheme, value, init_code).0),
            !(self.create_inner(caller, scheme, value, init_code).1.0 is Succeed) ==> {
                let after = self.create_inner(caller, scheme, value, init_code).0;
                after.substates == self.substates || after.substates == self.bump_nonce(
                    caller,
                ).substates
            },
        decreases self.steps_left, 2int,
    {
        lemma_top_changes_lead_on(self, self);
        let too_deep = self.top().depth is Some && self.top().depth->0 >= self.config.call_stack_limit;
        if !too_deep && self.balance(caller).value() >= value.value() {
            let address = self.create_address(scheme);
            let a = self.resolved(caller);
            self.lemma_with_account(
                caller,
                AccountView {
                    basic: Basic { nonce: a.basic.nonce.spec_wrapping_add(Word::spec_one()), ..a.basic },
                    ..a
                },
            );
            let bumped = self.bump_nonce(caller);
            lemma_top_changes_lead_on(self, bumped);
            let n = self.substates.len() as int;
            if n >= 2 {
                assert(self.substates[n - 1].depth == Some((n - 2) as usize));
            }
            bumped.lemma_create_open(caller, address, value);
            let (s, opened) = bumped.create_open(caller, address, value);
            if opened is Ok {
                let context = Context { address, caller, apparent_value: value };
                let rt = RuntimeView::new(init_code, Seq::empty(), context, self.config);
                s.lemma_run_leads_on(rt);
                let (ran, rt2, reason) = s.run(rt);
                assert(bumped.opened(ran));
                bumped.lemma_create_finish_leads_on(ran, address, reason, rt2.machine.return_value());
                lemma_leads_to_is_transitive(
                    self,
                    bumped,
                    self.create_inner(caller, scheme, value, init_code).0,
                );
            }
        }
    }

    /// After a successful creation, the new account lives at the derived
    /// address; its code is what the init code returned, which is within
    /// the limit of the configuration; and its nonce is as the init code
    /// left it: 1 where the configuration raises the nonce of a new account
    /// and 0 where it does not, unless the init code changed it (as it
    /// does when it creates a contract itself).
    pub proof fn lemma_created_contract(self, caller: Address, scheme: CreateScheme, value: Word, init_code: Seq<u8>)
        requires
            self.wf(),
            self.within_depth(),
            self.create_inner(caller, scheme, value, init_code).1.0 is Succeed,
        ensures
            ({
                let (after, outcome) = self.create_inner(caller, scheme, value, init_code);
                let address = self.create_address(scheme);
                let opened = self.bump_nonce(caller).create_open(caller, address, value).0;
                let (ran, rt, reason) = self.after_init_code(caller, address, value, init_code);
                let fresh = if self.config.create_increase_nonce {
                    Word::spec_one()
                } else {
                    Word::spec_zero()
                };
                &&& outcome.1 == Some(address)
                &&& after.code(address) == rt.machine.return_value()
                &&& self.config.create_contract_limit is Some ==> rt.machine.return_value().len()
                    <= self.config.create_contract_limit->0
                &&& opened.nonce(address) == fresh
                &&& after.nonce(address) == ran.nonce(address)
                &&& ran.nonce(address) == opened.nonce(address) ==> after.nonce(address) == fresh
            }),
    {
        let address = self.create_address(scheme);
        let a = self.resolved(caller);
        self.lemma_with_account(
            caller,
            AccountView {
                basic: Basic { nonce: a.basic.nonce.spec_wrapping_add(Word::spec_one()), ..a.basic },
                ..a
            },
        );
        let bumped = self.bump_nonce(caller);
        let n = self.substates.len() as int;
        if n >= 2 {
            assert(self.substates[n - 1].depth == Some((n - 2) as usize));
        }
        bumped.lemma_create_open(caller, address, value);
        bumped.lemma_create_open_starts_fresh(caller, address, value);
        let (s, opened) = bumped.create_open(caller, address, value);
        let context = Context { address, caller, apparent_value: value };
        let rt = RuntimeView::new(init_code, Seq::empty(), context, self.config);
        s.lemma_run_leads_on(rt);
        let (ran, rt2, reason) = s.run(rt);
        ran.lemma_create_finish_installs(address, reason, rt2.machine.return_value());
    }
}

} // verus!
