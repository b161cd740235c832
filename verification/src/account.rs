//! The layered account state: what one call frame has staged.

use crate::address::Address;
use crate::backend::{Basic, Log, LogView};
use crate::sorted_map::SortedMap;
use crate::word::Word;
use vstd::prelude::*;

verus! {

/// A copy of a byte string.
pub fn copy_bytes(bytes: &[u8]) -> (r: Vec<u8>)
    ensures
        r@ == bytes@,
{
    let mut out: Vec<u8> = Vec::new();
    let n = bytes.len();
    let mut i: usize = 0;
    while i < n
        invariant
            i <= n,
            n == bytes@.len(),
            out@ == bytes@.subrange(0, i as int),
        decreases n - i,
    {
        out.push(bytes[i]);
        assert(bytes@.subrange(0, i + 1) =~= bytes@.subrange(0, i as int).push(bytes@[i as int]));
        i = i + 1;
    }
    assert(out@ =~= bytes@);
    out
}

/// The record of an account in a substate.
pub struct StackAccount {
    /// Nonce and balance.
    pub basic: Basic,
    /// Code. `None` means the code is not staged: it is the backend's.
    pub code: Option<Vec<u8>>,
    /// The storage slots staged here.
    pub storage: SortedMap<Word, Word>,
    /// Whether the storage of the backend is shadowed entirely: a slot that
    /// is not staged then reads as zero.
    pub reset_storage: bool,
}

/// What the record of an account holds.
pub struct AccountView {
    pub basic: Basic,
    pub code: Option<Seq<u8>>,
    pub storage: Map<Word, Word>,
    pub reset_storage: bool,
}

impl AccountView {
    /// The record of an account that nothing was staged for: the given nonce
    /// and balance, code not staged, no slot staged.
    pub open spec fn fresh(basic: Basic) -> AccountView {
        AccountView { basic, code: None, storage: Map::empty(), reset_storage: false }
    }
}

impl View for StackAccount {
    type V = AccountView;

    open spec fn view(&self) -> AccountView {
        AccountView {
            basic: self.basic,
            code: match self.code {
                Some(c) => Some(c@),
                None => None,
            },
            storage: self.storage@,
            reset_storage: self.reset_storage,
        }
    }
}

impl StackAccount {
    /// The record of an account that nothing was staged for.
    pub fn fresh(basic: Basic) -> (r: Self)
        ensures
            r@ == AccountView::fresh(basic),
    {
        StackAccount { basic, code: None, storage: SortedMap::new(), reset_storage: false }
    }

    /// A copy of the record.
    pub fn duplicate(&self) -> (r: Self)
        ensures
            r@ == self@,
    {
        let code = match &self.code {
            Some(c) => Some(copy_bytes(c.as_slice())),
            None => None,
        };
        StackAccount {
            basic: self.basic,
            code,
            storage: self.storage.duplicate(),
            reset_storage: self.reset_storage,
        }
    }
}

/// How a substate ends.
#[derive(Clone, Copy, Debug, PartialEq, Eq, Structural)]
pub enum StackExitKind {
    /// The frame succeeded: what it staged goes to its parent.
    Succeeded,
    /// The frame reverted: what it staged is dropped.
    Reverted,
    /// The frame failed: what it staged is dropped.
    Failed,
}

/// What one call frame has staged.
pub struct StackSubstate {
    /// The staged account records.
    pub state: SortedMap<Address, StackAccount>,
    /// The accounts scheduled for removal.
    pub deleted: SortedMap<Address, ()>,
    /// The logs, in the order in which they were made.
    pub logs: Vec<Log>,
    /// Whether the frame may not change the state.
    pub is_static: bool,
    /// The depth of the frame; the root has none.
    pub depth: Option<usize>,
}

/// What a substate holds.
pub struct SubstateView {
    pub state: Map<Address, AccountView>,
    pub deleted: Set<Address>,
    pub logs: Seq<LogView>,
    pub is_static: bool,
    pub depth: Option<usize>,
}

/// The views of a sequence of logs.
pub open spec fn log_views(logs: Seq<Log>) -> Seq<LogView> {
    Seq::new(logs.len(), |i: int| logs[i]@)
}

impl View for StackSubstate {
    type V = SubstateView;

    open spec fn view(&self) -> SubstateView {
        SubstateView {
            state: self.state@,
            deleted: self.deleted@.dom(),
            logs: log_views(self.logs@),
            is_static: self.is_static,
            depth: self.depth,
        }
    }
}

impl SubstateView {
    /// An empty substate.
    pub open spec fn empty(is_static: bool, depth: Option<usize>) -> SubstateView {
        SubstateView {
            state: Map::empty(),
            deleted: Set::empty(),
            logs: Seq::empty(),
            is_static,
            depth,
        }
    }

    /// The substate of a frame that this frame opens: static where this one
    /// is or where `is_static` asks for it, one level deeper.
    pub open spec fn child(self, is_static: bool) -> SubstateView {
        SubstateView::empty(
            is_static || self.is_static,
            match self.depth {
                None => Some(0usize),
                Some(n) => Some((n + 1) as usize),
            },
        )
    }

    /// This substate after a child that succeeded was merged into it: the
    /// child's records replace those here, its deletions and logs are added.
    pub open spec fn merged(self, child: SubstateView) -> SubstateView {
        SubstateView {
            state: self.state.union_prefer_right(child.state),
            deleted: self.deleted.union(child.deleted),
            logs: self.logs + child.logs,
            ..self
        }
    }
}

impl StackSubstate {
    /// An empty substate.
    pub fn empty(is_static: bool, depth: Option<usize>) -> (r: Self)
        ensures
            r@ == SubstateView::empty(is_static, depth),
    {
        let r = StackSubstate {
            state: SortedMap::new(),
            deleted: SortedMap::new(),
            logs: Vec::new(),
            is_static,
            depth,
        };
        assert(r@.deleted =~= Set::empty());
        assert(r@.logs =~= Seq::empty());
        r
    }

    /// Merges a child that succeeded into this substate.
    pub fn merge(self, child: StackSubstate) -> (r: Self)
        ensures
            r@ == self@.merged(child@),
    {
        let StackSubstate { state, deleted, logs, is_static, depth } = self;
        let StackSubstate { state: child_state, deleted: child_deleted, logs: child_logs, .. } = child;
        let mut logs = logs;
        let mut child_logs = child_logs;
        logs.append(&mut child_logs);
        let r = StackSubstate {
            state: state.absorb(child_state),
            deleted: deleted.absorb(child_deleted),
            logs,
            is_static,
            depth,
        };
        assert(r@.logs =~= self@.logs + child@.logs);
        assert(r@.deleted =~= self@.deleted.union(child@.deleted));
        r
    }
}

} // verus!
