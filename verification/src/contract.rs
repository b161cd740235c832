//! What the engine tells the host at the end of an entry point.

use crate::error::{ExitReason, ToStr};
use vstd::prelude::*;

verus! {

/// The entry points of the engine as the host knows them.
#[derive(Clone, Copy, Debug, PartialEq, Eq, Structural)]
pub enum Methods {
    DeployCode,
    Call,
    View,
    GetCode,
    GetBalance,
    GetNonce,
    GetStorageAt,
}

impl Methods {
    /// The name of the entry point.
    pub open spec fn name(self) -> Seq<char> {
        match self {
            Methods::DeployCode => "deploy_code"@,
            Methods::Call => "call"@,
            Methods::View => "view"@,
            Methods::GetCode => "get_code"@,
            Methods::GetBalance => "get_balance"@,
            Methods::GetNonce => "get_nonce"@,
            Methods::GetStorageAt => "get_storage_at"@,
        }
    }

    /// The name of the entry point.
    pub fn to_string(&self) -> (r: String)
        ensures
            r@ == self.name(),
    {
        match self {
            Methods::DeployCode => "deploy_code".to_owned(),
            Methods::Call => "call".to_owned(),
            Methods::View => "view".to_owned(),
            Methods::GetCode => "get_code".to_owned(),
            Methods::GetBalance => "get_balance".to_owned(),
            Methods::GetNonce => "get_nonce".to_owned(),
            Methods::GetStorageAt => "get_storage_at".to_owned(),
        }
    }
}

/// What the host is to do at the end of an entry point.
#[derive(Debug, PartialEq, Eq)]
pub enum HostAction {
    /// Hand the bytes back as the output of the call.
    ReturnOutput(Vec<u8>),
    /// Fail the call; the body of the failure is the bytes, shown in
    /// hexadecimal.
    PanicHex(Vec<u8>),
    /// Fail the call; the body of the failure is the text.
    PanicUtf8(Vec<u8>),
}

/// What the host is to do at the end of an entry point, as a view.
pub enum HostActionView {
    ReturnOutput(Seq<u8>),
    PanicHex(Seq<u8>),
    PanicUtf8(Seq<u8>),
}

impl View for HostAction {
    type V = HostActionView;

    open spec fn view(&self) -> HostActionView {
        match self {
            HostAction::ReturnOutput(v) => HostActionView::ReturnOutput(v@),
            HostAction::PanicHex(v) => HostActionView::PanicHex(v@),
            HostAction::PanicUtf8(v) => HostActionView::PanicUtf8(v@),
        }
    }
}

/// How an execution surfaces at the host: a success returns the output; a
/// revert fails with the revert data as its body; a fault of the program and
/// a fatal condition fail with the name of their kind.
pub open spec fn surfaced(reason: ExitReason, return_value: Seq<u8>) -> HostActionView {
    match reason {
        ExitReason::Succeed(_) => HostActionView::ReturnOutput(return_value),
        ExitReason::Revert(_) => HostActionView::PanicHex(return_value),
        ExitReason::Error(e) => HostActionView::PanicUtf8(vstd::utf8::encode_utf8(e.name())),
        ExitReason::Fatal(e) => HostActionView::PanicUtf8(vstd::utf8::encode_utf8(e.name())),
    }
}

/// What the host is to do with the outcome of an execution.
pub fn process_exit_reason(reason: ExitReason, return_value: &[u8]) -> (r: HostAction)
    ensures
        r@ == surfaced(reason, return_value@),
{
    match reason {
        ExitReason::Succeed(_) => HostAction::ReturnOutput(crate::account::copy_bytes(return_value)),
        ExitReason::Revert(_) => HostAction::PanicHex(crate::account::copy_bytes(return_value)),
        ExitReason::Error(error) => HostAction::PanicUtf8(
            crate::account::copy_bytes(error.to_str().as_bytes()),
        ),
        ExitReason::Fatal(error) => HostAction::PanicUtf8(
            crate::account::copy_bytes(error.to_str().as_bytes()),
        ),
    }
}

} // verus!
