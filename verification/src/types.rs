//! What the manager and the shards share: the errors and the record that
//! tells a recipient of a transfer.

use crate::amount::nat_value;
use crate::principal::principal_bytes;
use candid::{Nat, Principal};
use vstd::prelude::*;
use vstd::string::StringExecFns;

verus! {

/// Why the network turned a call to another node down.
#[derive(Clone, Copy, Debug, PartialEq, Eq, Structural)]
pub enum RejectionCode {
    NoError,
    SysFatal,
    SysTransient,
    DestinationInvalid,
    CanisterReject,
    CanisterError,
    Unknown,
}

impl RejectionCode {
    /// The name of the code as it is printed in messages.
    pub open spec fn spec_name(self) -> Seq<char> {
        match self {
            RejectionCode::NoError => "NoError"@,
            RejectionCode::SysFatal => "SysFatal"@,
            RejectionCode::SysTransient => "SysTransient"@,
            RejectionCode::DestinationInvalid => "DestinationInvalid"@,
            RejectionCode::CanisterReject => "CanisterReject"@,
            RejectionCode::CanisterError => "CanisterError"@,
            RejectionCode::Unknown => "Unknown"@,
        }
    }

    /// The name of the code as it is printed in messages.
    pub fn name(self) -> (s: &'static str)
        ensures
            s@ == self.spec_name(),
    {
        match self {
            RejectionCode::NoError => "NoError",
            RejectionCode::SysFatal => "SysFatal",
            RejectionCode::SysTransient => "SysTransient",
            RejectionCode::DestinationInvalid => "DestinationInvalid",
            RejectionCode::CanisterReject => "CanisterReject",
            RejectionCode::CanisterError => "CanisterError",
            RejectionCode::Unknown => "Unknown",
        }
    }
}

/// Why an operation of the ledger failed.
#[derive(Clone, Debug, PartialEq, Eq)]
pub enum TxError {
    /// The account holds less than the operation takes.
    InsufficientBalance,
    /// The caller may not do this. Which test failed is not told.
    Unauthorized,
    ShardDoesNotExist,
    /// The node `shard` has no account for `user`; both as text.
    AccountDoesNotExist { shard: String, user: String },
    AccountAlreadyExists,
    /// The value does not exceed the fee.
    TransferValueTooSmall,
    /// A call to another node was turned down.
    TransferCallbackError(String),
    /// The underlying asset could not be moved.
    UnderlyingTransferFailure,
    Other(String),
}

/// The message for a call that the network turned down.
pub open spec fn callback_message(code: RejectionCode, message: Seq<char>) -> Seq<char> {
    "Error in callback (code "@ + code.spec_name() + "): "@ + message
}

impl TxError {
    /// The error for a call to another node that was turned down with the
    /// given code and message.
    pub fn from(err: (RejectionCode, String)) -> (e: TxError)
        ensures
            e matches TxError::TransferCallbackError(s) && s@ == callback_message(err.0, err.1@),
    {
        let mut s = String::from_str("Error in callback (code ");
        s.append(err.0.name());
        s.append("): ");
        s.append(err.1.as_str());
        TxError::TransferCallbackError(s)
    }
}

/// What result an operation of the ledger gives.
pub type Result<T> = std::result::Result<T, TxError>;

/// What a call to another node gives: its answer, or the code and the
/// message with which the network turned it down.
pub type CallResult<R> = std::result::Result<R, (RejectionCode, String)>;

/// The error that stands for a call that was turned down.
pub open spec fn is_callback_error(e: TxError, err: (RejectionCode, String)) -> bool {
    e matches TxError::TransferCallbackError(s) && s@ == callback_message(err.0, err.1@)
}

/// The outcome of a call to another node as a result of the ledger.
pub fn call_outcome<R>(response: CallResult<R>) -> (r: Result<R>)
    ensures
        match response {
            Ok(answer) => r == Ok::<R, TxError>(answer),
            Err(err) => r matches Err(e) && is_callback_error(e, err),
        },
{
    match response {
        Ok(answer) => Ok(answer),
        Err(err) => Err(TxError::from(err)),
    }
}

/// Tells the recipient's endpoint of a transfer that waits for its answer.
pub struct ShardedTransferNotification {
    pub from: Principal,
    pub from_shard: Principal,
    pub to: Principal,
    pub fee_charged: Nat,
    pub value: Nat,
    pub data: String,
}

/// A notification as plain values.
pub ghost struct NotificationView {
    pub from: Seq<u8>,
    pub from_shard: Seq<u8>,
    pub to: Seq<u8>,
    pub fee_charged: nat,
    pub value: nat,
    pub data: Seq<char>,
}

impl ShardedTransferNotification {
    pub open spec fn view(&self) -> NotificationView {
        NotificationView {
            from: principal_bytes(self.from),
            from_shard: principal_bytes(self.from_shard),
            to: principal_bytes(self.to),
            fee_charged: nat_value(self.fee_charged),
            value: nat_value(self.value),
            data: self.data@,
        }
    }
}

} // verus!
