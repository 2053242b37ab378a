//! Failures of transaction operations.

use vstd::prelude::*;
use vstd::string::*;
use crate::error::{
    ErrorResponse, IntoErrorResponse, STATUS_BAD_REQUEST, STATUS_INTERNAL_SERVER_ERROR,
    STATUS_NOT_FOUND,
};
use crate::text::{dec_digits, u64_to_dec};

verus! {

/// A failure of a transaction operation.  `BalanceNotEnough` carries the
/// sender, the sender's current balance, and the amount asked for;
/// `NotFound` the id that matched nothing; the store failures the store's
/// raw error text.
#[derive(Clone, Debug)]
pub enum APITransactionError {
    BalanceNotEnough(String, u64, u64),
    InvalidSignature,
    VerifySignatureError(String),
    InsertTransactionError(String),
    NotFound(u64),
    FindError(String),
    UpdateStatusError(String),
}

/// The message an `APITransactionError` reports.
pub open spec fn spec_transaction_error_msg(e: APITransactionError) -> Seq<char> {
    match e {
        APITransactionError::BalanceNotEnough(sender, current, expected) => {
            "balance is not enough from sender "@ + sender@ + " need to send "@ + dec_digits(
                expected as nat,
            ) + " but have "@ + dec_digits(current as nat)
        },
        APITransactionError::InvalidSignature => "invalid signature"@,
        APITransactionError::VerifySignatureError(m) => "verify signature error: "@ + m@,
        APITransactionError::InsertTransactionError(m) => "insert a new transaction error: "@
            + m@,
        APITransactionError::NotFound(id) => "not found transaction id: "@ + dec_digits(
            id as nat,
        ),
        APITransactionError::FindError(m) => "find transaction error: "@ + m@,
        APITransactionError::UpdateStatusError(m) => "Update transaction status error: "@ + m@,
    }
}

/// The status code an `APITransactionError` reports: 404 for a missing
/// transaction, 400 for a validation failure (uncovered balance, invalid
/// or malformed signature), 500 for a store failure.
pub open spec fn spec_transaction_error_status(e: APITransactionError) -> u16 {
    match e {
        APITransactionError::NotFound(_) => STATUS_NOT_FOUND,
        APITransactionError::BalanceNotEnough(_, _, _) => STATUS_BAD_REQUEST,
        APITransactionError::InvalidSignature => STATUS_BAD_REQUEST,
        APITransactionError::VerifySignatureError(_) => STATUS_BAD_REQUEST,
        _ => STATUS_INTERNAL_SERVER_ERROR,
    }
}

impl APITransactionError {
    /// The error envelope for the variant.
    pub fn error(&self) -> (r: ErrorResponse)
        ensures
            r.error@ == spec_transaction_error_msg(*self),
            r.status_code == spec_transaction_error_status(*self),
    {
        let mut msg: String;
        let status: u16;
        match self {
            APITransactionError::BalanceNotEnough(sender, current, expected) => {
                msg = String::from_str("balance is not enough from sender ");
                msg.append(sender.as_str());
                msg.append(" need to send ");
                let e = u64_to_dec(*expected);
                msg.append(e.as_str());
                msg.append(" but have ");
                let c = u64_to_dec(*current);
                msg.append(c.as_str());
                status = STATUS_BAD_REQUEST;
            },
            APITransactionError::InvalidSignature => {
                msg = String::from_str("invalid signature");
                status = STATUS_BAD_REQUEST;
            },
            APITransactionError::VerifySignatureError(m) => {
                msg = String::from_str("verify signature error: ");
                msg.append(m.as_str());
                status = STATUS_BAD_REQUEST;
            },
            APITransactionError::InsertTransactionError(m) => {
                msg = String::from_str("insert a new transaction error: ");
                msg.append(m.as_str());
                status = STATUS_INTERNAL_SERVER_ERROR;
            },
            APITransactionError::NotFound(id) => {
                msg = String::from_str("not found transaction id: ");
                let d = u64_to_dec(*id);
                msg.append(d.as_str());
                status = STATUS_NOT_FOUND;
            },
            APITransactionError::FindError(m) => {
                msg = String::from_str("find transaction error: ");
                msg.append(m.as_str());
                status = STATUS_INTERNAL_SERVER_ERROR;
            },
            APITransactionError::UpdateStatusError(m) => {
                msg = String::from_str("Update transaction status error: ");
                msg.append(m.as_str());
                status = STATUS_INTERNAL_SERVER_ERROR;
            },
        }
        ErrorResponse { error: msg, status_code: status }
    }
}

impl IntoErrorResponse for APITransactionError {
    fn error(&self) -> ErrorResponse {
        APITransactionError::error(self)
    }
}

} // verus!
