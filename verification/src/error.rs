//! The error envelope every operation reports through: a message and the
//! HTTP status code the boundary should answer with.

use vstd::prelude::*;
use crate::address_error::APIAddressError;
use crate::block_error::APIBlockError;
use crate::transaction_error::APITransactionError;

verus! {

/// The status code for a failure inside the service or a store.
pub const STATUS_INTERNAL_SERVER_ERROR: u16 = 500;

/// The status code for an entity that does not exist.
pub const STATUS_NOT_FOUND: u16 = 404;

/// The status code for a request the service refuses.
pub const STATUS_BAD_REQUEST: u16 = 400;

/// A classified failure, ready for the transport boundary.
#[derive(Clone, Debug)]
pub struct ErrorResponse {
    pub error: String,
    pub status_code: u16,
}

/// Anything that can be turned into an error envelope.
pub trait IntoErrorResponse {
    fn error(&self) -> ErrorResponse;
}

/// Any failure an operation of the ledger can report.
#[derive(Clone, Debug)]
pub enum ApiError {
    Address(APIAddressError),
    Block(APIBlockError),
    Transaction(APITransactionError),
}

impl IntoErrorResponse for ApiError {
    fn error(&self) -> ErrorResponse {
        match self {
            ApiError::Address(e) => e.error(),
            ApiError::Block(e) => e.error(),
            ApiError::Transaction(e) => e.error(),
        }
    }
}

} // verus!
