//! Failures of block operations.

use vstd::prelude::*;
use vstd::string::*;
use crate::error::{
    ErrorResponse, IntoErrorResponse, STATUS_BAD_REQUEST, STATUS_INTERNAL_SERVER_ERROR,
    STATUS_NOT_FOUND,
};

verus! {

/// A failure of a block operation; store failures carry the store's raw
/// error text, `NotFound` the hash that was asked for, and `InvalidChain`
/// the chain checker's report.
#[derive(Clone, Debug)]
pub enum APIBlockError {
    InsertBlockError(String),
    FindBlockError(String),
    NotFound(String),
    InvalidChain(String),
}

/// The message an `APIBlockError` reports.
pub open spec fn spec_block_error_msg(e: APIBlockError) -> Seq<char> {
    match e {
        APIBlockError::InsertBlockError(m) => "Insert block error: "@ + m@,
        APIBlockError::FindBlockError(m) => "Find block error: "@ + m@,
        APIBlockError::NotFound(h) => "Block not found with hash: "@ + h@,
        APIBlockError::InvalidChain(m) => "Blockchain invalid: "@ + m@,
    }
}

/// The status code an `APIBlockError` reports: 404 for a missing block, 400
/// for a broken chain, 500 otherwise.
pub open spec fn spec_block_error_status(e: APIBlockError) -> u16 {
    match e {
        APIBlockError::NotFound(_) => STATUS_NOT_FOUND,
        APIBlockError::InvalidChain(_) => STATUS_BAD_REQUEST,
        _ => STATUS_INTERNAL_SERVER_ERROR,
    }
}

impl APIBlockError {
    /// The error envelope for the variant.
    pub fn error(&self) -> (r: ErrorResponse)
        ensures
            r.error@ == spec_block_error_msg(*self),
            r.status_code == spec_block_error_status(*self),
    {
        let mut msg: String;
        let status: u16;
        match self {
            APIBlockError::InsertBlockError(m) => {
                msg = String::from_str("Insert block error: ");
                msg.append(m.as_str());
                status = STATUS_INTERNAL_SERVER_ERROR;
            },
            APIBlockError::FindBlockError(m) => {
                msg = String::from_str("Find block error: ");
                msg.append(m.as_str());
                status = STATUS_INTERNAL_SERVER_ERROR;
            },
            APIBlockError::NotFound(h) => {
                msg = String::from_str("Block not found with hash: ");
                msg.append(h.as_str());
                status = STATUS_NOT_FOUND;
            },
            APIBlockError::InvalidChain(m) => {
                msg = String::from_str("Blockchain invalid: ");
                msg.append(m.as_str());
                status = STATUS_BAD_REQUEST;
            },
        }
        ErrorResponse { error: msg, status_code: status }
    }
}

impl IntoErrorResponse for APIBlockError {
    fn error(&self) -> ErrorResponse {
        APIBlockError::error(self)
    }
}

} // verus!
