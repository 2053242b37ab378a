//! Failures of account operations.

use vstd::prelude::*;
use vstd::string::*;
use crate::error::{
    ErrorResponse, IntoErrorResponse, STATUS_BAD_REQUEST, STATUS_INTERNAL_SERVER_ERROR,
    STATUS_NOT_FOUND,
};

verus! {

/// A failure of an account operation; store failures carry the store's raw
/// error text.
#[derive(Clone, Debug)]
pub enum APIAddressError {
    AddressNotFound(String),
    InvaidSignature(String),
    GenerateAddressError(String),
    AddressAlreadyExists(String),
    FindAddressError(String),
    UpdateBalanceError(String),
}

/// The message an `APIAddressError` reports.
pub open spec fn spec_address_error_msg(e: APIAddressError) -> Seq<char> {
    match e {
        APIAddressError::AddressNotFound(a) => "not found address: "@ + a@,
        APIAddressError::InvaidSignature(a) => "invalid signature for address: "@ + a@,
        APIAddressError::GenerateAddressError(m) => "error while generating new address: "@ + m@,
        APIAddressError::AddressAlreadyExists(a) => "address "@ + a@ + " is already exist"@,
        APIAddressError::FindAddressError(m) => "find address error: "@ + m@,
        APIAddressError::UpdateBalanceError(m) => "error while update address balance: "@ + m@,
    }
}

/// The status code an `APIAddressError` reports: 404 for a missing
/// account, 400 for a validation failure (duplicate account, invalid
/// signature), 500 for a store failure.
pub open spec fn spec_address_error_status(e: APIAddressError) -> u16 {
    match e {
        APIAddressError::AddressNotFound(_) => STATUS_NOT_FOUND,
        APIAddressError::AddressAlreadyExists(_) => STATUS_BAD_REQUEST,
        APIAddressError::InvaidSignature(_) => STATUS_BAD_REQUEST,
        _ => STATUS_INTERNAL_SERVER_ERROR,
    }
}

impl APIAddressError {
    /// The error envelope for the variant.
    pub fn error(&self) -> (r: ErrorResponse)
        ensures
            r.error@ == spec_address_error_msg(*self),
            r.status_code == spec_address_error_status(*self),
    {
        let mut msg: String;
        let status: u16;
        match self {
            APIAddressError::AddressNotFound(a) => {
                msg = String::from_str("not found address: ");
                msg.append(a.as_str());
                status = STATUS_NOT_FOUND;
            },
            APIAddressError::InvaidSignature(a) => {
                msg = String::from_str("invalid signature for address: ");
                msg.append(a.as_str());
                status = STATUS_BAD_REQUEST;
            },
            APIAddressError::GenerateAddressError(m) => {
                msg = String::from_str("error while generating new address: ");
                msg.append(m.as_str());
                status = STATUS_INTERNAL_SERVER_ERROR;
            },
            APIAddressError::AddressAlreadyExists(a) => {
                msg = String::from_str("address ");
                msg.append(a.as_str());
                msg.append(" is already exist");
                status = STATUS_BAD_REQUEST;
            },
            APIAddressError::FindAddressError(m) => {
                msg = String::from_str("find address error: ");
                msg.append(m.as_str());
                status = STATUS_INTERNAL_SERVER_ERROR;
            },
            APIAddressError::UpdateBalanceError(m) => {
                msg = String::from_str("error while update address balance: ");
                msg.append(m.as_str());
                status = STATUS_INTERNAL_SERVER_ERROR;
            },
        }
        ErrorResponse { error: msg, status_code: status }
    }
}

impl IntoErrorResponse for APIAddressError {
    fn error(&self) -> ErrorResponse {
        APIAddressError::error(self)
    }
}

} // verus!
