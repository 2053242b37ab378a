//! Request values for account operations.

use vstd::prelude::*;

verus! {

/// A request to create an account for a public key.
#[derive(Clone, Debug)]
pub struct InsertAddress {
    pub public_key: String,
}

/// An amount of coin tied to an account's public key.
#[derive(Clone, Debug)]
pub struct CoinWithAddress {
    pub public_key: String,
    pub amount: u64,
}

/// The body of a deposit request: the amount to add.
#[derive(Clone, Copy, Debug)]
pub struct DepositRequest {
    pub amount: u64,
}

} // verus!
