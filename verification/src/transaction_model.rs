//! Request values for transaction operations.

use vstd::prelude::*;

verus! {

/// A submitted transfer: sender, receiver, amount, and the sender's
/// signature over the canonical message.
#[derive(Clone, Debug)]
pub struct CreateTransactionRequest {
    pub from: String,
    pub to: String,
    pub amount: u64,
    pub signature: String,
}

/// The body of a confirm request: the hash of the settling block.
#[derive(Clone, Debug)]
pub struct ConfirmTxRequest {
    pub block_hash: String,
}

} // verus!
