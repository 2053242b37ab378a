//! Transaction records and their lifecycle states.

use vstd::prelude::*;

verus! {

/// The lifecycle state of a transaction.  A transaction leaves `Pending`
/// exactly once, to `Confirmed` or `Rejected`; `Invalid` and `Expired` are
/// reserved states that no current code path produces.
#[derive(Clone, Copy, Debug, PartialEq, Eq, Structural)]
pub enum TransactionStatus {
    Pending,
    Confirmed,
    Rejected,
    Invalid,
    Expired,
}

/// The mathematical value of a transaction record.
pub struct TransactionView {
    pub id: Option<u64>,
    pub block_hash: Option<Seq<char>>,
    pub from: Seq<char>,
    pub to: Seq<char>,
    pub amount: u64,
    pub signature: Seq<char>,
    pub timestamp: i64,
    pub status: TransactionStatus,
}

/// A transfer of `amount` from `from` to `to`, identified by the id the store
/// assigned, carrying the block hash it was confirmed under once settled.
#[derive(Clone, Debug, PartialEq)]
pub struct TransactionEntity {
    pub id: Option<u64>,
    pub block_hash: Option<String>,
    pub from: String,
    pub to: String,
    pub amount: u64,
    pub signature: String,
    pub timestamp: i64,
    pub status: TransactionStatus,
}

impl View for TransactionEntity {
    type V = TransactionView;

    open spec fn view(&self) -> TransactionView {
        TransactionView {
            id: self.id,
            block_hash: match self.block_hash {
                Some(ref h) => Some(h@),
                None => None,
            },
            from: self.from@,
            to: self.to@,
            amount: self.amount,
            signature: self.signature@,
            timestamp: self.timestamp,
            status: self.status,
        }
    }
}

impl TransactionEntity {
    /// A fresh, unpersisted record: no id, no confirming block hash.
    pub fn new(
        from: String,
        to: String,
        amount: u64,
        signature: String,
        status: TransactionStatus,
        now: i64,
    ) -> (r: Self)
        ensures
            r@ == (TransactionView {
                id: None,
                block_hash: None,
                from: from@,
                to: to@,
                amount,
                signature: signature@,
                timestamp: now,
                status,
            }),
    {
        Self { id: None, block_hash: None, from, to, amount, signature, timestamp: now, status }
    }

    /// A field-for-field copy with the same mathematical value.
    pub fn duplicate(&self) -> (r: Self)
        ensures
            r@ == self@,
    {
        Self {
            id: self.id,
            block_hash: match &self.block_hash {
                Some(h) => Some(h.clone()),
                None => None,
            },
            from: self.from.clone(),
            to: self.to.clone(),
            amount: self.amount,
            signature: self.signature.clone(),
            timestamp: self.timestamp,
            status: self.status,
        }
    }
}

} // verus!
