//! Block records: an index, the settled transaction ids, and the hash chain.

use vstd::prelude::*;

verus! {

/// The mathematical value of a block record.
pub struct BlockView {
    pub id: Option<u64>,
    pub index: u64,
    pub timestamp: i64,
    pub transactions: Seq<u64>,
    pub previous_hash: Seq<char>,
    pub hash: Seq<char>,
    pub nonce: u64,
}

/// One block of the chain.  The first block has index 1 and an empty previous
/// hash; every later block names its predecessor's hash.  The nonce is always
/// zero: no mining is performed.
#[derive(Clone, Debug, PartialEq)]
pub struct BlockEntity {
    pub id: Option<u64>,
    pub index: u64,
    pub timestamp: i64,
    pub transactions: Vec<u64>,
    pub previous_hash: String,
    pub hash: String,
    pub nonce: u64,
}

impl View for BlockEntity {
    type V = BlockView;

    open spec fn view(&self) -> BlockView {
        BlockView {
            id: self.id,
            index: self.index,
            timestamp: self.timestamp,
            transactions: self.transactions@,
            previous_hash: self.previous_hash@,
            hash: self.hash@,
            nonce: self.nonce,
        }
    }
}

impl BlockEntity {
    /// A fresh, unpersisted block.
    pub fn new(
        index: u64,
        transactions: Vec<u64>,
        previous_hash: String,
        hash: String,
        nonce: u64,
        now: i64,
    ) -> (r: Self)
        ensures
            r@ == (BlockView {
                id: None,
                index,
                timestamp: now,
                transactions: transactions@,
                previous_hash: previous_hash@,
                hash: hash@,
                nonce,
            }),
    {
        Self { id: None, index, timestamp: now, transactions, previous_hash, hash, nonce }
    }

    /// A field-for-field copy with the same mathematical value.
    pub fn duplicate(&self) -> (r: Self)
        ensures
            r@ == self@,
    {
        let mut txs: Vec<u64> = Vec::new();
        let n = self.transactions.len();
        for i in 0..n
            invariant
                n == self.transactions@.len(),
                txs@ == self.transactions@.take(i as int),
        {
            txs.push(self.transactions[i]);
            proof {
                assert(txs@ =~= self.transactions@.take(i + 1));
            }
        }
        proof {
            assert(self.transactions@.take(n as int) =~= self.transactions@);
        }
        Self {
            id: self.id,
            index: self.index,
            timestamp: self.timestamp,
            transactions: txs,
            previous_hash: self.previous_hash.clone(),
            hash: self.hash.clone(),
            nonce: self.nonce,
        }
    }
}

} // verus!
