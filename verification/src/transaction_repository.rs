//! The transaction store: persisted transaction records, queryable by id, by
//! party address, and by status.
//!
//! Records live in memory in insertion order and get ids from a counter.
//! `find_all_pending` returns the pending records sorted by ascending
//! timestamp, records with equal timestamps in insertion order: block
//! construction fairness depends on this order.

use vstd::prelude::*;
use vstd::string::*;
use crate::ordering::{
    first_match, insert_by_key, lemma_filter_push, lemma_first_match, lemma_insert_by_key,
    lemma_insert_by_key_splice, lemma_sort_by_key, sort_by_key, sorted_by_key,
};
use crate::transaction_entity::{TransactionEntity, TransactionStatus, TransactionView};

verus! {

/// The predicate picking transactions with the given store-assigned id.
pub open spec fn by_tx_id(id: u64) -> spec_fn(TransactionView) -> bool {
    |t: TransactionView| t.id == Some(id)
}

/// The predicate picking transactions in which the given address takes part,
/// as sender or as receiver.
pub open spec fn by_party(address: Seq<char>) -> spec_fn(TransactionView) -> bool {
    |t: TransactionView| t.from == address || t.to == address
}

/// The predicate picking pending transactions.
pub open spec fn is_pending() -> spec_fn(TransactionView) -> bool {
    |t: TransactionView| t.status == TransactionStatus::Pending
}

/// The timestamp, as the sort key for pending transactions.
pub open spec fn ts_key() -> spec_fn(TransactionView) -> int {
    |t: TransactionView| t.timestamp as int
}

/// The index of the first transaction with the given id, or `-1`.
pub open spec fn tx_pos(s: Seq<TransactionView>, id: u64) -> int {
    first_match(s, by_tx_id(id))
}

/// Whether some transaction has the given id.
pub open spec fn has_tx(s: Seq<TransactionView>, id: u64) -> bool {
    tx_pos(s, id) >= 0
}

/// The pending transactions of `s`, sorted by ascending timestamp, equal
/// timestamps in store order.
pub open spec fn pending_sorted(s: Seq<TransactionView>) -> Seq<TransactionView> {
    sort_by_key(ts_key(), s.filter(is_pending()))
}

/// **Pending ordering.**  When the pending records already stand in the
/// store in ascending timestamp order — as they do when transactions are
/// submitted in timestamp order — sorting does not move them: the pending
/// list, and so a built block, carries them in submission order.
pub proof fn lemma_pending_order(txs: Seq<TransactionView>)
    requires
        sorted_by_key(ts_key(), txs.filter(is_pending())),
    ensures
        pending_sorted(txs) == txs.filter(is_pending()),
{
    crate::ordering::lemma_sort_of_sorted(ts_key(), txs.filter(is_pending()));
}

pub struct TransactionRepository {
    items: Vec<TransactionEntity>,
    next_id: u64,
}

impl View for TransactionRepository {
    type V = Seq<TransactionView>;

    closed spec fn view(&self) -> Seq<TransactionView> {
        self.items@.map_values(|t: TransactionEntity| t@)
    }
}

impl TransactionRepository {
    /// The next id the store will assign.
    pub closed spec fn spec_next_id(&self) -> u64 {
        self.next_id
    }

    /// Every stored record carries an id below the id counter.
    pub open spec fn wf(&self) -> bool {
        forall|i: int|
            0 <= i < self@.len() ==> (#[trigger] self@[i].id) is Some && self@[i].id->0
                < self.spec_next_id()
    }

    /// An empty store.
    pub fn creation() -> (r: Self)
        ensures
            r.wf(),
            r@ == Seq::<TransactionView>::empty(),
            r.spec_next_id() == 1,
    {
        let r = Self { items: Vec::new(), next_id: 1 };
        proof {
            assert(r@ =~= Seq::<TransactionView>::empty());
        }
        r
    }

    /// Looks a transaction up by its store-assigned id.
    pub fn find_by_id(&self, id: u64) -> (r: Result<Option<TransactionEntity>, String>)
        ensures
            match r {
                Ok(Some(t)) => has_tx(self@, id) && t@ == self@[tx_pos(self@, id)],
                Ok(None) => !has_tx(self@, id),
                Err(_) => false,
            },
    {
        let n = self.items.len();
        for i in 0..n
            invariant
                n == self.items@.len(),
                self@.len() == n,
                forall|j: int| 0 <= j < i ==> (#[trigger] self@[j]).id != Some(id),
        {
            let found = match self.items[i].id {
                Some(x) => x == id,
                None => false,
            };
            if found {
                proof {
                    lemma_first_match(self@, by_tx_id(id));
                    assert(by_tx_id(id)(self@[i as int]));
                    assert(tx_pos(self@, id) == i);
                }
                return Ok(Some(self.items[i].duplicate()));
            }
        }
        proof {
            lemma_first_match(self@, by_tx_id(id));
        }
        Ok(None)
    }

    /// Returns every transaction in which `address` is sender or receiver,
    /// in store order.
    pub fn find_by_address(&self, address: String) -> (r: Result<
        Vec<TransactionEntity>,
        String,
    >)
        ensures
            match r {
                Ok(v) => v@.map_values(|t: TransactionEntity| t@) == self@.filter(
                    by_party(address@),
                ),
                Err(_) => false,
            },
    {
        let mut out: Vec<TransactionEntity> = Vec::new();
        let n = self.items.len();
        for i in 0..n
            invariant
                n == self.items@.len(),
                self@.len() == n,
                out@.map_values(|t: TransactionEntity| t@) == self@.take(i as int).filter(
                    by_party(address@),
                ),
        {
            let tx = &self.items[i];
            proof {
                assert(self@.take(i + 1) =~= self@.take(i as int).push(self@[i as int]));
                lemma_filter_push(self@.take(i as int), by_party(address@), self@[i as int]);
            }
            if tx.from == address || tx.to == address {
                out.push(tx.duplicate());
                proof {
                    assert(out@.map_values(|t: TransactionEntity| t@) =~= self@.take(
                        i + 1,
                    ).filter(by_party(address@)));
                }
            } else {
                proof {
                    assert(out@.map_values(|t: TransactionEntity| t@) =~= self@.take(
                        i + 1,
                    ).filter(by_party(address@)));
                }
            }
        }
        proof {
            assert(self@.take(n as int) =~= self@);
        }
        Ok(out)
    }

    /// Returns the pending transactions, oldest first; equal timestamps keep
    /// store order.
    pub fn find_all_pending(&self) -> (r: Result<Vec<TransactionEntity>, String>)
        ensures
            match r {
                Ok(v) => {
                    &&& v@.map_values(|t: TransactionEntity| t@) == pending_sorted(self@)
                    &&& sorted_by_key(ts_key(), v@.map_values(|t: TransactionEntity| t@))
                },
                Err(_) => false,
            },
    {
        let mut out: Vec<TransactionEntity> = Vec::new();
        let n = self.items.len();
        for i in 0..n
            invariant
                n == self.items@.len(),
                self@.len() == n,
                out@.map_values(|t: TransactionEntity| t@) == sort_by_key(
                    ts_key(),
                    self@.take(i as int).filter(is_pending()),
                ),
                sorted_by_key(ts_key(), out@.map_values(|t: TransactionEntity| t@)),
        {
            let ghost prefix = self@.take(i as int).filter(is_pending());
            let ghost sorted_prefix = out@.map_values(|t: TransactionEntity| t@);
            proof {
                assert(self@.take(i + 1) =~= self@.take(i as int).push(self@[i as int]));
                lemma_filter_push(self@.take(i as int), is_pending(), self@[i as int]);
            }
            let tx = &self.items[i];
            if matches!(tx.status, TransactionStatus::Pending) {
                proof {
                    assert(self@.take(i + 1).filter(is_pending()) == prefix.push(
                        self@[i as int],
                    ));
                    assert(prefix.push(self@[i as int]).drop_last() =~= prefix);
                    assert(sort_by_key(ts_key(), self@.take(i + 1).filter(is_pending()))
                        == insert_by_key(
                        ts_key(),
                        self@[i as int],
                        sort_by_key(ts_key(), prefix),
                    ));
                }
                // find the first position whose timestamp exceeds this one
                let mut j: usize = 0;
                while j < out.len() && out[j].timestamp <= tx.timestamp
                    invariant
                        0 <= j <= out@.len(),
                        i < self@.len(),
                        tx@ == self@[i as int],
                        sorted_prefix == out@.map_values(|t: TransactionEntity| t@),
                        sorted_prefix.len() == out@.len(),
                        forall|k: int|
                            0 <= k < j ==> (#[trigger] sorted_prefix[k]).timestamp
                                <= self@[i as int].timestamp,
                    decreases out@.len() - j,
                {
                    j += 1;
                }
                proof {
                    lemma_insert_by_key_splice(
                        ts_key(),
                        self@[i as int],
                        sorted_prefix,
                        j as int,
                    );
                    lemma_insert_by_key(ts_key(), self@[i as int], sorted_prefix);
                }
                out.insert(j, tx.duplicate());
                proof {
                    assert(out@.map_values(|t: TransactionEntity| t@) =~= sorted_prefix.take(
                        j as int,
                    ) + seq![self@[i as int]] + sorted_prefix.skip(j as int));
                    assert(out@.map_values(|t: TransactionEntity| t@) == insert_by_key(
                        ts_key(),
                        self@[i as int],
                        sorted_prefix,
                    ));
                }
            } else {
                proof {
                    assert(self@.take(i + 1).filter(is_pending()) == prefix);
                }
            }
        }
        proof {
            assert(self@.take(n as int) =~= self@);
        }
        Ok(out)
    }

    /// Persists a new transaction record and returns its assigned id.
    pub fn insert(&mut self, tx: TransactionEntity) -> (r: Result<u64, String>)
        requires
            old(self).wf(),
        ensures
            final(self).wf(),
            match r {
                Ok(id) => {
                    &&& old(self).spec_next_id() < u64::MAX
                    &&& id == old(self).spec_next_id()
                    &&& final(self)@ == old(self)@.push(TransactionView { id: Some(id), ..tx@ })
                    &&& final(self).spec_next_id() == old(self).spec_next_id() + 1
                },
                Err(_) => {
                    &&& old(self).spec_next_id() == u64::MAX
                    &&& final(self)@ == old(self)@
                    &&& final(self).spec_next_id() == old(self).spec_next_id()
                },
            },
    {
        if self.next_id == u64::MAX {
            return Err(String::from_str("id space exhausted"));
        }
        let id = self.next_id;
        self.next_id = id + 1;
        let mut stored = tx;
        stored.id = Some(id);
        self.items.push(stored);
        proof {
            assert(final(self)@ =~= old(self)@.push(TransactionView { id: Some(id), ..tx@ }));
        }
        Ok(id)
    }

    /// Sets the status of the transaction with the given id.  Fails, changing
    /// nothing, when no transaction has that id.
    pub fn update_status(&mut self, tx_id: u64, status: TransactionStatus) -> (r: Result<
        (),
        String,
    >)
        requires
            old(self).wf(),
        ensures
            final(self).wf(),
            final(self).spec_next_id() == old(self).spec_next_id(),
            match r {
                Ok(()) => {
                    let k = tx_pos(old(self)@, tx_id);
                    &&& has_tx(old(self)@, tx_id)
                    &&& final(self)@ == old(self)@.update(
                        k,
                        TransactionView { status, ..old(self)@[k] },
                    )
                },
                Err(m) => {
                    &&& !has_tx(old(self)@, tx_id)
                    &&& final(self)@ == old(self)@
                    &&& m@ == "Transaction not found"@
                },
            },
    {
        let n = self.items.len();
        for i in 0..n
            invariant
                n == self.items@.len(),
                self@.len() == n,
                self.wf(),
                self@ == old(self)@,
                self.spec_next_id() == old(self).spec_next_id(),
                forall|j: int| 0 <= j < i ==> (#[trigger] self@[j]).id != Some(tx_id),
        {
            let found = match self.items[i].id {
                Some(x) => x == tx_id,
                None => false,
            };
            if found {
                proof {
                    lemma_first_match(self@, by_tx_id(tx_id));
                    assert(by_tx_id(tx_id)(self@[i as int]));
                    assert(tx_pos(self@, tx_id) == i);
                }
                self.items[i].status = status;
                proof {
                    assert(final(self)@ =~= old(self)@.update(
                        i as int,
                        TransactionView { status, ..old(self)@[i as int] },
                    ));
                }
                return Ok(());
            }
        }
        proof {
            lemma_first_match(self@, by_tx_id(tx_id));
        }
        Err(String::from_str("Transaction not found"))
    }

    /// Marks the transaction with the given id `Confirmed` and records the
    /// hash of the block that settled it.  Fails, changing nothing, when no
    /// transaction has that id.
    pub fn mark_confirmed(&mut self, tx_id: u64, block_hash: String) -> (r: Result<(), String>)
        requires
            old(self).wf(),
        ensures
            final(self).wf(),
            final(self).spec_next_id() == old(self).spec_next_id(),
            match r {
                Ok(()) => {
                    let k = tx_pos(old(self)@, tx_id);
                    &&& has_tx(old(self)@, tx_id)
                    &&& final(self)@ == old(self)@.update(
                        k,
                        TransactionView {
                            status: TransactionStatus::Confirmed,
                            block_hash: Some(block_hash@),
                            ..old(self)@[k]
                        },
                    )
                },
                Err(m) => {
                    &&& !has_tx(old(self)@, tx_id)
                    &&& final(self)@ == old(self)@
                    &&& m@ == "Transaction not found"@
                },
            },
    {
        let n = self.items.len();
        for i in 0..n
            invariant
                n == self.items@.len(),
                self@.len() == n,
                self.wf(),
                self@ == old(self)@,
                self.spec_next_id() == old(self).spec_next_id(),
                forall|j: int| 0 <= j < i ==> (#[trigger] self@[j]).id != Some(tx_id),
        {
            let found = match self.items[i].id {
                Some(x) => x == tx_id,
                None => false,
            };
            if found {
                proof {
                    lemma_first_match(self@, by_tx_id(tx_id));
                    assert(by_tx_id(tx_id)(self@[i as int]));
                    assert(tx_pos(self@, tx_id) == i);
                }
                self.items[i].status = TransactionStatus::Confirmed;
                self.items[i].block_hash = Some(block_hash);
                proof {
                    assert(final(self)@ =~= old(self)@.update(
                        i as int,
                        TransactionView {
                            status: TransactionStatus::Confirmed,
                            block_hash: Some(block_hash@),
                            ..old(self)@[i as int]
                        },
                    ));
                }
                return Ok(());
            }
        }
        proof {
            lemma_first_match(self@, by_tx_id(tx_id));
        }
        Err(String::from_str("Transaction not found"))
    }
}

} // verus!
