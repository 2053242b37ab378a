//! The settlement saga: building a block from the pending transactions and
//! settling each against the accounts, compensating already applied steps
//! when a later one fails; and the chain queries.
//!
//! `build_block` takes the schedule of refused store calls as an input
//! (see `settlement`), so its contract covers every failure pattern.  It
//! is not safe to run two builds concurrently: both would observe the same
//! pending set and the same balances; the caller must serialize
//! invocations.

use vstd::prelude::*;
use vstd::string::*;
use crate::address_model::CoinWithAddress;
use crate::block_entity::{BlockEntity, BlockView};
use crate::block_error::APIBlockError;
use crate::block_repository::{
    by_hash, chain_break_reported, chain_linked, index_key, latest_pos, lemma_latest_pos,
    BlockRepository,
};
use crate::crypto_helper::{sha256_digest, sha256_of};
use crate::error::ApiError;
use crate::ordering::{
    first_match, lemma_first_match, lemma_insert_by_key_at_end, lemma_sort_by_key, sort_by_key,
};
use crate::settlement::{
    fault_at, lemma_settle_prefix_shape, lemma_tx_pos_stable, spec_settle,
    spec_settle_all, spec_settle_prefix, StepFaults,
};
use crate::text::{bytes_to_hex, dec_digits, hex_of_bytes, u64_to_dec};
use crate::transaction_entity::{TransactionEntity, TransactionView};
use crate::transaction_repository::{has_tx, pending_sorted, tx_pos};
use crate::transaction_usecase::TransactionUsecase;

verus! {

/// The decimal renderings of the ids, joined with commas.
pub open spec fn ids_joined(ids: Seq<u64>) -> Seq<char>
    decreases ids.len(),
{
    if ids.len() == 0 {
        Seq::empty()
    } else if ids.len() == 1 {
        dec_digits(ids[0] as nat)
    } else {
        ids_joined(ids.drop_last()) + ","@ + dec_digits(ids.last() as nat)
    }
}

/// The string a block's hash is computed over: the transaction ids, a
/// separator, and the previous block's hash.  The comma-separated decimal
/// ids and the hex previous hash make the encoding unambiguous.
pub open spec fn block_payload(ids: Seq<u64>, previous_hash: Seq<char>) -> Seq<char> {
    ids_joined(ids) + ";"@ + previous_hash
}

/// A block's hash: the lower-case hex rendering of the SHA-256 digest of
/// the payload.
pub open spec fn spec_block_hash(ids: Seq<u64>, previous_hash: Seq<char>) -> Seq<char> {
    hex_of_bytes(sha256_of(block_payload(ids, previous_hash)))
}

/// The ids of the pending transactions, oldest first.
pub open spec fn pending_ids(txs: Seq<TransactionView>) -> Seq<u64> {
    pending_sorted(txs).map_values(|t: TransactionView| t.id->0)
}

/// Every record of the sorted pending list is one of the stored records.
proof fn lemma_pending_views(txs0: Seq<TransactionView>)
    ensures
        forall|k: int|
            0 <= k < pending_sorted(txs0).len() ==> txs0.contains(
                #[trigger] pending_sorted(txs0)[k],
            ),
{
    broadcast use vstd::seq_lib::group_to_multiset_ensures;

    let f = txs0.filter(crate::transaction_repository::is_pending());
    lemma_sort_by_key(crate::transaction_repository::ts_key(), f);
    assert forall|k: int|
        0 <= k < pending_sorted(txs0).len() implies txs0.contains(
        #[trigger] pending_sorted(txs0)[k],
    ) by {
        let e = pending_sorted(txs0)[k];
        assert(pending_sorted(txs0).to_multiset().count(e) > 0);
        assert(f.to_multiset().count(e) > 0);
        txs0.lemma_filter_contains_rev(crate::transaction_repository::is_pending(), e);
    }
}

fn render_payload(ids: &Vec<u64>, previous_hash: &String) -> (r: String)
    ensures
        r@ == block_payload(ids@, previous_hash@),
{
    let mut s = String::new();
    let n = ids.len();
    for i in 0..n
        invariant
            n == ids@.len(),
            s@ == ids_joined(ids@.take(i as int)),
    {
        if i > 0 {
            s.append(",");
        }
        let d = u64_to_dec(ids[i]);
        s.append(d.as_str());
        proof {
            assert(ids@.take(i + 1).drop_last() =~= ids@.take(i as int));
            assert(ids@.take(i + 1).last() == ids@[i as int]);
            assert(s@ =~= ids_joined(ids@.take(i + 1)));
        }
    }
    s.append(";");
    s.append(previous_hash.as_str());
    proof {
        assert(ids@.take(n as int) =~= ids@);
        assert(s@ =~= block_payload(ids@, previous_hash@));
    }
    s
}

/// Block building and the chain queries, over the block store and the
/// transaction operations.
pub struct BlockUsecase {
    pub block_repo: BlockRepository,
    pub tx_usecase: TransactionUsecase,
}

impl BlockUsecase {
    /// The stores underneath are well formed.
    pub open spec fn wf(&self) -> bool {
        self.block_repo.wf() && self.tx_usecase.wf()
    }

    pub fn creation(block_repo: BlockRepository, tx_usecase: TransactionUsecase) -> (r: Self)
        ensures
            r.block_repo == block_repo,
            r.tx_usecase == tx_usecase,
    {
        Self { block_repo, tx_usecase }
    }

    /// Builds one block and settles its transactions.
    ///
    /// The block is computed from the latest stored block and the pending
    /// transactions, oldest first, and persisted before any settlement.
    /// Then each included transaction is settled in order: withdraw from
    /// the sender, deposit to the receiver, confirm; a failed step rejects
    /// that transaction and compensates what was already applied, and the
    /// build goes on.  `faults` is the schedule of refused store calls, one
    /// record per transaction; a refused call fails without effect.  A
    /// per-transaction failure never fails the build: the call returns the
    /// new block's id.
    #[verifier::rlimit(100)]
    pub fn build_block(&mut self, now: i64, faults: &Vec<StepFaults>) -> (r: Result<u64, ApiError>)
        requires
            old(self).wf(),
        ensures
            final(self).wf(),
            ({
                let blocks = old(self).block_repo@;
                let txs0 = old(self).tx_usecase.tx_repo@;
                let accs0 = old(self).tx_usecase.addr_usecase.address_repository@;
                let prev = if blocks.len() == 0 {
                    Seq::<char>::empty()
                } else {
                    blocks[latest_pos(blocks)].hash
                };
                let ids = pending_ids(txs0);
                let hash = spec_block_hash(ids, prev);
                match r {
                    Ok(id) => {
                        let index: u64 = if blocks.len() == 0 {
                            1u64
                        } else {
                            (blocks[latest_pos(blocks)].index + 1) as u64
                        };
                        let settled = spec_settle_all(accs0, txs0, ids, hash, faults@, now);
                        &&& blocks.len() > 0 ==> blocks[latest_pos(blocks)].index < u64::MAX
                        &&& id == old(self).block_repo.spec_next_id()
                        &&& final(self).block_repo@ == blocks.push(
                            BlockView {
                                id: Some(id),
                                index,
                                timestamp: now,
                                transactions: ids,
                                previous_hash: prev,
                                hash,
                                nonce: 0,
                            },
                        )
                        &&& final(self).tx_usecase.addr_usecase.address_repository@ == settled.0
                        &&& final(self).tx_usecase.tx_repo@ == settled.1
                    },
                    Err(ApiError::Block(APIBlockError::InsertBlockError(_))) => {
                        &&& (blocks.len() > 0 && blocks[latest_pos(blocks)].index == u64::MAX)
                            || old(self).block_repo.spec_next_id() == u64::MAX
                        &&& final(self).block_repo@ == blocks
                        &&& final(self).block_repo.spec_next_id() == old(
                            self,
                        ).block_repo.spec_next_id()
                        &&& final(self).tx_usecase.addr_usecase.address_repository@ == accs0
                        &&& final(self).tx_usecase.tx_repo@ == txs0
                    },
                    Err(_) => false,
                }
            }),
    {
        let ghost blocks0 = self.block_repo@;
        let ghost txs0 = self.tx_usecase.tx_repo@;
        let ghost accs0 = self.tx_usecase.addr_usecase.address_repository@;

        let latest_block = match self.block_repo.find_latest() {
            Ok(b) => b,
            Err(e) => {
                return Err(ApiError::Block(APIBlockError::FindBlockError(e)));
            },
        };
        let previous_hash: String;
        let index: u64;
        match latest_block {
            Some(b) => {
                if b.index == u64::MAX {
                    return Err(ApiError::Block(APIBlockError::InsertBlockError(
                        String::from_str("block index overflow"),
                    )));
                }
                index = b.index + 1;
                previous_hash = b.hash;
            },
            None => {
                index = 1;
                previous_hash = String::new();
            },
        }
        let ghost prev = previous_hash@;

        let txs = match self.tx_usecase.get_all_pending() {
            Ok(t) => t,
            Err(e) => {
                return Err(e);
            },
        };
        let ghost pend = pending_sorted(txs0);
        let ghost ids = pending_ids(txs0);
        proof {
            lemma_pending_views(txs0);
            assert forall|k: int| 0 <= k < pend.len() implies (#[trigger] pend[k]).id is Some
                && has_tx(txs0, pend[k].id->0) by {
                assert(txs0.contains(pend[k]));
                let j = choose|j: int| 0 <= j < txs0.len() && txs0[j] == pend[k];
                assert(txs0[j].id is Some);
                lemma_first_match(
                    txs0,
                    crate::transaction_repository::by_tx_id(pend[k].id->0),
                );
                if tx_pos(txs0, pend[k].id->0) < 0 {
                    assert(!crate::transaction_repository::by_tx_id(pend[k].id->0)(txs0[j]));
                }
            }
        }

        let mut tx_ids: Vec<u64> = Vec::new();
        let n = txs.len();
        for i in 0..n
            invariant
                n == txs@.len(),
                txs@.map_values(|t: TransactionEntity| t@) == pend,
                pend.len() == n,
                forall|k: int| 0 <= k < pend.len() ==> (#[trigger] pend[k]).id is Some,
                ids == pend.map_values(|t: TransactionView| t.id->0),
                tx_ids@.len() == i,
                forall|k: int| 0 <= k < i ==> tx_ids@[k] == ids[k],
        {
            proof {
                assert(txs@[i as int]@ == pend[i as int]);
            }
            let id = match txs[i].id {
                Some(x) => x,
                None => {
                    proof {
                        assert(false);
                    }
                    0
                },
            };
            tx_ids.push(id);
        }
        proof {
            assert(tx_ids@ =~= ids);
        }

        let payload = render_payload(&tx_ids, &previous_hash);
        let digest = sha256_digest(payload.as_str());
        let hash = bytes_to_hex(&digest);
        proof {
            assert(hash@ == spec_block_hash(ids, prev));
        }

        let block = BlockEntity::new(index, tx_ids, previous_hash, hash.clone(), 0, now);
        let inserted_id = match self.block_repo.insert(block) {
            Ok(id) => id,
            Err(e) => {
                return Err(ApiError::Block(APIBlockError::InsertBlockError(e)));
            },
        };
        let ghost blocks1 = self.block_repo@;

        let m = txs.len();
        for i in 0..m
            invariant
                m == txs@.len(),
                txs@.map_values(|t: TransactionEntity| t@) == pend,
                pend.len() == m,
                pend == pending_sorted(txs0),
                ids == pending_ids(txs0),
                ids == pend.map_values(|t: TransactionView| t.id->0),
                ids.len() == m,
                forall|k: int| 0 <= k < pend.len() ==> (#[trigger] pend[k]).id is Some,
                forall|k: int| 0 <= k < pend.len() ==> has_tx(txs0, (#[trigger] pend[k]).id->0),
                hash@ == spec_block_hash(ids, prev),
                self.block_repo@ == blocks1,
                self.block_repo.spec_next_id() == old(self).block_repo.spec_next_id() + 1,
                self.block_repo.wf(),
                self.tx_usecase.wf(),
                txs0.len() == old(self).tx_usecase.tx_repo@.len(),
                self.tx_usecase.addr_usecase.address_repository@ == spec_settle_prefix(
                    accs0,
                    txs0,
                    ids,
                    hash@,
                    faults@,
                    now,
                    i as int,
                ).0,
                self.tx_usecase.tx_repo@ == spec_settle_prefix(
                    accs0,
                    txs0,
                    ids,
                    hash@,
                    faults@,
                    now,
                    i as int,
                ).1,
        {
            let ghost pre = spec_settle_prefix(accs0, txs0, ids, hash@, faults@, now, i as int);
            proof {
                lemma_settle_prefix_shape(accs0, txs0, ids, hash@, faults@, now, i as int);
                assert(txs@[i as int]@ == pend[i as int]);
                lemma_tx_pos_stable(txs0, pre.1, pend[i as int].id->0);
            }
            let tx_id = match txs[i].id {
                Some(x) => x,
                None => {
                    proof {
                        assert(false);
                    }
                    0
                },
            };
            let ghost k = tx_pos(pre.1, tx_id);
            let tx = match self.tx_usecase.get_by_id(tx_id) {
                Ok(t) => t,
                Err(e) => {
                    return Err(e);
                },
            };
            let fault = if i < faults.len() {
                faults[i]
            } else {
                StepFaults::none()
            };
            proof {
                assert(fault == fault_at(faults@, i as int));
                assert(tx@ == pre.1[k]);
            }

            // withdraw from the sender; on failure, reject and move on
            let withdraw_ok: bool = if fault.withdraw {
                false
            } else {
                match self.tx_usecase.addr_usecase.withdraw_coin(
                    CoinWithAddress { public_key: tx.from.clone(), amount: tx.amount },
                    now,
                ) {
                    Ok(()) => true,
                    Err(_) => false,
                }
            };
            if !withdraw_ok {
                if !fault.reject {
                    let _ = self.tx_usecase.reject_transaction(tx_id);
                }
            } else {
                // deposit to the receiver; on failure, give the sender the
                // amount back, reject, and move on
                let deposit_ok: bool = if fault.deposit {
                    false
                } else {
                    match self.tx_usecase.addr_usecase.deposit_coin(
                        CoinWithAddress { public_key: tx.to.clone(), amount: tx.amount },
                        now,
                    ) {
                        Ok(()) => true,
                        Err(_) => false,
                    }
                };
                if !deposit_ok {
                    if !fault.refund_sender {
                        let _ = self.tx_usecase.addr_usecase.deposit_coin(
                            CoinWithAddress { public_key: tx.from.clone(), amount: tx.amount },
                            now,
                        );
                    }
                    if !fault.reject {
                        let _ = self.tx_usecase.reject_transaction(tx_id);
                    }
                } else {
                    // confirm; on failure, reject and undo both ledger steps
                    let confirm_ok: bool = if fault.confirm {
                        false
                    } else {
                        match self.tx_usecase.confirm_transaction(tx_id, hash.clone()) {
                            Ok(()) => true,
                            Err(_) => false,
                        }
                    };
                    if !confirm_ok {
                        if !fault.reject {
                            let _ = self.tx_usecase.reject_transaction(tx_id);
                        }
                        if !fault.undo_receiver {
                            let _ = self.tx_usecase.addr_usecase.withdraw_coin(
                                CoinWithAddress {
                                    public_key: tx.to.clone(),
                                    amount: tx.amount,
                                },
                                now,
                            );
                        }
                        if !fault.refund_sender {
                            let _ = self.tx_usecase.addr_usecase.deposit_coin(
                                CoinWithAddress {
                                    public_key: tx.from.clone(),
                                    amount: tx.amount,
                                },
                                now,
                            );
                        }
                    }
                }
            }
            proof {
                assert(self.tx_usecase.addr_usecase.address_repository@ == spec_settle(
                    pre.0,
                    pre.1,
                    pre.1[k],
                    tx_id,
                    hash@,
                    fault,
                    now,
                ).0);
                assert(self.tx_usecase.tx_repo@ == spec_settle(
                    pre.0,
                    pre.1,
                    pre.1[k],
                    tx_id,
                    hash@,
                    fault,
                    now,
                ).1);
            }
        }

        Ok(inserted_id)
    }

    /// Fetches a block by its hash; fails with `NotFound` when no block
    /// carries it.
    pub fn get_block_by_hash(&self, hash: String) -> (r: Result<BlockEntity, ApiError>)
        ensures
            match r {
                Ok(b) => {
                    let k = first_match(self.block_repo@, by_hash(hash@));
                    k >= 0 && b@ == self.block_repo@[k]
                },
                Err(ApiError::Block(APIBlockError::NotFound(h))) => first_match(
                    self.block_repo@,
                    by_hash(hash@),
                ) < 0 && h@ == hash@,
                Err(_) => false,
            },
    {
        match self.block_repo.find_by_hash(hash.clone()) {
            Ok(Some(block)) => Ok(block),
            Ok(None) => Err(ApiError::Block(APIBlockError::NotFound(hash))),
            Err(e) => Err(ApiError::Block(APIBlockError::FindBlockError(e))),
        }
    }

    /// Fetches the block with the highest index; fails with `NotFound`
    /// when no block exists yet.
    pub fn get_latest_block(&self) -> (r: Result<BlockEntity, ApiError>)
        ensures
            match r {
                Ok(b) => self.block_repo@.len() > 0 && b@ == self.block_repo@[latest_pos(
                    self.block_repo@,
                )],
                Err(ApiError::Block(APIBlockError::NotFound(m))) => self.block_repo@.len() == 0
                    && m@ == "block latest"@,
                Err(_) => false,
            },
    {
        match self.block_repo.find_latest() {
            Ok(Some(block)) => Ok(block),
            Ok(None) => Err(ApiError::Block(APIBlockError::NotFound(String::from_str(
                "block latest",
            )))),
            Err(e) => Err(ApiError::Block(APIBlockError::FindBlockError(e))),
        }
    }

    /// Checks the hash linkage of the stored chain; fails with
    /// `InvalidChain`, naming the first broken index, when a block does
    /// not name its predecessor's hash.
    pub fn verify_chain(&self) -> (r: Result<(), ApiError>)
        ensures
            r is Ok ==> chain_linked(sort_by_key(index_key(), self.block_repo@)),
            match r {
                Ok(()) => true,
                Err(ApiError::Block(APIBlockError::InvalidChain(m))) => chain_break_reported(
                    self.block_repo@,
                    m@,
                ),
                Err(_) => false,
            },
    {
        match self.block_repo.is_chain_valid() {
            Ok(()) => Ok(()),
            Err(e) => Err(ApiError::Block(APIBlockError::InvalidChain(e))),
        }
    }
}

/// All block indices differ.
pub open spec fn distinct_indices(s: Seq<BlockView>) -> bool {
    forall|i: int, j: int| 0 <= i < j < s.len() ==> (#[trigger] s[i]).index != (#[trigger] s[j]).index
}

/// **Chain linkage is preserved by block building.**  Appending a block
/// whose index exceeds every stored index and whose previous hash is the
/// latest block's hash keeps the index-ordered chain linked; the first
/// block starts a linked chain whatever its previous hash.
pub proof fn lemma_chain_growth(blocks: Seq<BlockView>, b: BlockView)
    requires
        chain_linked(sort_by_key(index_key(), blocks)),
        distinct_indices(blocks),
        blocks.len() > 0 ==> {
            &&& b.previous_hash == blocks[latest_pos(blocks)].hash
            &&& b.index > blocks[latest_pos(blocks)].index
        },
    ensures
        chain_linked(sort_by_key(index_key(), blocks.push(b))),
        distinct_indices(blocks.push(b)),
        sort_by_key(index_key(), blocks.push(b)) == sort_by_key(index_key(), blocks).push(b),
{
    broadcast use vstd::seq_lib::group_to_multiset_ensures;

    let sorted = sort_by_key(index_key(), blocks);
    lemma_sort_by_key(index_key(), blocks);
    lemma_latest_pos(blocks);
    // every sorted element is a stored block, so its index is at most the
    // latest index, which is below b.index
    assert forall|p: int| 0 <= p < sorted.len() implies index_key()(#[trigger] sorted[p])
        <= index_key()(b) by {
        assert(sorted.to_multiset().count(sorted[p]) > 0);
        assert(blocks.to_multiset().count(sorted[p]) > 0);
        let j = choose|j: int| 0 <= j < blocks.len() && blocks[j] == sorted[p];
        assert(blocks[j].index <= blocks[latest_pos(blocks)].index);
    }
    lemma_insert_by_key_at_end(index_key(), b, sorted);
    assert(blocks.push(b).drop_last() =~= blocks);
    assert(blocks.push(b).last() == b);
    assert(sort_by_key(index_key(), blocks.push(b)) == sorted.push(b));
    if blocks.len() > 0 {
        // the last sorted element is the unique block with the maximal
        // index: the latest block
        let last = sorted[sorted.len() - 1];
        assert(sorted.to_multiset().count(last) > 0);
        assert(blocks.to_multiset().count(last) > 0);
        let j = choose|j: int| 0 <= j < blocks.len() && blocks[j] == last;
        assert(blocks[j].index <= blocks[latest_pos(blocks)].index);
        assert(sorted.to_multiset().count(blocks[latest_pos(blocks)]) > 0) by {
            assert(blocks.to_multiset().count(blocks[latest_pos(blocks)]) > 0);
        }
        let q = choose|q: int| 0 <= q < sorted.len() && sorted[q] == blocks[latest_pos(blocks)];
        assert(index_key()(sorted[q]) <= index_key()(sorted[sorted.len() - 1]));
        assert(blocks[latest_pos(blocks)].index <= last.index);
        assert(last.index == blocks[latest_pos(blocks)].index);
        if j != latest_pos(blocks) {
            assert(blocks[j].index != blocks[latest_pos(blocks)].index);
        }
        assert(last == blocks[latest_pos(blocks)]);
        assert forall|i: int|
            1 <= i < sorted.push(b).len() implies (#[trigger] sorted.push(b)[i]).previous_hash
            == sorted.push(b)[i - 1].hash by {
            if i < sorted.len() {
                assert(sorted[i].previous_hash == sorted[i - 1].hash);
            }
        }
    } else {
        assert(sorted.len() == 0);
    }
    assert forall|i: int, j: int|
        0 <= i < j < blocks.push(b).len() implies (#[trigger] blocks.push(b)[i]).index != (
        #[trigger] blocks.push(b)[j]).index by {
        if j < blocks.len() {
            assert(blocks[i].index != blocks[j].index);
        } else {
            lemma_latest_pos(blocks);
            assert(blocks.push(b)[i] == blocks[i]);
            assert(blocks[i].index <= blocks[latest_pos(blocks)].index);
        }
    }
}

} // verus!
