//! The settlement of one transaction, as an explicit model.
//!
//! Settlement runs against remote stores, and any step's call can fail.
//! The model therefore takes, beside the ledger and the transaction, a
//! record of which step calls the store refuses; the saga is verified
//! against this model for every such schedule, so every compensation path
//! is covered, including those the in-memory stores alone would never take.
//!
//! The steps and their compensations, in order: withdraw from the sender;
//! deposit to the receiver, on failure deposit the amount back to the
//! sender; confirm the transaction, on failure reject it, withdraw the
//! amount back from the receiver and deposit it back to the sender.
//! Compensations are best-effort: their own failure changes nothing and is
//! not propagated.

use vstd::prelude::*;
use crate::address_entity::AddressView;
use crate::address_repository::{acct_balance, acct_pos};
use crate::ordering::{lemma_first_match, lemma_first_match_pointwise};
use crate::transaction_entity::{TransactionStatus, TransactionView};
use crate::transaction_repository::{by_tx_id, has_tx, tx_pos};

verus! {

/// Which of one transaction's settlement step calls the remote store
/// refuses.  A refused call fails without effect.
#[derive(Clone, Copy, Debug, PartialEq, Eq, Structural)]
pub struct StepFaults {
    pub withdraw: bool,
    pub deposit: bool,
    pub confirm: bool,
    pub reject: bool,
    pub refund_sender: bool,
    pub undo_receiver: bool,
}

/// No step call refused.
pub open spec fn no_faults() -> StepFaults {
    StepFaults {
        withdraw: false,
        deposit: false,
        confirm: false,
        reject: false,
        refund_sender: false,
        undo_receiver: false,
    }
}

impl StepFaults {
    /// A schedule that refuses nothing.
    pub fn none() -> (r: Self)
        ensures
            r == no_faults(),
    {
        Self {
            withdraw: false,
            deposit: false,
            confirm: false,
            reject: false,
            refund_sender: false,
            undo_receiver: false,
        }
    }
}

/// The fault record for the `i`-th settled transaction; past the end of the
/// schedule, nothing is refused.
pub open spec fn fault_at(faults: Seq<StepFaults>, i: int) -> StepFaults {
    if 0 <= i < faults.len() {
        faults[i]
    } else {
        no_faults()
    }
}

/// The ledger after depositing `amount` into the account with the given
/// key, or `None` when the account is missing or its balance would not
/// fit.  Mirrors the account store's deposit.
pub open spec fn spec_deposit(
    accs: Seq<AddressView>,
    key: Seq<char>,
    amount: u64,
    now: i64,
) -> Option<Seq<AddressView>> {
    let k = acct_pos(accs, key);
    if k < 0 {
        None
    } else if accs[k].balance + amount > u64::MAX {
        None
    } else {
        Some(
            accs.update(
                k,
                AddressView {
                    balance: (accs[k].balance + amount) as u64,
                    updated_at: now,
                    ..accs[k]
                },
            ),
        )
    }
}

/// The ledger after the conditional decrement of `amount` from the account
/// with the given key, or `None` when the account is missing or holds less
/// than `amount`.  Mirrors the account store's withdraw.
pub open spec fn spec_withdraw(
    accs: Seq<AddressView>,
    key: Seq<char>,
    amount: u64,
    now: i64,
) -> Option<Seq<AddressView>> {
    let k = acct_pos(accs, key);
    if k < 0 {
        None
    } else if accs[k].balance < amount {
        None
    } else {
        Some(
            accs.update(
                k,
                AddressView {
                    balance: (accs[k].balance - amount) as u64,
                    updated_at: now,
                    ..accs[k]
                },
            ),
        )
    }
}

/// The transactions after setting the status of the one with the given id,
/// or `None` when no transaction has that id.
pub open spec fn spec_set_status(
    txs: Seq<TransactionView>,
    id: u64,
    status: TransactionStatus,
) -> Option<Seq<TransactionView>> {
    let k = tx_pos(txs, id);
    if k < 0 {
        None
    } else {
        Some(txs.update(k, TransactionView { status, ..txs[k] }))
    }
}

/// The transactions after confirming the one with the given id under the
/// given block hash, or `None` when no transaction has that id.
pub open spec fn spec_confirm(
    txs: Seq<TransactionView>,
    id: u64,
    block_hash: Seq<char>,
) -> Option<Seq<TransactionView>> {
    let k = tx_pos(txs, id);
    if k < 0 {
        None
    } else {
        Some(
            txs.update(
                k,
                TransactionView {
                    status: TransactionStatus::Confirmed,
                    block_hash: Some(block_hash),
                    ..txs[k]
                },
            ),
        )
    }
}

/// A best-effort rejection: a refused or failed call changes nothing.
pub open spec fn spec_reject_best_effort(
    txs: Seq<TransactionView>,
    id: u64,
    fault: bool,
) -> Seq<TransactionView> {
    if fault {
        txs
    } else {
        match spec_set_status(txs, id, TransactionStatus::Rejected) {
            Some(t) => t,
            None => txs,
        }
    }
}

/// A best-effort ledger step: a refused or failed call changes nothing.
pub open spec fn spec_ledger_best_effort(
    attempted: Option<Seq<AddressView>>,
    fault: bool,
    fallback: Seq<AddressView>,
) -> Seq<AddressView> {
    if fault {
        fallback
    } else {
        match attempted {
            Some(a) => a,
            None => fallback,
        }
    }
}

/// The settlement of one fetched transaction `tx` with id `tx_id` against
/// ledger `accs` and transactions `txs`, under fault record `f`: the
/// ledger and the transactions afterwards.
pub open spec fn spec_settle(
    accs: Seq<AddressView>,
    txs: Seq<TransactionView>,
    tx: TransactionView,
    tx_id: u64,
    block_hash: Seq<char>,
    f: StepFaults,
    now: i64,
) -> (Seq<AddressView>, Seq<TransactionView>) {
    let w = if f.withdraw {
        None
    } else {
        spec_withdraw(accs, tx.from, tx.amount, now)
    };
    match w {
        None => (accs, spec_reject_best_effort(txs, tx_id, f.reject)),
        Some(accs1) => {
            let d = if f.deposit {
                None
            } else {
                spec_deposit(accs1, tx.to, tx.amount, now)
            };
            match d {
                None => {
                    let accs2 = spec_ledger_best_effort(
                        spec_deposit(accs1, tx.from, tx.amount, now),
                        f.refund_sender,
                        accs1,
                    );
                    (accs2, spec_reject_best_effort(txs, tx_id, f.reject))
                },
                Some(accs2) => {
                    let c = if f.confirm {
                        None
                    } else {
                        spec_confirm(txs, tx_id, block_hash)
                    };
                    match c {
                        Some(txs1) => (accs2, txs1),
                        None => {
                            let txs1 = spec_reject_best_effort(txs, tx_id, f.reject);
                            let accs3 = spec_ledger_best_effort(
                                spec_withdraw(accs2, tx.to, tx.amount, now),
                                f.undo_receiver,
                                accs2,
                            );
                            let accs4 = spec_ledger_best_effort(
                                spec_deposit(accs3, tx.from, tx.amount, now),
                                f.refund_sender,
                                accs3,
                            );
                            (accs4, txs1)
                        },
                    }
                },
            }
        },
    }
}

/// The state after settling the first `i` of the collected ids, each
/// refetched from the then-current transactions.
pub open spec fn spec_settle_prefix(
    accs: Seq<AddressView>,
    txs: Seq<TransactionView>,
    ids: Seq<u64>,
    block_hash: Seq<char>,
    faults: Seq<StepFaults>,
    now: i64,
    i: int,
) -> (Seq<AddressView>, Seq<TransactionView>)
    decreases i,
{
    if i <= 0 || i > ids.len() {
        (accs, txs)
    } else {
        let prev = spec_settle_prefix(accs, txs, ids, block_hash, faults, now, i - 1);
        let k = tx_pos(prev.1, ids[i - 1]);
        if k < 0 {
            prev
        } else {
            spec_settle(
                prev.0,
                prev.1,
                prev.1[k],
                ids[i - 1],
                block_hash,
                fault_at(faults, i - 1),
                now,
            )
        }
    }
}

/// The state after settling every collected id in order.
pub open spec fn spec_settle_all(
    accs: Seq<AddressView>,
    txs: Seq<TransactionView>,
    ids: Seq<u64>,
    block_hash: Seq<char>,
    faults: Seq<StepFaults>,
    now: i64,
) -> (Seq<AddressView>, Seq<TransactionView>) {
    spec_settle_prefix(accs, txs, ids, block_hash, faults, now, ids.len() as int)
}

// ---------------------------------------------------------------------
// Shape preservation: settlement rewrites records in place, so lengths,
// account keys and transaction ids never change.

/// Both ledger operations only update one record, keeping its key.
pub open spec fn spec_deposit_or_withdraw_shape(
    before: Seq<AddressView>,
    after: Seq<AddressView>,
) -> bool {
    after.len() == before.len() && forall|p: int|
        0 <= p < before.len() ==> (#[trigger] after[p]).public_key == before[p].public_key
}

/// The transactions after a status change or a best-effort rejection keep
/// their ids.
pub open spec fn same_tx_ids(before: Seq<TransactionView>, after: Seq<TransactionView>) -> bool {
    after.len() == before.len() && forall|p: int|
        0 <= p < before.len() ==> (#[trigger] after[p]).id == before[p].id
}

proof fn lemma_reject_shape(txs: Seq<TransactionView>, id: u64, fault: bool)
    ensures
        same_tx_ids(txs, spec_reject_best_effort(txs, id, fault)),
{
    lemma_first_match(txs, by_tx_id(id));
}

proof fn lemma_confirm_shape(txs: Seq<TransactionView>, id: u64, block_hash: Seq<char>)
    ensures
        match spec_confirm(txs, id, block_hash) {
            Some(t) => same_tx_ids(txs, t),
            None => true,
        },
{
    lemma_first_match(txs, by_tx_id(id));
}

proof fn lemma_withdraw_shape(accs: Seq<AddressView>, key: Seq<char>, amount: u64, now: i64)
    ensures
        match spec_withdraw(accs, key, amount, now) {
            Some(a) => spec_deposit_or_withdraw_shape(accs, a),
            None => true,
        },
{
    lemma_first_match(accs, crate::address_repository::by_key(key));
}

proof fn lemma_deposit_shape(accs: Seq<AddressView>, key: Seq<char>, amount: u64, now: i64)
    ensures
        match spec_deposit(accs, key, amount, now) {
            Some(a) => spec_deposit_or_withdraw_shape(accs, a),
            None => true,
        },
{
    lemma_first_match(accs, crate::address_repository::by_key(key));
}

proof fn lemma_shape_trans(a: Seq<AddressView>, b: Seq<AddressView>, c: Seq<AddressView>)
    requires
        spec_deposit_or_withdraw_shape(a, b),
        spec_deposit_or_withdraw_shape(b, c),
    ensures
        spec_deposit_or_withdraw_shape(a, c),
{
    assert forall|p: int|
        0 <= p < a.len() implies (#[trigger] c[p]).public_key == a[p].public_key by {
        assert(b[p].public_key == a[p].public_key);
    }
}

proof fn lemma_best_effort_shape(
    attempted: Option<Seq<AddressView>>,
    fault: bool,
    fallback: Seq<AddressView>,
)
    requires
        match attempted {
            Some(a) => spec_deposit_or_withdraw_shape(fallback, a),
            None => true,
        },
    ensures
        spec_deposit_or_withdraw_shape(
            fallback,
            spec_ledger_best_effort(attempted, fault, fallback),
        ),
{
}

/// After any settlement the ledger holds the same accounts, in the same
/// order, and the transactions the same ids.
pub proof fn lemma_settle_shape(
    accs: Seq<AddressView>,
    txs: Seq<TransactionView>,
    tx: TransactionView,
    tx_id: u64,
    block_hash: Seq<char>,
    f: StepFaults,
    now: i64,
)
    ensures
        ({
            let r = spec_settle(accs, txs, tx, tx_id, block_hash, f, now);
            &&& spec_deposit_or_withdraw_shape(accs, r.0)
            &&& same_tx_ids(txs, r.1)
        }),
{
    lemma_withdraw_shape(accs, tx.from, tx.amount, now);
    let w = if f.withdraw {
        None
    } else {
        spec_withdraw(accs, tx.from, tx.amount, now)
    };
    match w {
        None => {
            lemma_reject_shape(txs, tx_id, f.reject);
        },
        Some(accs1) => {
            lemma_deposit_shape(accs1, tx.to, tx.amount, now);
            let d = if f.deposit {
                None
            } else {
                spec_deposit(accs1, tx.to, tx.amount, now)
            };
            match d {
                None => {
                    lemma_deposit_shape(accs1, tx.from, tx.amount, now);
                    lemma_best_effort_shape(
                        spec_deposit(accs1, tx.from, tx.amount, now),
                        f.refund_sender,
                        accs1,
                    );
                    let accs2 = spec_ledger_best_effort(
                        spec_deposit(accs1, tx.from, tx.amount, now),
                        f.refund_sender,
                        accs1,
                    );
                    lemma_shape_trans(accs, accs1, accs2);
                    lemma_reject_shape(txs, tx_id, f.reject);
                },
                Some(accs2) => {
                    lemma_shape_trans(accs, accs1, accs2);
                    lemma_confirm_shape(txs, tx_id, block_hash);
                    let c = if f.confirm {
                        None
                    } else {
                        spec_confirm(txs, tx_id, block_hash)
                    };
                    match c {
                        Some(txs1) => {},
                        None => {
                            lemma_reject_shape(txs, tx_id, f.reject);
                            lemma_withdraw_shape(accs2, tx.to, tx.amount, now);
                            let accs3 = spec_ledger_best_effort(
                                spec_withdraw(accs2, tx.to, tx.amount, now),
                                f.undo_receiver,
                                accs2,
                            );
                            lemma_best_effort_shape(
                                spec_withdraw(accs2, tx.to, tx.amount, now),
                                f.undo_receiver,
                                accs2,
                            );
                            lemma_shape_trans(accs, accs2, accs3);
                            lemma_deposit_shape(accs3, tx.from, tx.amount, now);
                            let accs4 = spec_ledger_best_effort(
                                spec_deposit(accs3, tx.from, tx.amount, now),
                                f.refund_sender,
                                accs3,
                            );
                            lemma_best_effort_shape(
                                spec_deposit(accs3, tx.from, tx.amount, now),
                                f.refund_sender,
                                accs3,
                            );
                            lemma_shape_trans(accs, accs3, accs4);
                        },
                    }
                },
            }
        },
    }
}

/// Every account keeps its position under settlement: the first match of
/// any key is unchanged.
pub proof fn lemma_pos_stable(before: Seq<AddressView>, after: Seq<AddressView>, key: Seq<char>)
    requires
        spec_deposit_or_withdraw_shape(before, after),
    ensures
        acct_pos(after, key) == acct_pos(before, key),
{
    lemma_first_match_pointwise(
        after,
        before,
        crate::address_repository::by_key(key),
        crate::address_repository::by_key(key),
    );
}

/// Every transaction keeps its position under an in-place status update:
/// the first match of any id is unchanged.
pub proof fn lemma_tx_pos_stable(
    before: Seq<TransactionView>,
    after: Seq<TransactionView>,
    id: u64,
)
    requires
        after.len() == before.len(),
        forall|p: int| 0 <= p < before.len() ==> (#[trigger] after[p]).id == before[p].id,
    ensures
        tx_pos(after, id) == tx_pos(before, id),
{
    lemma_first_match_pointwise(after, before, by_tx_id(id), by_tx_id(id));
}

/// The settled prefix keeps the ledger's accounts and the transactions'
/// ids, whatever the schedule.
pub proof fn lemma_settle_prefix_shape(
    accs: Seq<AddressView>,
    txs: Seq<TransactionView>,
    ids: Seq<u64>,
    block_hash: Seq<char>,
    faults: Seq<StepFaults>,
    now: i64,
    i: int,
)
    ensures
        ({
            let r = spec_settle_prefix(accs, txs, ids, block_hash, faults, now, i);
            &&& spec_deposit_or_withdraw_shape(accs, r.0)
            &&& same_tx_ids(txs, r.1)
        }),
    decreases i,
{
    if i <= 0 || i > ids.len() {
    } else {
        lemma_settle_prefix_shape(accs, txs, ids, block_hash, faults, now, i - 1);
        let prev = spec_settle_prefix(accs, txs, ids, block_hash, faults, now, i - 1);
        let k = tx_pos(prev.1, ids[i - 1]);
        if k >= 0 {
            lemma_settle_shape(
                prev.0,
                prev.1,
                prev.1[k],
                ids[i - 1],
                block_hash,
                fault_at(faults, i - 1),
                now,
            );
        }
    }
}

/// One step of the settled prefix: when the id is still stored, the next
/// prefix state is the settlement of the refetched transaction against
/// the current state.  Together with `build_block`'s contract this lets
/// the per-step guarantees below speak of every transaction of a build,
/// each at its own pre-settlement state.
pub proof fn lemma_settle_prefix_unfold(
    accs: Seq<AddressView>,
    txs: Seq<TransactionView>,
    ids: Seq<u64>,
    block_hash: Seq<char>,
    faults: Seq<StepFaults>,
    now: i64,
    i: int,
)
    requires
        0 <= i < ids.len(),
        has_tx(spec_settle_prefix(accs, txs, ids, block_hash, faults, now, i).1, ids[i]),
    ensures
        ({
            let pre = spec_settle_prefix(accs, txs, ids, block_hash, faults, now, i);
            let k = tx_pos(pre.1, ids[i]);
            spec_settle_prefix(accs, txs, ids, block_hash, faults, now, i + 1) == spec_settle(
                pre.0,
                pre.1,
                pre.1[k],
                ids[i],
                block_hash,
                fault_at(faults, i),
                now,
            )
        }),
{
}

// ---------------------------------------------------------------------
// The settlement guarantees.

/// **No settlement on withdraw failure.**  When the withdraw step fails or
/// its call is refused, no account is touched: the ledger, and in
/// particular the receiver's balance, stays exactly what it was; only the
/// best-effort rejection of the transaction happens.
pub proof fn lemma_withdraw_failure_touches_nothing(
    accs: Seq<AddressView>,
    txs: Seq<TransactionView>,
    tx: TransactionView,
    tx_id: u64,
    block_hash: Seq<char>,
    f: StepFaults,
    now: i64,
)
    requires
        f.withdraw || spec_withdraw(accs, tx.from, tx.amount, now) is None,
    ensures
        spec_settle(accs, txs, tx, tx_id, block_hash, f, now).0 == accs,
        spec_settle(accs, txs, tx, tx_id, block_hash, f, now).1 == spec_reject_best_effort(
            txs,
            tx_id,
            f.reject,
        ),
{
}

/// **Settlement atomicity by compensation.**  When the withdraw step
/// succeeds but the deposit step fails, and neither the compensating
/// deposit nor the rejection is refused, the sender's balance returns to
/// its pre-settlement value, every other account is untouched, and the
/// transaction ends `Rejected`.
pub proof fn lemma_deposit_failure_compensated(
    accs: Seq<AddressView>,
    txs: Seq<TransactionView>,
    tx: TransactionView,
    tx_id: u64,
    block_hash: Seq<char>,
    f: StepFaults,
    now: i64,
)
    requires
        !f.withdraw,
        !f.refund_sender,
        !f.reject,
        spec_withdraw(accs, tx.from, tx.amount, now) is Some,
        f.deposit || spec_deposit(
            spec_withdraw(accs, tx.from, tx.amount, now)->Some_0,
            tx.to,
            tx.amount,
            now,
        ) is None,
        has_tx(txs, tx_id),
    ensures
        ({
            let r = spec_settle(accs, txs, tx, tx_id, block_hash, f, now);
            let k = acct_pos(accs, tx.from);
            &&& r.0 == accs.update(k, AddressView { updated_at: now, ..accs[k] })
            &&& acct_balance(r.0, tx.from) == acct_balance(accs, tx.from)
            &&& r.1 == spec_set_status(txs, tx_id, TransactionStatus::Rejected)->Some_0
            &&& r.1[tx_pos(txs, tx_id)].status == TransactionStatus::Rejected
        }),
{
    let k = acct_pos(accs, tx.from);
    lemma_first_match(accs, crate::address_repository::by_key(tx.from));
    let accs1 = spec_withdraw(accs, tx.from, tx.amount, now)->Some_0;
    lemma_withdraw_shape(accs, tx.from, tx.amount, now);
    lemma_pos_stable(accs, accs1, tx.from);
    assert(accs1[k].balance + tx.amount <= u64::MAX);
    let accs2 = spec_deposit(accs1, tx.from, tx.amount, now)->Some_0;
    assert(accs2 =~= accs.update(k, AddressView { updated_at: now, ..accs[k] }));
    lemma_deposit_shape(accs1, tx.from, tx.amount, now);
    lemma_pos_stable(accs, accs2, tx.from);
    lemma_first_match(txs, by_tx_id(tx_id));
}

/// **Confirm-failure full rollback.**  When withdraw and deposit both
/// succeed but the confirm call is refused, and none of the compensations
/// is refused, both the sender's and the receiver's balances return to
/// their pre-settlement values and the transaction ends `Rejected`.
pub proof fn lemma_confirm_failure_rolled_back(
    accs: Seq<AddressView>,
    txs: Seq<TransactionView>,
    tx: TransactionView,
    tx_id: u64,
    block_hash: Seq<char>,
    f: StepFaults,
    now: i64,
)
    requires
        !f.withdraw,
        !f.deposit,
        f.confirm,
        !f.reject,
        !f.undo_receiver,
        !f.refund_sender,
        spec_withdraw(accs, tx.from, tx.amount, now) is Some,
        spec_deposit(
            spec_withdraw(accs, tx.from, tx.amount, now)->Some_0,
            tx.to,
            tx.amount,
            now,
        ) is Some,
        has_tx(txs, tx_id),
    ensures
        ({
            let r = spec_settle(accs, txs, tx, tx_id, block_hash, f, now);
            &&& acct_balance(r.0, tx.from) == acct_balance(accs, tx.from)
            &&& acct_balance(r.0, tx.to) == acct_balance(accs, tx.to)
            &&& r.1 == spec_set_status(txs, tx_id, TransactionStatus::Rejected)->Some_0
            &&& r.1[tx_pos(txs, tx_id)].status == TransactionStatus::Rejected
        }),
{
    let k = acct_pos(accs, tx.from);
    lemma_first_match(accs, crate::address_repository::by_key(tx.from));
    lemma_first_match(accs, crate::address_repository::by_key(tx.to));
    let accs1 = spec_withdraw(accs, tx.from, tx.amount, now)->Some_0;
    lemma_withdraw_shape(accs, tx.from, tx.amount, now);
    lemma_pos_stable(accs, accs1, tx.from);
    lemma_pos_stable(accs, accs1, tx.to);
    let m = acct_pos(accs, tx.to);
    let accs2 = spec_deposit(accs1, tx.to, tx.amount, now)->Some_0;
    lemma_deposit_shape(accs1, tx.to, tx.amount, now);
    lemma_pos_stable(accs, accs2, tx.from);
    lemma_pos_stable(accs, accs2, tx.to);
    if k == m {
        assert(accs[k].public_key == tx.from && accs[m].public_key == tx.to);
    }
    // the withdraw from the receiver undoes the deposit
    assert(accs2[m].balance >= tx.amount);
    let accs3 = spec_withdraw(accs2, tx.to, tx.amount, now)->Some_0;
    lemma_withdraw_shape(accs2, tx.to, tx.amount, now);
    lemma_pos_stable(accs, accs3, tx.from);
    lemma_pos_stable(accs, accs3, tx.to);
    // the deposit to the sender undoes the withdraw
    assert(accs3[k].balance + tx.amount <= u64::MAX);
    let accs4 = spec_deposit(accs3, tx.from, tx.amount, now)->Some_0;
    lemma_deposit_shape(accs3, tx.from, tx.amount, now);
    lemma_pos_stable(accs, accs4, tx.from);
    lemma_pos_stable(accs, accs4, tx.to);
    assert(accs4[k].balance == accs[k].balance);
    assert(accs4[m].balance == accs[m].balance);
    lemma_first_match(txs, by_tx_id(tx_id));
}

/// **Successful settlement.**  With no call refused, the sender covering
/// the amount and the receiver in place, settlement moves the amount from
/// sender to receiver and confirms the transaction under the block hash.
pub proof fn lemma_settle_success(
    accs: Seq<AddressView>,
    txs: Seq<TransactionView>,
    tx: TransactionView,
    tx_id: u64,
    block_hash: Seq<char>,
    f: StepFaults,
    now: i64,
)
    requires
        f == no_faults(),
        spec_withdraw(accs, tx.from, tx.amount, now) is Some,
        spec_deposit(
            spec_withdraw(accs, tx.from, tx.amount, now)->Some_0,
            tx.to,
            tx.amount,
            now,
        ) is Some,
        has_tx(txs, tx_id),
    ensures
        ({
            let r = spec_settle(accs, txs, tx, tx_id, block_hash, f, now);
            &&& r.0 == spec_deposit(
                spec_withdraw(accs, tx.from, tx.amount, now)->Some_0,
                tx.to,
                tx.amount,
                now,
            )->Some_0
            &&& r.1 == spec_confirm(txs, tx_id, block_hash)->Some_0
            &&& tx.from != tx.to ==> acct_balance(r.0, tx.from) == acct_balance(accs, tx.from)
                - tx.amount
            &&& tx.from != tx.to ==> acct_balance(r.0, tx.to) == acct_balance(accs, tx.to)
                + tx.amount
            &&& r.1[tx_pos(txs, tx_id)].status == TransactionStatus::Confirmed
            &&& r.1[tx_pos(txs, tx_id)].block_hash == Some(block_hash)
        }),
{
    let k = acct_pos(accs, tx.from);
    let m = acct_pos(accs, tx.to);
    lemma_first_match(accs, crate::address_repository::by_key(tx.from));
    lemma_first_match(accs, crate::address_repository::by_key(tx.to));
    let accs1 = spec_withdraw(accs, tx.from, tx.amount, now)->Some_0;
    lemma_withdraw_shape(accs, tx.from, tx.amount, now);
    lemma_pos_stable(accs, accs1, tx.from);
    lemma_pos_stable(accs, accs1, tx.to);
    let accs2 = spec_deposit(accs1, tx.to, tx.amount, now)->Some_0;
    lemma_deposit_shape(accs1, tx.to, tx.amount, now);
    lemma_pos_stable(accs, accs2, tx.from);
    lemma_pos_stable(accs, accs2, tx.to);
    if tx.from != tx.to {
        assert(k != m);
    }
    lemma_first_match(txs, by_tx_id(tx_id));
}

} // verus!
