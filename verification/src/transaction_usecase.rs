//! The transaction lifecycle: validated submission, queries, and the status
//! transitions out of `Pending`.
//!
//! The usecases nest: this one owns the account operations, so the one set
//! of stores serves every operation.

use vstd::prelude::*;
use vstd::string::*;
use crate::address_error::APIAddressError;
use crate::address_repository::has_acct;
use crate::address_usecase::AddressUsecase;
use crate::crypto_helper::{spec_verify_signature, verify_signature, SignatureError};
use crate::error::ApiError;
use crate::ordering::sorted_by_key;
use crate::text::{dec_digits, u64_to_dec};
use crate::transaction_entity::{TransactionEntity, TransactionStatus, TransactionView};
use crate::transaction_error::APITransactionError;
use crate::transaction_model::CreateTransactionRequest;
use crate::transaction_repository::{
    has_tx, pending_sorted, ts_key, tx_pos, TransactionRepository,
};

verus! {

/// The canonical message a transaction is signed over: sender, receiver and
/// decimal amount, concatenated.  The fields carry no delimiter or length
/// prefix, so distinct field splits can collide; the signature scheme of
/// the service rests on this format as given.
pub open spec fn signing_message(from: Seq<char>, to: Seq<char>, amount: u64) -> Seq<char> {
    from + to + dec_digits(amount as nat)
}

/// The text reported when signature verification itself fails.
pub open spec fn spec_signature_error_text(e: SignatureError) -> Seq<char> {
    match e {
        SignatureError::InvalidKey => "malformed public key"@,
        SignatureError::InvalidSignature => "malformed signature"@,
    }
}

/// Builds the canonical signing message for a transfer.
pub fn build_signing_message(from: &String, to: &String, amount: u64) -> (r: String)
    ensures
        r@ == signing_message(from@, to@, amount),
{
    let mut msg = from.clone();
    msg.append(to.as_str());
    let a = u64_to_dec(amount);
    msg.append(a.as_str());
    msg
}

/// Transaction operations over the transaction store and the account
/// operations.
pub struct TransactionUsecase {
    pub tx_repo: TransactionRepository,
    pub addr_usecase: AddressUsecase,
}

impl TransactionUsecase {
    /// The stores underneath are well formed.
    pub open spec fn wf(&self) -> bool {
        self.tx_repo.wf() && self.addr_usecase.wf()
    }

    pub fn creation(tx_repo: TransactionRepository, addr_usecase: AddressUsecase) -> (r: Self)
        ensures
            r.tx_repo == tx_repo,
            r.addr_usecase == addr_usecase,
    {
        Self { tx_repo, addr_usecase }
    }

    /// Fetches a transaction by id; fails with `NotFound` when the id
    /// matches nothing.
    pub fn get_by_id(&self, tx_id: u64) -> (r: Result<TransactionEntity, ApiError>)
        ensures
            match r {
                Ok(tx) => has_tx(self.tx_repo@, tx_id) && tx@ == self.tx_repo@[tx_pos(
                    self.tx_repo@,
                    tx_id,
                )],
                Err(ApiError::Transaction(APITransactionError::NotFound(id))) => !has_tx(
                    self.tx_repo@,
                    tx_id,
                ) && id == tx_id,
                Err(_) => false,
            },
    {
        match self.tx_repo.find_by_id(tx_id) {
            Ok(Some(tx)) => Ok(tx),
            Ok(None) => Err(ApiError::Transaction(APITransactionError::NotFound(tx_id))),
            Err(e) => Err(ApiError::Transaction(APITransactionError::FindError(e))),
        }
    }

    /// Returns every transaction the address takes part in, in store order;
    /// fails with `AddressNotFound` when the address has no account.
    pub fn get_by_address(&self, address: String) -> (r: Result<Vec<TransactionEntity>, ApiError>)
        ensures
            match r {
                Ok(v) => {
                    &&& has_acct(self.addr_usecase.address_repository@, address@)
                    &&& v@.map_values(|t: TransactionEntity| t@) == self.tx_repo@.filter(
                        crate::transaction_repository::by_party(address@),
                    )
                },
                Err(ApiError::Address(APIAddressError::AddressNotFound(a))) => {
                    &&& !has_acct(self.addr_usecase.address_repository@, address@)
                    &&& a@ == address@
                },
                Err(_) => false,
            },
    {
        match self.addr_usecase.address_repository.get_by_address(address.clone()) {
            Ok(Some(_)) => {},
            Ok(None) => {
                return Err(ApiError::Address(APIAddressError::AddressNotFound(address)));
            },
            Err(e) => {
                return Err(ApiError::Address(APIAddressError::FindAddressError(e)));
            },
        }
        match self.tx_repo.find_by_address(address) {
            Ok(txs) => Ok(txs),
            Err(e) => Err(ApiError::Transaction(APITransactionError::FindError(e))),
        }
    }

    /// Returns the pending transactions, oldest first.
    pub fn get_all_pending(&self) -> (r: Result<Vec<TransactionEntity>, ApiError>)
        ensures
            match r {
                Ok(v) => {
                    &&& v@.map_values(|t: TransactionEntity| t@) == pending_sorted(self.tx_repo@)
                    &&& sorted_by_key(ts_key(), v@.map_values(|t: TransactionEntity| t@))
                },
                Err(_) => false,
            },
    {
        match self.tx_repo.find_all_pending() {
            Ok(txs) => Ok(txs),
            Err(e) => Err(ApiError::Transaction(APITransactionError::FindError(e))),
        }
    }

    /// Marks a transaction `Confirmed` under the given block hash; fails
    /// with `NotFound`, changing nothing, when the id matches nothing.
    pub fn confirm_transaction(&mut self, tx_id: u64, block_hash: String) -> (r: Result<
        (),
        ApiError,
    >)
        requires
            old(self).wf(),
        ensures
            final(self).wf(),
            final(self).addr_usecase == old(self).addr_usecase,
            final(self).tx_repo.spec_next_id() == old(self).tx_repo.spec_next_id(),
            match r {
                Ok(()) => {
                    let k = tx_pos(old(self).tx_repo@, tx_id);
                    &&& has_tx(old(self).tx_repo@, tx_id)
                    &&& final(self).tx_repo@ == old(self).tx_repo@.update(
                        k,
                        TransactionView {
                            status: TransactionStatus::Confirmed,
                            block_hash: Some(block_hash@),
                            ..old(self).tx_repo@[k]
                        },
                    )
                },
                Err(ApiError::Transaction(APITransactionError::NotFound(id))) => {
                    &&& !has_tx(old(self).tx_repo@, tx_id)
                    &&& id == tx_id
                    &&& final(self).tx_repo@ == old(self).tx_repo@
                },
                Err(_) => false,
            },
    {
        match self.tx_repo.mark_confirmed(tx_id, block_hash) {
            Ok(()) => Ok(()),
            Err(_) => Err(ApiError::Transaction(APITransactionError::NotFound(tx_id))),
        }
    }

    /// Marks a transaction `Rejected`; fails with `NotFound`, changing
    /// nothing, when the id matches nothing.
    pub fn reject_transaction(&mut self, tx_id: u64) -> (r: Result<(), ApiError>)
        requires
            old(self).wf(),
        ensures
            final(self).wf(),
            final(self).addr_usecase == old(self).addr_usecase,
            final(self).tx_repo.spec_next_id() == old(self).tx_repo.spec_next_id(),
            match r {
                Ok(()) => {
                    let k = tx_pos(old(self).tx_repo@, tx_id);
                    &&& has_tx(old(self).tx_repo@, tx_id)
                    &&& final(self).tx_repo@ == old(self).tx_repo@.update(
                        k,
                        TransactionView {
                            status: TransactionStatus::Rejected,
                            ..old(self).tx_repo@[k]
                        },
                    )
                },
                Err(ApiError::Transaction(APITransactionError::NotFound(id))) => {
                    &&& !has_tx(old(self).tx_repo@, tx_id)
                    &&& id == tx_id
                    &&& final(self).tx_repo@ == old(self).tx_repo@
                },
                Err(_) => false,
            },
    {
        match self.tx_repo.update_status(tx_id, TransactionStatus::Rejected) {
            Ok(()) => Ok(()),
            Err(_) => Err(ApiError::Transaction(APITransactionError::NotFound(tx_id))),
        }
    }

    /// Validates and persists a submitted transfer: the sender must have an
    /// account, the sender's balance must cover the amount, and the
    /// signature over the canonical message must verify against the
    /// sender's key.  On success the transaction is stored `Pending` and
    /// its id returned.  The balance check is advisory: it is not atomic
    /// with insertion, and the balance is checked again at settlement.
    /// The receiver's existence is not checked here; a transfer to an
    /// unknown address is rejected at settlement.
    pub fn create_transaction(&mut self, req: CreateTransactionRequest, now: i64) -> (r: Result<
        u64,
        ApiError,
    >)
        requires
            old(self).wf(),
        ensures
            final(self).wf(),
            final(self).addr_usecase == old(self).addr_usecase,
            ({
                let accs = old(self).addr_usecase.address_repository@;
                let txs = old(self).tx_repo@;
                let sender_ok = has_acct(accs, req.from@);
                let balance = crate::address_repository::acct_balance(accs, req.from@);
                let verdict = spec_verify_signature(
                    signing_message(req.from@, req.to@, req.amount),
                    req.from@,
                    req.signature@,
                );
                match r {
                    Ok(id) => {
                        &&& sender_ok
                        &&& balance >= req.amount
                        &&& verdict == Ok::<bool, SignatureError>(true)
                        &&& id == old(self).tx_repo.spec_next_id()
                        &&& final(self).tx_repo@ == txs.push(
                            TransactionView {
                                id: Some(id),
                                block_hash: None,
                                from: req.from@,
                                to: req.to@,
                                amount: req.amount,
                                signature: req.signature@,
                                timestamp: now,
                                status: TransactionStatus::Pending,
                            },
                        )
                    },
                    Err(ApiError::Address(APIAddressError::AddressNotFound(a))) => {
                        &&& !sender_ok
                        &&& a@ == req.from@
                        &&& final(self).tx_repo@ == txs
                    },
                    Err(ApiError::Transaction(APITransactionError::BalanceNotEnough(f, c, e))) => {
                        &&& sender_ok
                        &&& balance < req.amount
                        &&& f@ == req.from@ && c == balance && e == req.amount
                        &&& final(self).tx_repo@ == txs
                    },
                    Err(ApiError::Transaction(APITransactionError::VerifySignatureError(m))) => {
                        &&& sender_ok
                        &&& balance >= req.amount
                        &&& verdict is Err && m@ == spec_signature_error_text(verdict->Err_0)
                        &&& final(self).tx_repo@ == txs
                    },
                    Err(ApiError::Transaction(APITransactionError::InvalidSignature)) => {
                        &&& sender_ok
                        &&& balance >= req.amount
                        &&& verdict == Ok::<bool, SignatureError>(false)
                        &&& final(self).tx_repo@ == txs
                    },
                    Err(
                        ApiError::Transaction(APITransactionError::InsertTransactionError(_)),
                    ) => {
                        &&& sender_ok
                        &&& balance >= req.amount
                        &&& verdict == Ok::<bool, SignatureError>(true)
                        &&& old(self).tx_repo.spec_next_id() == u64::MAX
                        &&& final(self).tx_repo@ == txs
                    },
                    Err(_) => false,
                }
            }),
    {
        let sender = match self.addr_usecase.address_repository.get_by_address(req.from.clone()) {
            Ok(Some(sender)) => sender,
            Ok(None) => {
                return Err(ApiError::Address(APIAddressError::AddressNotFound(req.from)));
            },
            Err(e) => {
                return Err(ApiError::Address(APIAddressError::FindAddressError(e)));
            },
        };

        if sender.balance < req.amount {
            return Err(ApiError::Transaction(APITransactionError::BalanceNotEnough(
                req.from,
                sender.balance,
                req.amount,
            )));
        }

        let message = build_signing_message(&req.from, &req.to, req.amount);

        let is_valid = match verify_signature(message.as_str(), req.from.as_str(),
            req.signature.as_str()) {
            Ok(r) => r,
            Err(e) => {
                return Err(ApiError::Transaction(APITransactionError::VerifySignatureError(
                    String::from_str(e.describe()),
                )));
            },
        };

        if !is_valid {
            return Err(ApiError::Transaction(APITransactionError::InvalidSignature));
        }

        let new_transaction = TransactionEntity::new(
            req.from,
            req.to,
            req.amount,
            req.signature,
            TransactionStatus::Pending,
            now,
        );

        match self.tx_repo.insert(new_transaction) {
            Ok(id) => Ok(id),
            Err(e) => Err(ApiError::Transaction(APITransactionError::InsertTransactionError(e))),
        }
    }
}

} // verus!
