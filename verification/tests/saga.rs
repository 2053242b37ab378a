use rust_chain::address_model::InsertAddress;
use rust_chain::address_repository::AddressRepository;
use rust_chain::address_usecase::AddressUsecase;
use rust_chain::block_entity::BlockEntity;
use rust_chain::block_error::APIBlockError;
use rust_chain::block_repository::BlockRepository;
use rust_chain::block_usecase::BlockUsecase;
use rust_chain::error::ApiError;
use rust_chain::settlement::StepFaults;
use rust_chain::transaction_entity::{TransactionEntity, TransactionStatus};
use rust_chain::transaction_repository::TransactionRepository;
use rust_chain::transaction_usecase::TransactionUsecase;

fn node() -> BlockUsecase {
    let addr_usecase = AddressUsecase::creation(AddressRepository::creation());
    let tx_usecase = TransactionUsecase::creation(TransactionRepository::creation(), addr_usecase);
    BlockUsecase::creation(BlockRepository::creation(), tx_usecase)
}

fn make_account(node: &mut BlockUsecase, key: &str, balance: u64) {
    node.tx_usecase
        .addr_usecase
        .create_new_address(InsertAddress { public_key: key.to_string() }, 0)
        .expect("account creation failed");
    if balance > 0 {
        node.tx_usecase
            .addr_usecase
            .deposit_coin(
                rust_chain::address_model::CoinWithAddress {
                    public_key: key.to_string(),
                    amount: balance,
                },
                0,
            )
            .expect("funding failed");
    }
}

fn balance_of(node: &BlockUsecase, key: &str) -> u64 {
    node.tx_usecase
        .addr_usecase
        .address_repository
        .get_by_address(key.to_string())
        .expect("store failed")
        .expect("account missing")
        .balance
}

fn pending_transfer(node: &mut BlockUsecase, from: &str, to: &str, amount: u64, ts: i64) -> u64 {
    node.tx_usecase
        .tx_repo
        .insert(TransactionEntity::new(
            from.to_string(),
            to.to_string(),
            amount,
            String::new(),
            TransactionStatus::Pending,
            ts,
        ))
        .expect("insert failed")
}

fn status_of(node: &BlockUsecase, id: u64) -> TransactionStatus {
    node.tx_usecase.get_by_id(id).expect("transaction missing").status
}

#[test]
fn first_block_has_index_one_and_empty_previous_hash() {
    let mut n = node();
    n.build_block(5, &vec![]).expect("build failed");
    let b = n.get_latest_block().expect("no latest block");
    assert_eq!(b.index, 1);
    assert_eq!(b.previous_hash, "");
    assert_eq!(b.nonce, 0);
    assert_eq!(b.timestamp, 5);
    assert!(b.transactions.is_empty());
    // the hash of an empty block on an empty chain is the digest of the
    // bare payload separator
    assert_eq!(
        b.hash,
        "41b805ea7ac014e23556e98bb374702a08344268f92489a02f0880849394a1e4"
    );
}

#[test]
fn successful_settlement_moves_the_amount() {
    let mut n = node();
    make_account(&mut n, "alice", 100);
    make_account(&mut n, "bob", 0);
    let tx_id = pending_transfer(&mut n, "alice", "bob", 40, 1);
    let block_id = n.build_block(2, &vec![]).expect("build failed");
    assert_eq!(block_id, 1);
    assert_eq!(balance_of(&n, "alice"), 60);
    assert_eq!(balance_of(&n, "bob"), 40);
    let tx = n.tx_usecase.get_by_id(tx_id).expect("transaction missing");
    assert_eq!(tx.status, TransactionStatus::Confirmed);
    let b = n.get_latest_block().expect("no latest block");
    assert_eq!(tx.block_hash.as_deref(), Some(b.hash.as_str()));
    assert_eq!(b.transactions, vec![tx_id]);
}

#[test]
fn deposit_failure_restores_the_sender() {
    let mut n = node();
    make_account(&mut n, "alice", 100);
    // no account for the receiver: the deposit step fails
    let tx_id = pending_transfer(&mut n, "alice", "nobody", 40, 1);
    n.build_block(2, &vec![]).expect("build failed");
    assert_eq!(balance_of(&n, "alice"), 100);
    assert_eq!(status_of(&n, tx_id), TransactionStatus::Rejected);
    assert!(n
        .tx_usecase
        .addr_usecase
        .address_repository
        .get_by_address("nobody".to_string())
        .expect("store failed")
        .is_none());
}

#[test]
fn confirm_failure_rolls_both_balances_back() {
    let mut n = node();
    make_account(&mut n, "alice", 100);
    make_account(&mut n, "bob", 7);
    let tx_id = pending_transfer(&mut n, "alice", "bob", 40, 1);
    let mut f = StepFaults::none();
    f.confirm = true;
    n.build_block(2, &vec![f]).expect("build failed");
    assert_eq!(balance_of(&n, "alice"), 100);
    assert_eq!(balance_of(&n, "bob"), 7);
    assert_eq!(status_of(&n, tx_id), TransactionStatus::Rejected);
}

#[test]
fn withdraw_failure_touches_no_account() {
    let mut n = node();
    make_account(&mut n, "alice", 10);
    make_account(&mut n, "bob", 5);
    let tx_id = pending_transfer(&mut n, "alice", "bob", 40, 1);
    n.build_block(2, &vec![]).expect("build failed");
    assert_eq!(balance_of(&n, "alice"), 10);
    assert_eq!(balance_of(&n, "bob"), 5);
    assert_eq!(status_of(&n, tx_id), TransactionStatus::Rejected);
}

#[test]
fn refused_withdraw_call_settles_nothing() {
    let mut n = node();
    make_account(&mut n, "alice", 100);
    make_account(&mut n, "bob", 0);
    let tx_id = pending_transfer(&mut n, "alice", "bob", 40, 1);
    let mut f = StepFaults::none();
    f.withdraw = true;
    n.build_block(2, &vec![f]).expect("build failed");
    assert_eq!(balance_of(&n, "alice"), 100);
    assert_eq!(balance_of(&n, "bob"), 0);
    assert_eq!(status_of(&n, tx_id), TransactionStatus::Rejected);
}

#[test]
fn pending_transactions_come_back_oldest_first() {
    let mut n = node();
    make_account(&mut n, "alice", 100);
    make_account(&mut n, "bob", 0);
    // submitted out of order on purpose
    let t2 = pending_transfer(&mut n, "alice", "bob", 2, 20);
    let t1 = pending_transfer(&mut n, "alice", "bob", 1, 10);
    let t3 = pending_transfer(&mut n, "alice", "bob", 3, 30);
    let pending = n.tx_usecase.get_all_pending().expect("pending failed");
    let ids: Vec<u64> = pending.iter().map(|t| t.id.unwrap()).collect();
    assert_eq!(ids, vec![t1, t2, t3]);
    n.build_block(40, &vec![]).expect("build failed");
    let b = n.get_latest_block().expect("no latest block");
    assert_eq!(b.transactions, vec![t1, t2, t3]);
}

#[test]
fn consecutively_built_blocks_form_a_valid_chain() {
    let mut n = node();
    make_account(&mut n, "alice", 100);
    make_account(&mut n, "bob", 0);
    pending_transfer(&mut n, "alice", "bob", 5, 1);
    n.build_block(2, &vec![]).expect("build failed");
    pending_transfer(&mut n, "alice", "bob", 7, 3);
    n.build_block(4, &vec![]).expect("build failed");
    n.build_block(5, &vec![]).expect("build failed");
    assert!(n.verify_chain().is_ok());
    let b3 = n.get_latest_block().expect("no latest block");
    assert_eq!(b3.index, 3);
    let b2 = n
        .get_block_by_hash(b3.previous_hash.clone())
        .expect("predecessor missing");
    assert_eq!(b2.index, 2);
}

#[test]
fn a_tampered_back_link_names_the_first_broken_index() {
    let mut n = node();
    n.build_block(1, &vec![]).expect("build failed");
    n.build_block(2, &vec![]).expect("build failed");
    assert!(n.verify_chain().is_ok());
    // a block whose back-link matches nothing
    n.block_repo
        .insert(BlockEntity::new(
            3,
            Vec::new(),
            "unrelated".to_string(),
            "whatever".to_string(),
            0,
            3,
        ))
        .expect("insert failed");
    match n.verify_chain() {
        Err(ApiError::Block(APIBlockError::InvalidChain(m))) => {
            assert_eq!(m, "Chain broken at block index 3");
        }
        _ => panic!("tampered chain passed verification"),
    }
}

#[test]
fn missing_blocks_and_transactions_report_not_found() {
    let n = node();
    match n.get_latest_block() {
        Err(ApiError::Block(APIBlockError::NotFound(m))) => assert_eq!(m, "block latest"),
        _ => panic!("an empty chain reported a latest block"),
    }
    match n.get_block_by_hash("nope".to_string()) {
        Err(ApiError::Block(APIBlockError::NotFound(h))) => assert_eq!(h, "nope"),
        _ => panic!("an unknown hash reported a block"),
    }
    match n.tx_usecase.get_by_id(999) {
        Err(ApiError::Transaction(
            rust_chain::transaction_error::APITransactionError::NotFound(id),
        )) => assert_eq!(id, 999),
        _ => panic!("an unknown id reported a transaction"),
    }
}

#[test]
fn equal_timestamps_keep_submission_order() {
    let mut n = node();
    make_account(&mut n, "alice", 100);
    let t1 = pending_transfer(&mut n, "alice", "bob", 1, 5);
    let t2 = pending_transfer(&mut n, "alice", "bob", 2, 5);
    let t3 = pending_transfer(&mut n, "alice", "bob", 3, 5);
    let pending = n.tx_usecase.get_all_pending().expect("pending failed");
    let ids: Vec<u64> = pending.iter().map(|t| t.id.unwrap()).collect();
    assert_eq!(ids, vec![t1, t2, t3]);
}

#[test]
fn confirming_a_nonexistent_transaction_changes_nothing() {
    let mut n = node();
    make_account(&mut n, "alice", 100);
    let tx_id = pending_transfer(&mut n, "alice", "bob", 5, 1);
    let r = n.tx_usecase.confirm_transaction(999, "h".to_string());
    match r {
        Err(ApiError::Transaction(
            rust_chain::transaction_error::APITransactionError::NotFound(id),
        )) => assert_eq!(id, 999),
        _ => panic!("confirming a nonexistent id did not fail with NotFound"),
    }
    match n.tx_usecase.reject_transaction(999) {
        Err(ApiError::Transaction(
            rust_chain::transaction_error::APITransactionError::NotFound(id),
        )) => assert_eq!(id, 999),
        _ => panic!("rejecting a nonexistent id did not fail with NotFound"),
    }
    // the one stored transaction is untouched
    assert_eq!(status_of(&n, tx_id), TransactionStatus::Pending);
    assert_eq!(n.tx_usecase.get_all_pending().expect("pending failed").len(), 1);
}

#[test]
fn settlement_goes_on_after_a_failed_transaction() {
    let mut n = node();
    make_account(&mut n, "alice", 50);
    make_account(&mut n, "bob", 0);
    // three transfers; the middle one cannot be covered once the first
    // settles
    let t1 = pending_transfer(&mut n, "alice", "bob", 30, 1);
    let t2 = pending_transfer(&mut n, "alice", "bob", 40, 2);
    let t3 = pending_transfer(&mut n, "alice", "bob", 20, 3);
    n.build_block(4, &vec![]).expect("build failed");
    assert_eq!(status_of(&n, t1), TransactionStatus::Confirmed);
    assert_eq!(status_of(&n, t2), TransactionStatus::Rejected);
    assert_eq!(status_of(&n, t3), TransactionStatus::Confirmed);
    assert_eq!(balance_of(&n, "alice"), 0);
    assert_eq!(balance_of(&n, "bob"), 50);
}

#[test]
fn a_refused_rejection_leaves_the_transaction_pending() {
    let mut n = node();
    make_account(&mut n, "alice", 10);
    let tx_id = pending_transfer(&mut n, "alice", "bob", 40, 1);
    let mut f = StepFaults::none();
    f.reject = true;
    n.build_block(2, &vec![f]).expect("build failed");
    // the withdraw failed and the rejection call was refused too
    assert_eq!(status_of(&n, tx_id), TransactionStatus::Pending);
    assert_eq!(balance_of(&n, "alice"), 10);
}
