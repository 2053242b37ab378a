//! A small ledger of accounts, transactions, and blocks.
//!
//! The heart of the crate is the settlement saga: building a block from the
//! pending transactions and moving value between independently stored account
//! records without a multi-record atomic transaction, compensating already
//! applied steps when a later step fails.  The stores are modelled in memory;
//! the outcome of each remote settlement step is an input to the saga, so
//! every compensation path is verified for every schedule of failures.
//!
//! The ledger state lives in process and is lost on restart: durability,
//! like transport, is the embedding application's concern.

pub mod address_entity;
pub mod address_error;
pub mod address_model;
pub mod address_repository;
pub mod address_usecase;
pub mod block_entity;
pub mod block_repository;
pub mod block_error;
pub mod block_usecase;
pub mod crypto_helper;
pub mod error;
pub mod ordering;
pub mod setting;
pub mod settlement;
pub mod text;
pub mod timer_helper;
pub mod transaction_entity;
pub mod transaction_error;
pub mod transaction_model;
pub mod transaction_repository;
pub mod transaction_usecase;
