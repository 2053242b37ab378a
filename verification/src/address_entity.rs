//! Account records of the ledger, keyed by public key.

use vstd::prelude::*;

verus! {

/// The mathematical value of an account record.
pub struct AddressView {
    pub id: Option<u64>,
    pub public_key: Seq<char>,
    pub balance: u64,
    pub created_at: i64,
    pub updated_at: i64,
}

/// A wallet: a public key with a non-negative balance in the smallest
/// currency unit.
#[derive(Clone, Debug, PartialEq)]
pub struct AddressEntity {
    pub id: Option<u64>,
    pub public_key: String,
    pub balance: u64,
    pub created_at: i64,
    pub updated_at: i64,
}

impl View for AddressEntity {
    type V = AddressView;

    open spec fn view(&self) -> AddressView {
        AddressView {
            id: self.id,
            public_key: self.public_key@,
            balance: self.balance,
            created_at: self.created_at,
            updated_at: self.updated_at,
        }
    }
}

impl AddressEntity {
    /// A fresh, unpersisted account with a zero balance.
    pub fn new(public_key: String, now: i64) -> (r: Self)
        ensures
            r@ == (AddressView {
                id: None,
                public_key: public_key@,
                balance: 0,
                created_at: now,
                updated_at: now,
            }),
    {
        Self { id: None, public_key, balance: 0, created_at: now, updated_at: now }
    }

    /// A field-for-field copy with the same mathematical value.
    pub fn duplicate(&self) -> (r: Self)
        ensures
            r@ == self@,
    {
        Self {
            id: self.id,
            public_key: self.public_key.clone(),
            balance: self.balance,
            created_at: self.created_at,
            updated_at: self.updated_at,
        }
    }
}

} // verus!
