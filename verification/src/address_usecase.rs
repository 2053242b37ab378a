//! Account operations: creating accounts and moving coin in and out of a
//! single account's balance.

use vstd::prelude::*;
use crate::address_entity::{AddressEntity, AddressView};
use crate::address_error::APIAddressError;
use crate::address_model::{CoinWithAddress, InsertAddress};
use crate::address_repository::{acct_balance, acct_pos, has_acct, AddressRepository};

verus! {

/// Account operations over the account store.
pub struct AddressUsecase {
    pub address_repository: AddressRepository,
}

impl AddressUsecase {
    /// The store underneath is well formed.
    pub open spec fn wf(&self) -> bool {
        self.address_repository.wf()
    }

    pub fn creation(address_repository: AddressRepository) -> (r: Self)
        ensures
            r.address_repository == address_repository,
    {
        Self { address_repository }
    }

    /// Creates an account for a public key that does not have one yet, with
    /// a zero balance, and returns the new record's id.
    pub fn create_new_address(&mut self, insert_address: InsertAddress, now: i64) -> (r: Result<
        u64,
        APIAddressError,
    >)
        requires
            old(self).wf(),
        ensures
            final(self).wf(),
            match r {
                Ok(id) => {
                    &&& !has_acct(old(self).address_repository@, insert_address.public_key@)
                    &&& id == old(self).address_repository.spec_next_id()
                    &&& final(self).address_repository@ == old(self).address_repository@.push(
                        AddressView {
                            id: Some(id),
                            public_key: insert_address.public_key@,
                            balance: 0,
                            created_at: now,
                            updated_at: now,
                        },
                    )
                },
                Err(APIAddressError::AddressAlreadyExists(a)) => {
                    &&& has_acct(old(self).address_repository@, insert_address.public_key@)
                    &&& a@ == insert_address.public_key@
                    &&& final(self).address_repository@ == old(self).address_repository@
                },
                Err(APIAddressError::GenerateAddressError(_)) => {
                    &&& !has_acct(old(self).address_repository@, insert_address.public_key@)
                    &&& old(self).address_repository.spec_next_id() == u64::MAX
                    &&& final(self).address_repository@ == old(self).address_repository@
                },
                Err(_) => false,
            },
    {
        match self.address_repository.get_by_address(insert_address.public_key.clone()) {
            Ok(Some(_)) => {
                return Err(APIAddressError::AddressAlreadyExists(insert_address.public_key));
            },
            _ => {},
        }
        match self.address_repository.insert(AddressEntity::new(insert_address.public_key, now)) {
            Ok(id) => Ok(id),
            Err(e) => Err(APIAddressError::GenerateAddressError(e)),
        }
    }

    /// Adds coin to the named account's balance.
    pub fn deposit_coin(&mut self, coin_with_address: CoinWithAddress, now: i64) -> (r: Result<
        (),
        APIAddressError,
    >)
        requires
            old(self).wf(),
        ensures
            final(self).wf(),
            final(self).address_repository.spec_next_id() == old(
                self,
            ).address_repository.spec_next_id(),
            match r {
                Ok(()) => {
                    let accs = old(self).address_repository@;
                    let k = acct_pos(accs, coin_with_address.public_key@);
                    &&& has_acct(accs, coin_with_address.public_key@)
                    &&& accs[k].balance + coin_with_address.amount <= u64::MAX
                    &&& final(self).address_repository@ == accs.update(
                        k,
                        AddressView {
                            balance: (accs[k].balance + coin_with_address.amount) as u64,
                            updated_at: now,
                            ..accs[k]
                        },
                    )
                },
                Err(APIAddressError::UpdateBalanceError(_)) => {
                    let accs = old(self).address_repository@;
                    &&& !has_acct(accs, coin_with_address.public_key@) || acct_balance(
                        accs,
                        coin_with_address.public_key@,
                    ) + coin_with_address.amount > u64::MAX
                    &&& final(self).address_repository@ == accs
                },
                Err(_) => false,
            },
    {
        let entity = AddressEntity::new(coin_with_address.public_key, now);
        match self.address_repository.deposit(entity, coin_with_address.amount) {
            Ok(()) => Ok(()),
            Err(e) => Err(APIAddressError::UpdateBalanceError(e)),
        }
    }

    /// Takes coin out of the named account's balance.  The decrement is
    /// conditional: it fails when the account holds less than the amount.
    pub fn withdraw_coin(&mut self, coin_with_address: CoinWithAddress, now: i64) -> (r: Result<
        (),
        APIAddressError,
    >)
        requires
            old(self).wf(),
        ensures
            final(self).wf(),
            final(self).address_repository.spec_next_id() == old(
                self,
            ).address_repository.spec_next_id(),
            match r {
                Ok(()) => {
                    let accs = old(self).address_repository@;
                    let k = acct_pos(accs, coin_with_address.public_key@);
                    &&& has_acct(accs, coin_with_address.public_key@)
                    &&& accs[k].balance >= coin_with_address.amount
                    &&& final(self).address_repository@ == accs.update(
                        k,
                        AddressView {
                            balance: (accs[k].balance - coin_with_address.amount) as u64,
                            updated_at: now,
                            ..accs[k]
                        },
                    )
                },
                Err(APIAddressError::UpdateBalanceError(_)) => {
                    let accs = old(self).address_repository@;
                    &&& !has_acct(accs, coin_with_address.public_key@) || acct_balance(
                        accs,
                        coin_with_address.public_key@,
                    ) < coin_with_address.amount
                    &&& final(self).address_repository@ == accs
                },
                Err(_) => false,
            },
    {
        let entity = AddressEntity::new(coin_with_address.public_key, now);
        match self.address_repository.withdraw(entity, coin_with_address.amount) {
            Ok(()) => Ok(()),
            Err(e) => Err(APIAddressError::UpdateBalanceError(e)),
        }
    }
}

} // verus!
