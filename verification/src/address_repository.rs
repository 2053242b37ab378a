//! The account store: per-account balance records with atomic, conditional
//! increment and decrement, keyed by public key.
//!
//! The store keeps its records in memory, in insertion order, and assigns
//! ids from a counter.  Lookups and updates act on the first record whose
//! key matches, as the document store's single-record operations do.

use vstd::prelude::*;
use vstd::string::*;
use crate::address_entity::{AddressEntity, AddressView};
use crate::ordering::{first_match, lemma_first_match};

verus! {

/// The predicate picking accounts with the given public key.
pub open spec fn by_key(key: Seq<char>) -> spec_fn(AddressView) -> bool {
    |a: AddressView| a.public_key == key
}

/// The predicate picking accounts with the given store-assigned id.
pub open spec fn by_acct_id(id: u64) -> spec_fn(AddressView) -> bool {
    |a: AddressView| a.id == Some(id)
}

/// The index of the first account with the given public key, or `-1`.
pub open spec fn acct_pos(s: Seq<AddressView>, key: Seq<char>) -> int {
    first_match(s, by_key(key))
}

/// Whether some account has the given public key.
pub open spec fn has_acct(s: Seq<AddressView>, key: Seq<char>) -> bool {
    acct_pos(s, key) >= 0
}

/// The balance of the first account with the given public key.
pub open spec fn acct_balance(s: Seq<AddressView>, key: Seq<char>) -> u64 {
    s[acct_pos(s, key)].balance
}

pub struct AddressRepository {
    items: Vec<AddressEntity>,
    next_id: u64,
}

impl View for AddressRepository {
    type V = Seq<AddressView>;

    closed spec fn view(&self) -> Seq<AddressView> {
        self.items@.map_values(|a: AddressEntity| a@)
    }
}

impl AddressRepository {
    /// The next id the store will assign.
    pub closed spec fn spec_next_id(&self) -> u64 {
        self.next_id
    }

    /// Every stored record carries an id below the id counter.
    pub open spec fn wf(&self) -> bool {
        forall|i: int|
            0 <= i < self@.len() ==> (#[trigger] self@[i].id) is Some && self@[i].id->0
                < self.spec_next_id()
    }

    /// An empty store.
    pub fn creation() -> (r: Self)
        ensures
            r.wf(),
            r@ == Seq::<AddressView>::empty(),
            r.spec_next_id() == 1,
    {
        let r = Self { items: Vec::new(), next_id: 1 };
        proof {
            assert(r@ =~= Seq::<AddressView>::empty());
        }
        r
    }

    /// Looks an account up by its store-assigned id.
    pub fn get_by_id(&self, id: u64) -> (r: Result<Option<AddressEntity>, String>)
        ensures
            match r {
                Ok(Some(a)) => {
                    let k = first_match(self@, by_acct_id(id));
                    k >= 0 && a@ == self@[k]
                },
                Ok(None) => first_match(self@, by_acct_id(id)) < 0,
                Err(_) => false,
            },
    {
        let n = self.items.len();
        for i in 0..n
            invariant
                n == self.items@.len(),
                self@.len() == n,
                forall|j: int| 0 <= j < i ==> (#[trigger] self@[j]).id != Some(id),
        {
            let found = match self.items[i].id {
                Some(x) => x == id,
                None => false,
            };
            if found {
                proof {
                    lemma_first_match(self@, by_acct_id(id));
                    assert(by_acct_id(id)(self@[i as int]));
                    assert(first_match(self@, by_acct_id(id)) == i);
                }
                return Ok(Some(self.items[i].duplicate()));
            }
        }
        proof {
            lemma_first_match(self@, by_acct_id(id));
        }
        Ok(None)
    }

    /// Looks an account up by its public key.
    pub fn get_by_address(&self, address: String) -> (r: Result<Option<AddressEntity>, String>)
        ensures
            match r {
                Ok(Some(a)) => has_acct(self@, address@) && a@ == self@[acct_pos(self@, address@)],
                Ok(None) => !has_acct(self@, address@),
                Err(_) => false,
            },
    {
        let n = self.items.len();
        for i in 0..n
            invariant
                n == self.items@.len(),
                self@.len() == n,
                forall|j: int| 0 <= j < i ==> (#[trigger] self@[j]).public_key != address@,
        {
            if self.items[i].public_key == address {
                proof {
                    lemma_first_match(self@, by_key(address@));
                    assert(by_key(address@)(self@[i as int]));
                    assert(acct_pos(self@, address@) == i);
                }
                return Ok(Some(self.items[i].duplicate()));
            }
        }
        proof {
            lemma_first_match(self@, by_key(address@));
        }
        Ok(None)
    }

    /// Persists a new account record and returns its assigned id.
    pub fn insert(&mut self, new_address: AddressEntity) -> (r: Result<u64, String>)
        requires
            old(self).wf(),
        ensures
            final(self).wf(),
            match r {
                Ok(id) => {
                    &&& old(self).spec_next_id() < u64::MAX
                    &&& id == old(self).spec_next_id()
                    &&& final(self)@ == old(self)@.push(
                        AddressView { id: Some(id), ..new_address@ },
                    )
                    &&& final(self).spec_next_id() == old(self).spec_next_id() + 1
                },
                Err(_) => {
                    &&& old(self).spec_next_id() == u64::MAX
                    &&& final(self)@ == old(self)@
                    &&& final(self).spec_next_id() == old(self).spec_next_id()
                },
            },
    {
        if self.next_id == u64::MAX {
            return Err(String::from_str("id space exhausted"));
        }
        let id = self.next_id;
        self.next_id = id + 1;
        let mut stored = new_address;
        stored.id = Some(id);
        self.items.push(stored);
        proof {
            assert(final(self)@ =~= old(self)@.push(AddressView { id: Some(id), ..new_address@ }));
        }
        Ok(id)
    }

    /// Adds `amount` to the balance of the account named by
    /// `address.public_key` and stamps the record with `address.updated_at`.
    /// Fails, changing nothing, when the account does not exist or the
    /// balance would not fit.
    pub fn deposit(&mut self, address: AddressEntity, amount: u64) -> (r: Result<(), String>)
        requires
            old(self).wf(),
        ensures
            final(self).wf(),
            final(self).spec_next_id() == old(self).spec_next_id(),
            match r {
                Ok(()) => {
                    let k = acct_pos(old(self)@, address.public_key@);
                    &&& has_acct(old(self)@, address.public_key@)
                    &&& old(self)@[k].balance + amount <= u64::MAX
                    &&& final(self)@ == old(self)@.update(
                        k,
                        AddressView {
                            balance: (old(self)@[k].balance + amount) as u64,
                            updated_at: address.updated_at,
                            ..old(self)@[k]
                        },
                    )
                },
                Err(_) => {
                    &&& !has_acct(old(self)@, address.public_key@) || acct_balance(
                        old(self)@,
                        address.public_key@,
                    ) + amount > u64::MAX
                    &&& final(self)@ == old(self)@
                },
            },
    {
        let n = self.items.len();
        for i in 0..n
            invariant
                n == self.items@.len(),
                self@.len() == n,
                self.wf(),
                self@ == old(self)@,
                self.spec_next_id() == old(self).spec_next_id(),
                forall|j: int| 0 <= j < i ==> (#[trigger] self@[j]).public_key
                    != address.public_key@,
        {
            if self.items[i].public_key == address.public_key {
                proof {
                    lemma_first_match(self@, by_key(address.public_key@));
                    assert(by_key(address.public_key@)(self@[i as int]));
                    assert(acct_pos(self@, address.public_key@) == i);
                }
                let b = self.items[i].balance;
                if amount > u64::MAX - b {
                    return Err(String::from_str("balance overflow"));
                }
                self.items[i].balance = b + amount;
                self.items[i].updated_at = address.updated_at;
                proof {
                    assert(final(self)@ =~= old(self)@.update(
                        i as int,
                        AddressView {
                            balance: (old(self)@[i as int].balance + amount) as u64,
                            updated_at: address.updated_at,
                            ..old(self)@[i as int]
                        },
                    ));
                }
                return Ok(());
            }
        }
        proof {
            lemma_first_match(self@, by_key(address.public_key@));
        }
        Err(String::from_str("address not found"))
    }

    /// Subtracts `amount` from the balance of the account named by
    /// `address.public_key` and stamps the record with `address.updated_at`.
    /// The decrement is conditional: it fails, changing nothing, when the
    /// account does not exist or holds less than `amount`, so a balance can
    /// never go negative.
    pub fn withdraw(&mut self, address: AddressEntity, amount: u64) -> (r: Result<(), String>)
        requires
            old(self).wf(),
        ensures
            final(self).wf(),
            final(self).spec_next_id() == old(self).spec_next_id(),
            match r {
                Ok(()) => {
                    let k = acct_pos(old(self)@, address.public_key@);
                    &&& has_acct(old(self)@, address.public_key@)
                    &&& old(self)@[k].balance >= amount
                    &&& final(self)@ == old(self)@.update(
                        k,
                        AddressView {
                            balance: (old(self)@[k].balance - amount) as u64,
                            updated_at: address.updated_at,
                            ..old(self)@[k]
                        },
                    )
                },
                Err(_) => {
                    &&& !has_acct(old(self)@, address.public_key@) || acct_balance(
                        old(self)@,
                        address.public_key@,
                    ) < amount
                    &&& final(self)@ == old(self)@
                },
            },
    {
        let n = self.items.len();
        for i in 0..n
            invariant
                n == self.items@.len(),
                self@.len() == n,
                self.wf(),
                self@ == old(self)@,
                self.spec_next_id() == old(self).spec_next_id(),
                forall|j: int| 0 <= j < i ==> (#[trigger] self@[j]).public_key
                    != address.public_key@,
        {
            if self.items[i].public_key == address.public_key {
                proof {
                    lemma_first_match(self@, by_key(address.public_key@));
                    assert(by_key(address.public_key@)(self@[i as int]));
                    assert(acct_pos(self@, address.public_key@) == i);
                }
                let b = self.items[i].balance;
                if b < amount {
                    return Err(String::from_str("insufficient balance"));
                }
                self.items[i].balance = b - amount;
                self.items[i].updated_at = address.updated_at;
                proof {
                    assert(final(self)@ =~= old(self)@.update(
                        i as int,
                        AddressView {
                            balance: (old(self)@[i as int].balance - amount) as u64,
                            updated_at: address.updated_at,
                            ..old(self)@[i as int]
                        },
                    ));
                }
                return Ok(());
            }
        }
        proof {
            lemma_first_match(self@, by_key(address.public_key@));
        }
        Err(String::from_str("withdraw not found"))
    }
}

} // verus!
