//! The fungible token ledger the market settles in: balances, allowances
//! and a total supply, with an admin gate on minting and burning.
//!
//! The ledger is a pure state machine; authorization signatures are a host
//! concern, so each operation takes the authenticated caller as a plain
//! argument. The total supply always equals the sum of all balances.

use std::collections::HashMap;
use vstd::prelude::*;

use crate::errors::Error;
use crate::keys::{allowance_key, lemma_allowance_key_injective, spec_allowance_key};
use crate::map_sum::{
    all_nonneg, lemma_element_le_sum, lemma_sum_insert, lemma_sum_nonneg,
    lemma_two_elements_le_sum, sum_values,
};

verus! {

broadcast use vstd::std_specs::hash::group_hash_axioms;

/// The token-ledger contract state.
pub struct PulseToken {
    admin: Option<u64>,
    balances: HashMap<u64, i128>,
    allowances: HashMap<u128, i128>,
    total_supply: i128,
}

impl PulseToken {
    /// The configured admin principal, if any.
    pub closed spec fn spec_admin(self) -> Option<u64> {
        self.admin
    }

    /// The stored balances, by account.
    pub closed spec fn balances_map(self) -> Map<u64, i128> {
        self.balances@
    }

    /// The stored allowances, by packed (owner, spender) key.
    pub closed spec fn allowances_map(self) -> Map<u128, i128> {
        self.allowances@
    }

    /// The recorded total supply.
    pub closed spec fn spec_total_supply(self) -> int {
        self.total_supply as int
    }

    /// An account's balance; zero if no entry is stored.
    pub open spec fn balance_of(self, id: u64) -> int {
        if self.balances_map().contains_key(id) {
            self.balances_map()[id] as int
        } else {
            0
        }
    }

    /// What `spender` may still move out of `owner`'s balance; zero if no
    /// entry is stored.
    pub open spec fn allowance_of(self, owner: u64, spender: u64) -> int {
        if self.allowances_map().contains_key(spec_allowance_key(owner, spender)) {
            self.allowances_map()[spec_allowance_key(owner, spender)] as int
        } else {
            0
        }
    }

    /// The ledger invariant: balances and allowances are non-negative,
    /// and the recorded total supply is the sum of all balances.
    pub open spec fn wf(self) -> bool {
        &&& all_nonneg(self.balances_map())
        &&& all_nonneg(self.allowances_map())
        &&& self.spec_total_supply() == sum_values(self.balances_map())
    }

    /// A fresh ledger: no admin, no balances, no allowances, no supply.
    pub fn new() -> (t: PulseToken)
        ensures
            t.wf(),
            t.spec_admin() is None,
            t.spec_total_supply() == 0,
            t.balances_map() == Map::<u64, i128>::empty(),
            t.allowances_map() == Map::<u128, i128>::empty(),
    {
        let t = PulseToken {
            admin: None,
            balances: HashMap::new(),
            allowances: HashMap::new(),
            total_supply: 0,
        };
        proof {
            assert(t.balances_map().dom() =~= Set::<u64>::empty());
        }
        t
    }

    /// The token's name.
    pub fn name(&self) -> (r: String)
        ensures
            r@ == "PULSE"@,
    {
        "PULSE".to_owned()
    }

    /// The token's ticker symbol.
    pub fn symbol(&self) -> (r: String)
        ensures
            r@ == "PLS"@,
    {
        "PLS".to_owned()
    }

    /// The number of decimal places of the smallest token unit.
    pub fn decimals(&self) -> (r: u32)
        ensures
            r == 18,
    {
        18
    }

    /// Configure the admin principal. May succeed only once.
    pub fn initialize(&mut self, admin: u64) -> (res: Result<(), Error>)
        requires
            old(self).wf(),
        ensures
            final(self).wf(),
            res is Ok <==> old(self).spec_admin() is None,
            res is Err ==> res == Err::<(), Error>(Error::AlreadyInitialized) && *final(self)
                == *old(self),
            res is Ok ==> {
                &&& final(self).spec_admin() == Some(admin)
                &&& final(self).balances_map() == old(self).balances_map()
                &&& final(self).allowances_map() == old(self).allowances_map()
                &&& final(self).spec_total_supply() == old(self).spec_total_supply()
            },
    {
        if self.admin.is_some() {
            return Err(Error::AlreadyInitialized);
        }
        self.admin = Some(admin);
        Ok(())
    }

    /// The outcome `mint` and `burn` decide from the caller: the ledger
    /// must be initialized, the caller must be the admin, and the amount
    /// must be positive.
    pub open spec fn admin_gate_outcome(self, caller: u64, amount: i128) -> Result<(), Error> {
        if self.spec_admin() is None {
            Err(Error::NotInitialized)
        } else if self.spec_admin() != Some(caller) {
            Err(Error::Unauthorized)
        } else if amount <= 0 {
            Err(Error::InvalidAmount)
        } else {
            Ok(())
        }
    }

    /// Mint `amount` new tokens to `to`. Admin only.
    pub fn mint(&mut self, admin: u64, to: u64, amount: i128) -> (res: Result<(), Error>)
        requires
            old(self).wf(),
            old(self).spec_total_supply() + amount <= i128::MAX,
        ensures
            final(self).wf(),
            res == old(self).admin_gate_outcome(admin, amount),
            res is Err ==> *final(self) == *old(self),
            res is Ok ==> {
                &&& final(self).balance_of(to) == old(self).balance_of(to) + amount
                &&& forall|u2: u64|
                    u2 != to ==> #[trigger] final(self).balance_of(u2) == old(self).balance_of(u2)
                &&& final(self).spec_total_supply() == old(self).spec_total_supply() + amount
                &&& final(self).allowances_map() == old(self).allowances_map()
                &&& final(self).spec_admin() == old(self).spec_admin()
            },
    {
        let stored = match self.admin {
            Some(a) => a,
            None => {
                return Err(Error::NotInitialized);
            },
        };
        if admin != stored {
            return Err(Error::Unauthorized);
        }
        if amount <= 0 {
            return Err(Error::InvalidAmount);
        }
        let balance = match self.balances.get(&to) {
            Some(b) => *b,
            None => 0,
        };
        proof {
            if old(self).balances_map().contains_key(to) {
                lemma_element_le_sum(old(self).balances_map(), to);
            }
            lemma_sum_nonneg(old(self).balances_map());
            lemma_sum_insert(old(self).balances_map(), to, (balance + amount) as i128);
        }
        self.balances.insert(to, balance + amount);
        self.total_supply = self.total_supply + amount;
        proof {
            assert(all_nonneg(self.balances_map())) by {
                assert forall|k: u64| #[trigger] self.balances_map().contains_key(k) implies self
                    .balances_map()[k] >= 0 by {
                    if k != to {
                        assert(old(self).balances_map().contains_key(k));
                    }
                }
            }
        }
        Ok(())
    }

    /// Burn `amount` tokens out of `from`'s balance. Admin only; fails
    /// with `InsufficientBalance` if the balance is smaller than the
    /// amount.
    pub fn burn(&mut self, admin: u64, from: u64, amount: i128) -> (res: Result<(), Error>)
        requires
            old(self).wf(),
        ensures
            final(self).wf(),
            res == (match old(self).admin_gate_outcome(admin, amount) {
                Ok(()) => if old(self).balance_of(from) < amount {
                    Err(Error::InsufficientBalance)
                } else {
                    Ok(())
                },
                Err(e) => Err(e),
            }),
            res is Err ==> *final(self) == *old(self),
            res is Ok ==> {
                &&& final(self).balance_of(from) == old(self).balance_of(from) - amount
                &&& forall|u2: u64|
                    u2 != from ==> #[trigger] final(self).balance_of(u2) == old(self).balance_of(
                        u2,
                    )
                &&& final(self).spec_total_supply() == old(self).spec_total_supply() - amount
                &&& final(self).allowances_map() == old(self).allowances_map()
                &&& final(self).spec_admin() == old(self).spec_admin()
            },
    {
        let stored = match self.admin {
            Some(a) => a,
            None => {
                return Err(Error::NotInitialized);
            },
        };
        if admin != stored {
            return Err(Error::Unauthorized);
        }
        if amount <= 0 {
            return Err(Error::InvalidAmount);
        }
        let balance = match self.balances.get(&from) {
            Some(b) => *b,
            None => 0,
        };
        if balance < amount {
            return Err(Error::InsufficientBalance);
        }
        proof {
            lemma_element_le_sum(old(self).balances_map(), from);
            lemma_sum_insert(old(self).balances_map(), from, (balance - amount) as i128);
        }
        self.balances.insert(from, balance - amount);
        self.total_supply = self.total_supply - amount;
        proof {
            assert(all_nonneg(self.balances_map())) by {
                assert forall|k: u64| #[trigger] self.balances_map().contains_key(k) implies self
                    .balances_map()[k] >= 0 by {
                    if k != from {
                        assert(old(self).balances_map().contains_key(k));
                    }
                }
            }
        }
        Ok(())
    }

    /// The outcome `transfer` decides: a positive amount is required, and
    /// the move succeeds exactly when the source balance covers it.
    pub open spec fn transfer_outcome(self, from: u64, amount: i128) -> Result<bool, Error> {
        if amount <= 0 {
            Err(Error::InvalidAmount)
        } else if self.balance_of(from) < amount {
            Ok(false)
        } else {
            Ok(true)
        }
    }

    /// Move `amount` from `from`'s balance to `to`'s. The caller must be
    /// authorized as `from` (a host concern). Returns false, changing
    /// nothing, when the balance is too small. The total supply never
    /// changes.
    pub fn transfer(&mut self, from: u64, to: u64, amount: i128) -> (res: Result<bool, Error>)
        requires
            old(self).wf(),
        ensures
            final(self).wf(),
            res == old(self).transfer_outcome(from, amount),
            res != Ok::<bool, Error>(true) ==> *final(self) == *old(self),
            res == Ok::<bool, Error>(true) ==> {
                &&& from == to ==> final(self).balances_map() == old(self).balances_map()
                &&& from != to ==> {
                    &&& final(self).balance_of(from) == old(self).balance_of(from) - amount
                    &&& final(self).balance_of(to) == old(self).balance_of(to) + amount
                    &&& forall|u2: u64|
                        u2 != from && u2 != to ==> #[trigger] final(self).balance_of(u2) == old(
                            self,
                        ).balance_of(u2)
                }
                &&& final(self).spec_total_supply() == old(self).spec_total_supply()
                &&& final(self).allowances_map() == old(self).allowances_map()
                &&& final(self).spec_admin() == old(self).spec_admin()
            },
    {
        if amount <= 0 {
            return Err(Error::InvalidAmount);
        }
        let from_balance = match self.balances.get(&from) {
            Some(b) => *b,
            None => 0,
        };
        if from_balance < amount {
            return Ok(false);
        }
        proof {
            if to != from {
                self.lemma_move_fits(*old(self), from, to, amount);
            }
            lemma_sum_insert(old(self).balances_map(), from, (from_balance - amount) as i128);
        }
        self.balances.insert(from, from_balance - amount);
        let to_balance = match self.balances.get(&to) {
            Some(b) => *b,
            None => 0,
        };
        proof {
            lemma_sum_insert(self.balances_map(), to, (to_balance + amount) as i128);
        }
        self.balances.insert(to, to_balance + amount);
        proof {
            if from == to {
                assert(self.balances_map() =~= old(self).balances_map());
            }
            assert(all_nonneg(self.balances_map())) by {
                assert forall|k: u64| #[trigger] self.balances_map().contains_key(k) implies self
                    .balances_map()[k] >= 0 by {
                    if k != to && k != from {
                        assert(old(self).balances_map().contains_key(k));
                    }
                }
            }
        }
        Ok(true)
    }

    /// In a consistent ledger, a covered move between distinct accounts
    /// cannot overflow the target balance: source and target balances
    /// together never exceed the total supply.
    proof fn lemma_move_fits(self, prev: Self, from: u64, to: u64, amount: i128)
        requires
            prev.wf(),
            0 < amount <= prev.balance_of(from),
            to != from,
        ensures
            prev.balance_of(to) + amount <= i128::MAX,
    {
        assert(prev.balances_map().contains_key(from));
        if prev.balances_map().contains_key(to) {
            lemma_two_elements_le_sum(prev.balances_map(), to, from);
        } else {
            lemma_element_le_sum(prev.balances_map(), from);
        }
    }

    /// The outcome `transfer_from` decides: a positive amount is
    /// required, and the move succeeds exactly when both the spender's
    /// allowance and the source balance cover it.
    pub open spec fn transfer_from_outcome(
        self,
        spender: u64,
        from: u64,
        amount: i128,
    ) -> Result<bool, Error> {
        if amount <= 0 {
            Err(Error::InvalidAmount)
        } else if self.allowance_of(from, spender) < amount {
            Ok(false)
        } else if self.balance_of(from) < amount {
            Ok(false)
        } else {
            Ok(true)
        }
    }

    /// Move `amount` from `from`'s balance to `to`'s on the strength of
    /// an allowance `from` granted to `spender`, reducing that allowance
    /// by the amount moved. The caller must be authorized as `spender` (a
    /// host concern). The total supply never changes.
    pub fn transfer_from(&mut self, spender: u64, from: u64, to: u64, amount: i128) -> (res: Result<
        bool,
        Error,
    >)
        requires
            old(self).wf(),
        ensures
            final(self).wf(),
            res == old(self).transfer_from_outcome(spender, from, amount),
            res != Ok::<bool, Error>(true) ==> *final(self) == *old(self),
            res == Ok::<bool, Error>(true) ==> {
                &&& from == to ==> final(self).balances_map() == old(self).balances_map()
                &&& from != to ==> {
                    &&& final(self).balance_of(from) == old(self).balance_of(from) - amount
                    &&& final(self).balance_of(to) == old(self).balance_of(to) + amount
                    &&& forall|u2: u64|
                        u2 != from && u2 != to ==> #[trigger] final(self).balance_of(u2) == old(
                            self,
                        ).balance_of(u2)
                }
                &&& final(self).allowance_of(from, spender) == old(self).allowance_of(
                    from,
                    spender,
                ) - amount
                &&& forall|o2: u64, s2: u64|
                    !(o2 == from && s2 == spender) ==> #[trigger] final(self).allowance_of(o2, s2)
                        == old(self).allowance_of(o2, s2)
                &&& final(self).spec_total_supply() == old(self).spec_total_supply()
                &&& final(self).spec_admin() == old(self).spec_admin()
            },
    {
        if amount <= 0 {
            return Err(Error::InvalidAmount);
        }
        let akey = allowance_key(from, spender);
        let allowed = match self.allowances.get(&akey) {
            Some(a) => *a,
            None => 0,
        };
        if allowed < amount {
            return Ok(false);
        }
        let from_balance = match self.balances.get(&from) {
            Some(b) => *b,
            None => 0,
        };
        if from_balance < amount {
            return Ok(false);
        }
        self.allowances.insert(akey, allowed - amount);
        proof {
            if to != from {
                self.lemma_move_fits(*old(self), from, to, amount);
            }
            lemma_sum_insert(old(self).balances_map(), from, (from_balance - amount) as i128);
        }
        self.balances.insert(from, from_balance - amount);
        let to_balance = match self.balances.get(&to) {
            Some(b) => *b,
            None => 0,
        };
        proof {
            lemma_sum_insert(self.balances_map(), to, (to_balance + amount) as i128);
        }
        self.balances.insert(to, to_balance + amount);
        proof {
            if from == to {
                assert(self.balances_map() =~= old(self).balances_map());
            }
            assert forall|o2: u64, s2: u64| !(o2 == from && s2 == spender) implies #[trigger] self
                .allowance_of(o2, s2) == old(self).allowance_of(o2, s2) by {
                if spec_allowance_key(o2, s2) == spec_allowance_key(from, spender) {
                    lemma_allowance_key_injective(o2, s2, from, spender);
                }
            }
            assert(all_nonneg(self.balances_map())) by {
                assert forall|k: u64| #[trigger] self.balances_map().contains_key(k) implies self
                    .balances_map()[k] >= 0 by {
                    if k != to && k != from {
                        assert(old(self).balances_map().contains_key(k));
                    }
                }
            }
            assert(all_nonneg(self.allowances_map())) by {
                assert forall|k: u128| #[trigger] self.allowances_map().contains_key(k)
                    implies self.allowances_map()[k] >= 0 by {
                    if k != spec_allowance_key(from, spender) {
                        assert(old(self).allowances_map().contains_key(k));
                    }
                }
            }
        }
        Ok(true)
    }

    /// Grant `spender` the right to move up to `amount` out of `owner`'s
    /// balance; a zero amount revokes the approval. The caller must be
    /// authorized as `owner` (a host concern).
    pub fn approve(&mut self, owner: u64, spender: u64, amount: i128) -> (res: Result<(), Error>)
        requires
            old(self).wf(),
        ensures
            final(self).wf(),
            res is Ok <==> amount >= 0,
            res is Err ==> res == Err::<(), Error>(Error::InvalidAmount) && *final(self) == *old(
                self,
            ),
            res is Ok ==> {
                &&& final(self).allowance_of(owner, spender) == amount
                &&& forall|o2: u64, s2: u64|
                    !(o2 == owner && s2 == spender) ==> #[trigger] final(self).allowance_of(o2, s2)
                        == old(self).allowance_of(o2, s2)
                &&& final(self).balances_map() == old(self).balances_map()
                &&& final(self).spec_total_supply() == old(self).spec_total_supply()
                &&& final(self).spec_admin() == old(self).spec_admin()
            },
    {
        if amount < 0 {
            return Err(Error::InvalidAmount);
        }
        let akey = allowance_key(owner, spender);
        self.allowances.insert(akey, amount);
        proof {
            assert forall|o2: u64, s2: u64| !(o2 == owner && s2 == spender) implies #[trigger] self
                .allowance_of(o2, s2) == old(self).allowance_of(o2, s2) by {
                if spec_allowance_key(o2, s2) == spec_allowance_key(owner, spender) {
                    lemma_allowance_key_injective(o2, s2, owner, spender);
                }
            }
            assert(all_nonneg(self.allowances_map())) by {
                assert forall|k: u128| #[trigger] self.allowances_map().contains_key(k)
                    implies self.allowances_map()[k] >= 0 by {
                    if k != spec_allowance_key(owner, spender) {
                        assert(old(self).allowances_map().contains_key(k));
                    }
                }
            }
        }
        Ok(())
    }

    /// An account's balance.
    pub fn balance(&self, id: u64) -> (res: i128)
        ensures
            res == self.balance_of(id),
    {
        match self.balances.get(&id) {
            Some(b) => *b,
            None => 0,
        }
    }

    /// What `spender` may still move out of `owner`'s balance.
    pub fn allowance(&self, owner: u64, spender: u64) -> (res: i128)
        ensures
            res == self.allowance_of(owner, spender),
    {
        let akey = allowance_key(owner, spender);
        match self.allowances.get(&akey) {
            Some(a) => *a,
            None => 0,
        }
    }

    /// The total supply: the sum of all balances.
    pub fn total_supply(&self) -> (res: i128)
        ensures
            res == self.spec_total_supply(),
    {
        self.total_supply
    }

    /// The configured admin principal, if any.
    pub fn get_admin(&self) -> (res: Option<u64>)
        ensures
            res == self.spec_admin(),
    {
        self.admin
    }
}

} // verus!
