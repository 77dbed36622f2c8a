//! The native-currency ledger the platform settles payments in: a plain
//! account-to-balance table with checked transfers. The accounting engine
//! reaches it only through `transfer` and `free_balance`.

use vstd::prelude::*;
use crate::store::Table;
use crate::types::{AccountId, Balance};

verus! {

/// Errors of the currency ledger.
#[derive(Clone, Copy, Debug, PartialEq, Eq, Structural)]
pub enum CurrencyError {
    /// The sender's balance does not cover the amount.
    InsufficientBalance,
    /// The receiver's balance would overflow.
    NumOverflow,
}

/// What a transfer does to the balance table: nothing when sender and
/// receiver coincide, otherwise the amount moves, checked both ways.
pub open spec fn spec_currency_transfer(
    bal: Map<u128, u128>,
    from: AccountId,
    to: AccountId,
    amount: Balance,
) -> Result<Map<u128, u128>, CurrencyError> {
    let from_bal = if bal.contains_key(from) {
        bal[from]
    } else {
        0
    };
    let to_bal = if bal.contains_key(to) {
        bal[to]
    } else {
        0
    };
    if from_bal < amount {
        Err(CurrencyError::InsufficientBalance)
    } else if from == to {
        Ok(bal)
    } else if to_bal + amount > u128::MAX {
        Err(CurrencyError::NumOverflow)
    } else {
        Ok(bal.insert(from, (from_bal - amount) as u128).insert(to, (to_bal + amount) as u128))
    }
}

/// The currency ledger.
pub struct Currency {
    balances: Table<u128>,
}

impl View for Currency {
    type V = Map<u128, u128>;

    closed spec fn view(&self) -> Map<u128, u128> {
        self.balances@
    }
}

impl Currency {
    /// The balance of an account, zero when unrecorded.
    pub open spec fn spec_balance(&self, who: AccountId) -> Balance {
        if self@.contains_key(who) {
            self@[who]
        } else {
            0
        }
    }

    pub fn new() -> (r: Self)
        ensures
            r@ == Map::<u128, u128>::empty(),
    {
        Currency { balances: Table::new() }
    }

    /// An identical copy of the ledger; a run of transfers is made on the
    /// copy and committed only when every one of them succeeds.
    pub fn fork(&self) -> (r: Self)
        ensures
            r@ == self@,
    {
        Currency { balances: self.balances.fork() }
    }

    /// The free balance of an account.
    pub fn free_balance(&self, who: AccountId) -> (r: Balance)
        ensures
            r == self.spec_balance(who),
    {
        match self.balances.get(who) {
            Some(b) => *b,
            None => 0,
        }
    }

    /// Writes an account's balance outright (endowment at genesis or in
    /// tests; the engine itself only moves balances with `transfer`).
    pub fn set_balance(&mut self, who: AccountId, amount: Balance)
        ensures
            final(self)@ == old(self)@.insert(who, amount),
    {
        self.balances.insert(who, amount);
    }

    /// Whether `transfer` with these arguments would succeed.
    pub fn can_transfer(&self, from: AccountId, to: AccountId, amount: Balance) -> (r: bool)
        ensures
            r == (spec_currency_transfer(self@, from, to, amount) is Ok),
    {
        let from_bal = self.free_balance(from);
        if from_bal < amount {
            false
        } else if from == to {
            true
        } else {
            let to_bal = self.free_balance(to);
            to_bal <= u128::MAX - amount
        }
    }

    /// Moves `amount` from `from` to `to`; a zero amount always succeeds and
    /// a self-transfer changes nothing.
    pub fn transfer(&mut self, from: AccountId, to: AccountId, amount: Balance) -> (r: Result<
        (),
        CurrencyError,
    >)
        ensures
            match r {
                Ok(()) => spec_currency_transfer(old(self)@, from, to, amount) == Ok::<
                    _,
                    CurrencyError,
                >(final(self)@),
                Err(e) => spec_currency_transfer(old(self)@, from, to, amount) == Err::<
                    Map<u128, u128>,
                    _,
                >(e) && final(self)@ == old(self)@,
            },
    {
        let from_bal = self.free_balance(from);
        if from_bal < amount {
            return Err(CurrencyError::InsufficientBalance);
        }
        if from == to {
            return Ok(());
        }
        let to_bal = self.free_balance(to);
        if to_bal > u128::MAX - amount {
            return Err(CurrencyError::NumOverflow);
        }
        self.balances.insert(from, from_bal - amount);
        self.balances.insert(to, to_bal + amount);
        Ok(())
    }
}

} // verus!
