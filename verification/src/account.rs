//! The ledger of one client.

use vstd::prelude::*;
use vstd::std_specs::convert::FromSpecImpl;
use crate::error::Error;

verus! {

/// A client's account. Amounts are counted in ten-thousandths of a unit of
/// currency.
#[derive(Debug, Copy, Clone, PartialEq, Eq, Structural)]
pub struct Account {
    /// Client id, one account per client.
    pub id: u32,
    /// All funds of the client, held ones included.
    pub total: u64,
    /// Funds held under dispute.
    pub held: u64,
    /// Set by a chargeback. A locked account declines every operation.
    pub locked: bool,
}

impl Default for Account {
    fn default() -> (a: Account)
        ensures
            a == Account::spec_new(0),
    {
        Account::new(0)
    }
}

impl Account {
    /// The empty, unlocked account of client `id`.
    pub open spec fn spec_new(id: u32) -> Account {
        Account { id, total: 0, held: 0, locked: false }
    }

    /// Funds that are not held: `total - held`, and zero where more is held
    /// than the account owns.
    pub open spec fn spec_available(&self) -> u64 {
        if self.total >= self.held {
            (self.total - self.held) as u64
        } else {
            0
        }
    }

    /// The account after a deposit of `amount`, or why it is declined.
    pub open spec fn deposited(self, amount: u64) -> Result<Account, Error> {
        if self.locked {
            Err(Error::LockedAccount)
        } else if self.total + amount > u64::MAX {
            Err(Error::Overflow)
        } else {
            Ok(Account { total: (self.total + amount) as u64, ..self })
        }
    }

    /// The account after a withdrawal of `amount`, or why it is declined.
    pub open spec fn withdrawn(self, amount: u64) -> Result<Account, Error> {
        if self.locked {
            Err(Error::LockedAccount)
        } else if self.spec_available() < amount {
            Err(Error::InsufficientFunds)
        } else {
            Ok(Account { total: (self.total - amount) as u64, ..self })
        }
    }

    /// The account after `amount` more is held, or why that is declined.
    /// The held sum stops at the largest representable amount.
    pub open spec fn holding(self, amount: u64) -> Result<Account, Error> {
        if self.locked {
            Err(Error::LockedAccount)
        } else if self.held + amount > u64::MAX {
            Ok(Account { held: u64::MAX, ..self })
        } else {
            Ok(Account { held: (self.held + amount) as u64, ..self })
        }
    }

    /// The account after `amount` is released, or why that is declined.
    /// The held sum stops at zero.
    pub open spec fn released(self, amount: u64) -> Result<Account, Error> {
        if self.locked {
            Err(Error::LockedAccount)
        } else if self.held < amount {
            Ok(Account { held: 0, ..self })
        } else {
            Ok(Account { held: (self.held - amount) as u64, ..self })
        }
    }

    /// The account after `amount` is charged back, or why that is declined.
    /// Both sums stop at zero, and the account ends locked.
    pub open spec fn charged_back(self, amount: u64) -> Result<Account, Error> {
        if self.locked {
            Err(Error::LockedAccount)
        } else {
            Ok(
                Account {
                    id: self.id,
                    total: if self.total < amount { 0 } else { (self.total - amount) as u64 },
                    held: if self.held < amount { 0 } else { (self.held - amount) as u64 },
                    locked: true,
                },
            )
        }
    }

    /// Creates the empty account of client `id`.
    #[verifier::when_used_as_spec(spec_new)]
    pub fn new(id: u32) -> (a: Account)
        ensures
            a == Account::spec_new(id),
    {
        Account { id, total: 0, held: 0, locked: false }
    }

    /// Returns the available balance.
    #[verifier::when_used_as_spec(spec_available)]
    pub fn available(&self) -> (r: u64)
        ensures
            r == self.spec_available(),
    {
        self.total.saturating_sub(self.held)
    }

    /// Deposits `amount` and returns the new total.
    pub fn deposit(&mut self, amount: u64) -> (r: Result<u64, Error>)
        ensures
            match old(self).deposited(amount) {
                Ok(a) => *final(self) == a && r == Ok::<u64, Error>(a.total),
                Err(e) => *final(self) == *old(self) && r == Err::<u64, Error>(e),
            },
    {
        if self.locked {
            return Err(Error::LockedAccount);
        }
        match self.total.checked_add(amount) {
            Some(t) => {
                self.total = t;
                Ok(t)
            },
            None => Err(Error::Overflow),
        }
    }

    /// Withdraws `amount` and returns the new total. The available balance
    /// goes down by `amount`, or, where it is smaller than `amount`, the
    /// account stays as it is.
    pub fn withdraw(&mut self, amount: u64) -> (r: Result<u64, Error>)
        ensures
            match old(self).withdrawn(amount) {
                Ok(a) => *final(self) == a && r == Ok::<u64, Error>(a.total),
                Err(e) => *final(self) == *old(self) && r == Err::<u64, Error>(e),
            },
            r is Ok ==> final(self).spec_available() == old(self).spec_available() - amount,
            r is Ok <==> !old(self).locked && amount <= old(self).spec_available(),
    {
        if self.locked {
            return Err(Error::LockedAccount);
        }
        if self.available() < amount {
            return Err(Error::InsufficientFunds);
        }
        match self.total.checked_sub(amount) {
            Some(t) => {
                self.total = t;
                Ok(t)
            },
            None => Err(Error::InsufficientFunds),
        }
    }

    /// Holds `amount` and returns the new available balance.
    pub fn hold(&mut self, amount: u64) -> (r: Result<u64, Error>)
        ensures
            match old(self).holding(amount) {
                Ok(a) => *final(self) == a && r == Ok::<u64, Error>(a.spec_available()),
                Err(e) => *final(self) == *old(self) && r == Err::<u64, Error>(e),
            },
    {
        if self.locked {
            return Err(Error::LockedAccount);
        }
        self.held = self.held.saturating_add(amount);
        Ok(self.available())
    }

    /// Releases `amount` and returns the new available balance.
    pub fn release(&mut self, amount: u64) -> (r: Result<u64, Error>)
        ensures
            match old(self).released(amount) {
                Ok(a) => *final(self) == a && r == Ok::<u64, Error>(a.spec_available()),
                Err(e) => *final(self) == *old(self) && r == Err::<u64, Error>(e),
            },
    {
        if self.locked {
            return Err(Error::LockedAccount);
        }
        self.held = self.held.saturating_sub(amount);
        Ok(self.available())
    }

    /// Charges `amount` back, locks the account and returns the new total.
    pub fn chargeback(&mut self, amount: u64) -> (r: Result<u64, Error>)
        ensures
            match old(self).charged_back(amount) {
                Ok(a) => *final(self) == a && r == Ok::<u64, Error>(a.total),
                Err(e) => *final(self) == *old(self) && r == Err::<u64, Error>(e),
            },
    {
        if self.locked {
            return Err(Error::LockedAccount);
        }
        self.total = self.total.saturating_sub(amount);
        self.held = self.held.saturating_sub(amount);
        self.lock();
        Ok(self.total)
    }

    /// Locks the account.
    pub fn lock(&mut self)
        ensures
            *final(self) == (Account { locked: true, ..*old(self) }),
    {
        self.locked = true;
    }

    /// Unlocks the account.
    pub fn unlock(&mut self)
        ensures
            *final(self) == (Account { locked: false, ..*old(self) }),
    {
        self.locked = false;
    }
}

/// One row of the final report: the balances of one client.
#[derive(Debug, Copy, Clone, PartialEq, Eq, Structural)]
pub struct AccountSer {
    pub client: u32,
    pub available: u64,
    pub held: u64,
    pub total: u64,
    pub locked: bool,
}

impl From<Account> for AccountSer {
    fn from(a: Account) -> (row: AccountSer) {
        AccountSer {
            client: a.id,
            available: a.available(),
            held: a.held,
            total: a.total,
            locked: a.locked,
        }
    }
}

impl FromSpecImpl<Account> for AccountSer {
    open spec fn obeys_from_spec() -> bool {
        true
    }

    open spec fn from_spec(a: Account) -> AccountSer {
        AccountSer {
            client: a.id,
            available: a.spec_available(),
            held: a.held,
            total: a.total,
            locked: a.locked,
        }
    }
}

} // verus!
