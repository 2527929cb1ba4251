//! The engine: all accounts, all stored transactions, and the rules by
//! which a record changes them.

use std::collections::hash_map::Values;
use std::collections::HashMap;
use vstd::prelude::*;
use vstd::std_specs::hash::{axiom_spec_values_iter, spec_values_iter};
use vstd::std_specs::iter::IteratorSpec;
use vstd::std_specs::convert::FromSpec;
use crate::account::{Account, AccountSer};
use crate::error::Error;
use crate::transaction::{Event, Received, State, Transaction, Tx};

verus! {

/// What an engine holds, as two maps: the account of each client that has
/// one, and each stored transaction under its id.
pub ghost struct Ledger {
    pub accounts: Map<u32, Account>,
    pub transactions: Map<u32, Transaction>,
}

impl Ledger {
    /// The ledger of a new engine.
    pub open spec fn empty() -> Ledger {
        Ledger { accounts: Map::empty(), transactions: Map::empty() }
    }

    /// What every ledger of an engine satisfies: an account stands under
    /// its client's id; a stored transaction stands under its own id, is a
    /// deposit or a withdrawal with an amount, has been executed, and
    /// belongs to a client that has an account; a withdrawal is never under
    /// dispute; and the account of a transaction that was charged back is
    /// locked.
    pub open spec fn wf(self) -> bool {
        &&& forall|c: u32| #[trigger]
            self.accounts.contains_key(c) ==> self.accounts[c].id == c
        &&& forall|id: u32| #[trigger]
            self.transactions.contains_key(id) ==> {
                let t = self.transactions[id];
                &&& t.id == id
                &&& t.moves_money()
                &&& t.amount is Some
                &&& (t.state == State::Executed || t.state == State::Disputed || t.state
                    == State::Reverted)
                &&& self.accounts.contains_key(t.client)
                &&& t.ty == Some(Tx::Withdrawal) ==> t.state == State::Executed
                &&& t.state == State::Reverted ==> self.accounts[t.client].locked
            }
    }

    /// The account of `client`: the empty account where the client has
    /// none yet.
    pub open spec fn account(self, client: u32) -> Account {
        if self.accounts.contains_key(client) {
            self.accounts[client]
        } else {
            Account::spec_new(client)
        }
    }

    /// The ledger with `account` as the account of `client` and `tx` stored
    /// under `id`.
    pub open spec fn with(self, client: u32, account: Account, id: u32, tx: Transaction) -> Ledger {
        Ledger {
            accounts: self.accounts.insert(client, account),
            transactions: self.transactions.insert(id, tx),
        }
    }

    /// What a deposit or withdrawal `tx` of `amount` makes of the account
    /// that it names.
    pub open spec fn moved(self, tx: Transaction, amount: u64) -> Result<Account, Error> {
        if tx.ty == Some(Tx::Deposit) {
            self.account(tx.client).deposited(amount)
        } else {
            self.account(tx.client).withdrawn(amount)
        }
    }

    /// The ledger after the deposit or withdrawal `tx`, or why `tx` is
    /// declined: it must reach `Executed` from the state it comes in, its
    /// id must be new, it must name an amount, and the account must take
    /// it.
    pub open spec fn transact(self, tx: Transaction) -> Result<Ledger, Error> {
        if tx.state.spec_on(Event::Execute) != State::Executed {
            Err(Error::IllegalTransition)
        } else if self.transactions.contains_key(tx.id) {
            Err(Error::DuplicateId)
        } else {
            match tx.amount {
                None => Err(Error::Validation),
                Some(amount) => match self.moved(tx, amount) {
                    Err(e) => Err(e),
                    Ok(account) => Ok(
                        self.with(tx.client, account, tx.id, tx.in_state(State::Executed)),
                    ),
                },
            }
        }
    }

    /// What `event` on a transaction of `amount` makes of `account`.
    pub open spec fn settled(account: Account, event: Event, amount: u64) -> Result<
        Account,
        Error,
    > {
        match event {
            Event::Dispute => account.holding(amount),
            Event::Resolve => account.released(amount),
            _ => account.charged_back(amount),
        }
    }

    /// The ledger after `event` on the stored transaction that the record
    /// `tx` names, or why it is declined: the transaction must be stored,
    /// belong to the client that `tx` names, be a deposit, be moved by
    /// `event`, and the account must take the change.
    pub open spec fn react(self, tx: Transaction, event: Event) -> Result<Ledger, Error> {
        if !self.transactions.contains_key(tx.id) {
            Err(Error::NotFound)
        } else {
            let stored = self.transactions[tx.id];
            if stored.client != tx.client {
                Err(Error::OwnershipMismatch)
            } else if stored.ty != Some(Tx::Deposit) {
                Err(Error::IllegalTransition)
            } else if !stored.state.moved_by(event) {
                Err(Error::IllegalTransition)
            } else {
                match stored.amount {
                    None => Err(Error::Validation),
                    Some(amount) => match Ledger::settled(
                        self.account(stored.client),
                        event,
                        amount,
                    ) {
                        Err(e) => Err(e),
                        Ok(account) => Ok(
                            self.with(stored.client, account, tx.id, stored.after(event)),
                        ),
                    },
                }
            }
        }
    }

    /// The ledger after the record `tx`, or why `tx` is declined.
    pub open spec fn step(self, tx: Transaction) -> Result<Ledger, Error> {
        match tx.ty {
            Some(Tx::Deposit) | Some(Tx::Withdrawal) => self.transact(tx),
            Some(Tx::Dispute) => self.react(tx, Event::Dispute),
            Some(Tx::Resolve) => self.react(tx, Event::Resolve),
            Some(Tx::Chargeback) => self.react(tx, Event::Revert),
            None => Err(Error::Validation),
        }
    }

    /// The ledger after the record `tx`: unchanged where `tx` is declined.
    pub open spec fn apply(self, tx: Transaction) -> Ledger {
        match self.step(tx) {
            Ok(next) => next,
            Err(_) => self,
        }
    }

    /// The ledger after the record `tx` is loaded and applied. A record of
    /// the wrong shape is not applied.
    pub open spec fn load(self, tx: Transaction) -> Ledger {
        if tx.well_shaped() {
            self.apply(tx.in_state(State::Received))
        } else {
            self
        }
    }

    /// The ledger after `records` are loaded and applied in their order.
    pub open spec fn run(self, records: Seq<Transaction>) -> Ledger
        decreases records.len(),
    {
        if records.len() == 0 {
            self
        } else {
            self.run(records.drop_last()).load(records.last())
        }
    }

    /// Whether `row` is the row of an account of this ledger.
    pub open spec fn has_row(self, row: AccountSer) -> bool {
        exists|c: u32| #[trigger]
            self.accounts.contains_key(c) && row == AccountSer::from_spec(self.accounts[c])
    }

    /// Whether `rows` reports this ledger: as many rows as accounts, each
    /// row that of an account, and each account with a row.
    pub open spec fn reported(self, rows: Seq<AccountSer>) -> bool {
        &&& rows.len() == self.accounts.len()
        &&& forall|i: int| 0 <= i < rows.len() ==> self.has_row(#[trigger] rows[i])
        &&& forall|c: u32| #[trigger]
            self.accounts.contains_key(c) ==> rows.contains(
                AccountSer::from_spec(self.accounts[c]),
            )
    }

    /// A step keeps a ledger well formed.
    pub proof fn lemma_step_wf(self, tx: Transaction)
        requires
            self.wf(),
        ensures
            self.apply(tx).wf(),
    {
        match self.step(tx) {
            Ok(next) => {
                assert(next.wf());
            },
            Err(_) => {},
        }
    }

    /// Loading records keeps a ledger well formed.
    pub proof fn lemma_run_wf(self, records: Seq<Transaction>)
        requires
            self.wf(),
        ensures
            self.run(records).wf(),
        decreases records.len(),
    {
        if records.len() > 0 {
            self.lemma_run_wf(records.drop_last());
            self.run(records.drop_last()).lemma_step_wf(
                records.last().in_state(State::Received),
            );
        }
    }
}

/// The payments engine.
#[derive(Debug)]
pub struct Engine {
    accounts: HashMap<u32, Account>,
    transactions: HashMap<u32, Transaction>,
}

impl View for Engine {
    type V = Ledger;

    closed spec fn view(&self) -> Ledger {
        Ledger { accounts: self.accounts@, transactions: self.transactions@ }
    }
}

impl Default for Engine {
    fn default() -> (e: Engine)
        ensures
            e@ == Ledger::empty(),
            e@.wf(),
    {
        Engine::new()
    }
}

impl Engine {
    /// Creates an engine without accounts or transactions.
    pub fn new() -> (e: Engine)
        ensures
            e@ == Ledger::empty(),
            e@.wf(),
    {
        Engine { accounts: HashMap::new(), transactions: HashMap::new() }
    }

    /// Applies the record `tx`. A record that is declined leaves the engine
    /// as it was.
    pub fn process(&mut self, tx: Transaction) -> (r: Result<(), Error>)
        ensures
            match old(self)@.step(tx) {
                Ok(next) => final(self)@ == next && r == Ok::<(), Error>(()),
                Err(e) => final(self)@ == old(self)@ && r == Err::<(), Error>(e),
            },
            old(self)@.wf() ==> final(self)@.wf(),
    {
        proof {
            if old(self)@.wf() {
                old(self)@.lemma_step_wf(tx);
            }
        }
        match tx.ty {
            Some(Tx::Deposit) => self.transact(tx),
            Some(Tx::Withdrawal) => self.transact(tx),
            Some(Tx::Dispute) => self.react(&tx, Event::Dispute),
            Some(Tx::Resolve) => self.react(&tx, Event::Resolve),
            Some(Tx::Chargeback) => self.react(&tx, Event::Revert),
            None => Err(Error::Validation),
        }
    }

    /// Loads and applies `records` in their order, and returns one row for
    /// each account. A record that is declined is passed over.
    pub fn run(&mut self, records: Vec<Transaction>) -> (rows: Vec<AccountSer>)
        ensures
            final(self)@ == old(self)@.run(records@),
            final(self)@.reported(rows@),
            old(self)@.wf() ==> final(self)@.wf(),
    {
        let mut i: usize = 0;
        while i < records.len()
            invariant
                i <= records.len(),
                self@ == old(self)@.run(records@.take(i as int)),
            decreases records.len() - i,
        {
            proof {
                assert(records@.take(i + 1).drop_last() =~= records@.take(i as int));
            }
            let mut tx = records[i];
            if tx.init(Box::new(Received)).is_ok() {
                let _ = self.process(tx);
            }
            i += 1;
        }
        proof {
            assert(records@.take(i as int) =~= records@);
            if old(self)@.wf() {
                old(self)@.lemma_run_wf(records@);
            }
        }
        self.snapshot()
    }

    /// Executes the deposit or withdrawal `tx` and stores it.
    fn transact(&mut self, tx: Transaction) -> (r: Result<(), Error>)
        requires
            tx.moves_money(),
        ensures
            match old(self)@.transact(tx) {
                Ok(next) => final(self)@ == next && r == Ok::<(), Error>(()),
                Err(e) => final(self)@ == old(self)@ && r == Err::<(), Error>(e),
            },
    {
        let mut tx = tx;
        tx.execute();
        if tx.state() != State::Executed {
            return Err(Error::IllegalTransition);
        }
        if self.transactions.contains_key(&tx.id) {
            return Err(Error::DuplicateId);
        }
        let amount = match tx.amount {
            Some(amount) => amount,
            None => {
                return Err(Error::Validation);
            },
        };
        let mut account = self.get_or_create_account(tx.client);
        let moved = match tx.ty {
            Some(Tx::Deposit) => account.deposit(amount),
            _ => account.withdraw(amount),
        };
        match moved {
            Ok(_) => {
                self.accounts.insert(tx.client, account);
                self.transactions.insert(tx.id, tx);
                Ok(())
            },
            Err(e) => Err(e),
        }
    }

    /// Applies `event` to the stored transaction that the record `tx`
    /// names, and to its account.
    fn react(&mut self, tx: &Transaction, event: Event) -> (r: Result<(), Error>)
        requires
            event != Event::Execute,
        ensures
            match old(self)@.react(*tx, event) {
                Ok(next) => final(self)@ == next && r == Ok::<(), Error>(()),
                Err(e) => final(self)@ == old(self)@ && r == Err::<(), Error>(e),
            },
    {
        let mut stored = match self.transactions.get(&tx.id) {
            Some(stored) => *stored,
            None => {
                return Err(Error::NotFound);
            },
        };
        if stored.client != tx.client {
            return Err(Error::OwnershipMismatch);
        }
        match stored.ty {
            Some(Tx::Deposit) => {},
            _ => {
                return Err(Error::IllegalTransition);
            },
        }
        let before = stored.state();
        let target = match event {
            Event::Dispute => {
                stored.dispute();
                State::Disputed
            },
            Event::Resolve => {
                stored.resolve();
                State::Executed
            },
            _ => {
                stored.revert();
                State::Reverted
            },
        };
        if stored.state() != target || before == target {
            return Err(Error::IllegalTransition);
        }
        let amount = match stored.amount {
            Some(amount) => amount,
            None => {
                return Err(Error::Validation);
            },
        };
        let mut account = self.get_or_create_account(stored.client);
        let settled = match event {
            Event::Dispute => account.hold(amount),
            Event::Resolve => account.release(amount),
            _ => account.chargeback(amount),
        };
        match settled {
            Ok(_) => {
                self.accounts.insert(stored.client, account);
                self.transactions.insert(tx.id, stored);
                Ok(())
            },
            Err(e) => Err(e),
        }
    }

    /// Returns the account of client `id`: an empty one where the client
    /// has none yet.
    fn get_or_create_account(&self, id: u32) -> (a: Account)
        ensures
            a == self@.account(id),
    {
        match self.accounts.get(&id) {
            Some(a) => *a,
            None => Account::new(id),
        }
    }

    /// Returns the accounts, each once, in no particular order.
    pub fn accounts(&self) -> (r: Values<'_, u32, Account>)
        ensures
            IteratorSpec::remaining(&r).unref().to_set() == self@.accounts.values(),
            IteratorSpec::remaining(&r).len() == self@.accounts.len(),
    {
        broadcast use axiom_spec_values_iter;

        self.accounts.values()
    }

    /// Returns the stored transactions, each once, in no particular order.
    pub fn transactions(&self) -> (r: Values<'_, u32, Transaction>)
        ensures
            IteratorSpec::remaining(&r).unref().to_set() == self@.transactions.values(),
            IteratorSpec::remaining(&r).len() == self@.transactions.len(),
    {
        broadcast use axiom_spec_values_iter;

        self.transactions.values()
    }

    /// Returns one row for each account, in no particular order.
    pub fn snapshot(&self) -> (rows: Vec<AccountSer>)
        ensures
            self@.reported(rows@),
    {
        broadcast use axiom_spec_values_iter;

        let ghost all = spec_values_iter(&self.accounts).remaining().unref();
        let mut rows: Vec<AccountSer> = Vec::new();
        for a in it: self.accounts.values()
            invariant
                it.seq().unref() == all,
                rows.len() == it.index(),
                forall|i: int|
                    0 <= i < rows.len() ==> #[trigger] rows[i] == AccountSer::from_spec(all[i]),
        {
            rows.push(AccountSer::from(*a));
        }
        proof {
            let ledger = self@;
            let accounts = ledger.accounts;
            let rows = rows@;
            assert(all.to_set() == accounts.values());
            assert(all.len() == accounts.dom().len());
            assert forall|i: int| 0 <= i < rows.len() implies ledger.has_row(
                #[trigger] rows[i],
            ) by {
                assert(all.to_set().contains(all[i]));
                assert(accounts.contains_value(all[i]));
            }
            assert forall|c: u32| #[trigger] accounts.contains_key(c) implies rows.contains(
                AccountSer::from_spec(accounts[c]),
            ) by {
                assert(accounts.contains_value(accounts[c]));
                assert(all.to_set().contains(accounts[c]));
                let i = choose|i: int| 0 <= i < all.len() && all[i] == accounts[c];
                assert(rows[i] == AccountSer::from_spec(all[i]));
            }
        }
        rows
    }

    /// Returns the account of client `id`, where there is one.
    pub fn get_account(&self, id: &u32) -> (r: Option<&Account>)
        ensures
            match r {
                Some(a) => self@.accounts.contains_key(*id) && *a == self@.accounts[*id],
                None => !self@.accounts.contains_key(*id),
            },
    {
        self.accounts.get(id)
    }
}

} // verus!
