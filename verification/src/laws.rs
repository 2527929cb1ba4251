//! What holds of every account and of every ledger.

use vstd::prelude::*;
use vstd::std_specs::convert::FromSpec;
use crate::account::{Account, AccountSer};
use crate::engine::Ledger;
use crate::error::Error;
use crate::transaction::{Event, State, Transaction, Tx};

verus! {

/// A withdrawal succeeds exactly when the account is unlocked and the
/// amount is available, and then takes exactly that amount from the total
/// and from the available balance. So the available balance never falls
/// below zero: a withdrawal that would take it there is declined.
pub proof fn lemma_withdraw_available(a: Account, amount: u64)
    ensures
        a.withdrawn(amount) is Ok <==> !a.locked && amount <= a.spec_available(),
        !a.locked && amount > a.spec_available() ==> a.withdrawn(amount) == Err::<Account, Error>(
            Error::InsufficientFunds,
        ),
        a.withdrawn(amount) is Ok ==> {
            let b = a.withdrawn(amount)->Ok_0;
            &&& b.spec_available() == a.spec_available() - amount
            &&& b.total == a.total - amount
            &&& b.held == a.held
            &&& b.id == a.id
            &&& !b.locked
        },
{
}

/// A locked account takes no operation.
pub proof fn lemma_locked_declines(a: Account, amount: u64)
    requires
        a.locked,
    ensures
        a.deposited(amount) == Err::<Account, Error>(Error::LockedAccount),
        a.withdrawn(amount) == Err::<Account, Error>(Error::LockedAccount),
        a.holding(amount) == Err::<Account, Error>(Error::LockedAccount),
        a.released(amount) == Err::<Account, Error>(Error::LockedAccount),
        a.charged_back(amount) == Err::<Account, Error>(Error::LockedAccount),
{
}

/// The account after `amount` is held: as it was where that is declined.
pub open spec fn after_hold(a: Account, amount: u64) -> Account {
    match a.holding(amount) {
        Ok(held) => held,
        Err(_) => a,
    }
}

/// The account after `amount` is released: as it was where that is
/// declined.
pub open spec fn after_release(a: Account, amount: u64) -> Account {
    match a.released(amount) {
        Ok(released) => released,
        Err(_) => a,
    }
}

/// Holding an amount and then releasing it restores the available balance.
///
/// It is stated for the accounts that are locked, and for those on which
/// the held sum, or else the total, stays within `u64::MAX` with the amount
/// added. On the others the held sum stops at `u64::MAX`, the release takes
/// the whole amount from it, and more is available afterwards than before.
/// Where the held sum stays within `u64::MAX` the whole account is
/// restored.
pub proof fn lemma_hold_then_release(a: Account, amount: u64)
    requires
        a.locked || a.held + amount <= u64::MAX || a.total + amount <= u64::MAX,
    ensures
        after_release(after_hold(a, amount), amount).spec_available() == a.spec_available(),
        a.held + amount <= u64::MAX ==> after_release(after_hold(a, amount), amount) == a,
        !a.locked ==> a.holding(amount) is Ok && after_hold(a, amount).released(amount) is Ok,
{
}

/// A chargeback locks the account, so that a second one on the same
/// account is declined.
pub proof fn lemma_chargeback_locks(a: Account, first: u64, second: u64)
    requires
        a.charged_back(first) is Ok,
    ensures
        a.charged_back(first)->Ok_0.locked,
        a.charged_back(first)->Ok_0.charged_back(second) == Err::<Account, Error>(
            Error::LockedAccount,
        ),
{
}

/// A record that is declined changes nothing.
pub proof fn lemma_declined_changes_nothing(l: Ledger, tx: Transaction)
    requires
        l.step(tx) is Err,
    ensures
        l.apply(tx) == l,
{
}

/// After a chargeback that succeeded, a second chargeback of the same
/// transaction is declined and changes nothing.
pub proof fn lemma_chargeback_once(l: Ledger, first: Transaction, second: Transaction)
    requires
        first.ty == Some(Tx::Chargeback),
        second.ty == Some(Tx::Chargeback),
        second.id == first.id,
        l.step(first) is Ok,
    ensures
        l.apply(first).transactions[first.id].state == State::Reverted,
        l.apply(first).step(second) is Err,
        l.apply(first).apply(second) == l.apply(first),
{
}

/// Every record for a client whose account is locked is declined, whatever
/// its kind, and changes nothing.
pub proof fn lemma_locked_client(l: Ledger, tx: Transaction)
    requires
        l.account(tx.client).locked,
    ensures
        l.step(tx) is Err,
        l.apply(tx) == l,
{
}

/// A chargeback that succeeded leaves the account locked, so that every
/// later record for that client is declined.
pub proof fn lemma_chargeback_freezes(l: Ledger, first: Transaction, later: Transaction)
    requires
        first.ty == Some(Tx::Chargeback),
        l.step(first) is Ok,
        later.client == first.client,
    ensures
        l.apply(first).account(first.client).locked,
        l.apply(first).step(later) is Err,
{
    lemma_locked_client(l.apply(first), later);
}

/// A dispute that names no stored transaction, or a stored withdrawal, is
/// declined and changes nothing.
pub proof fn lemma_dispute_needs_deposit(l: Ledger, tx: Transaction)
    requires
        tx.ty == Some(Tx::Dispute),
        !l.transactions.contains_key(tx.id) || l.transactions[tx.id].ty == Some(Tx::Withdrawal),
    ensures
        l.step(tx) is Err,
        !l.transactions.contains_key(tx.id) ==> l.step(tx) == Err::<Ledger, Error>(
            Error::NotFound,
        ),
        l.transactions.contains_key(tx.id) && l.transactions[tx.id].client == tx.client
            ==> l.step(tx) == Err::<Ledger, Error>(Error::IllegalTransition),
        l.apply(tx) == l,
{
}

/// A dispute that is resolved leaves the client with the available balance
/// that it had, and every stored transaction as it was.
///
/// It is stated for the accounts on which holding the amount and releasing
/// it restores the available balance: those where the held sum or the
/// total, with the amount added, stays within `u64::MAX`. Where the held
/// sum does, the whole ledger is as it was.
pub proof fn lemma_dispute_then_resolve(l: Ledger, dispute: Transaction, resolve: Transaction)
    requires
        l.wf(),
        dispute.ty == Some(Tx::Dispute),
        resolve.ty == Some(Tx::Resolve),
        resolve.id == dispute.id,
        resolve.client == dispute.client,
        l.step(dispute) is Ok,
        ({
            let a = l.account(dispute.client);
            let amount = l.transactions[dispute.id].amount->Some_0;
            a.held + amount <= u64::MAX || a.total + amount <= u64::MAX
        }),
    ensures
        l.apply(dispute).step(resolve) is Ok,
        l.apply(dispute).apply(resolve).account(dispute.client).spec_available() == l.account(
            dispute.client,
        ).spec_available(),
        l.apply(dispute).apply(resolve).transactions == l.transactions,
        l.account(dispute.client).held + l.transactions[dispute.id].amount->Some_0 <= u64::MAX
            ==> l.apply(dispute).apply(resolve) == l,
{
    let stored = l.transactions[dispute.id];
    let amount = stored.amount->Some_0;
    let a = l.account(dispute.client);
    lemma_hold_then_release(a, amount);
    let after = l.apply(dispute).apply(resolve);
    assert(stored.after(Event::Dispute).after(Event::Resolve) == stored);
    assert(after.transactions =~= l.transactions);
    if a.held + amount <= u64::MAX {
        assert(after.accounts =~= l.accounts);
    }
}

/// In a report of a well-formed ledger each account appears exactly once:
/// every row is the row of the client that it names, and no two rows name
/// the same client.
pub proof fn lemma_report_once(l: Ledger, rows: Seq<AccountSer>)
    requires
        l.wf(),
        l.reported(rows),
    ensures
        forall|i: int|
            0 <= i < rows.len() ==> l.accounts.contains_key((#[trigger] rows[i]).client)
                && rows[i] == AccountSer::from_spec(l.accounts[rows[i].client]),
        forall|i: int, j: int|
            0 <= i < j < rows.len() ==> (#[trigger] rows[i]).client != (#[trigger] rows[j]).client,
{
    let clients = rows.map_values(|row: AccountSer| row.client);
    assert forall|i: int| 0 <= i < rows.len() implies l.accounts.contains_key(
        (#[trigger] rows[i]).client,
    ) && rows[i] == AccountSer::from_spec(l.accounts[rows[i].client]) by {
        assert(l.has_row(rows[i]));
    }
    assert forall|c: u32| l.accounts.dom().contains(c) implies clients.to_set().contains(c) by {
        assert(l.accounts.contains_key(c));
        let row = AccountSer::from_spec(l.accounts[c]);
        assert(rows.contains(row));
        let i = choose|i: int| 0 <= i < rows.len() && rows[i] == row;
        assert(clients[i] == c);
    }
    assert forall|c: u32| clients.to_set().contains(c) implies l.accounts.dom().contains(c) by {
        let i = choose|i: int| 0 <= i < clients.len() && clients[i] == c;
        assert(l.accounts.contains_key(rows[i].client));
    }
    assert(clients.to_set() =~= l.accounts.dom());
    clients.lemma_no_dup_set_cardinality();
    assert forall|i: int, j: int| 0 <= i < j < rows.len() implies (#[trigger] rows[i]).client != (
    #[trigger] rows[j]).client by {
        assert(clients[i] != clients[j]);
    }
}

/// An event is accepted only in the one state that it leads on from:
/// a dispute on an executed transaction, a resolve and a chargeback on a
/// disputed one.
pub proof fn lemma_event_source(state: State, event: Event)
    ensures
        state.moved_by(event) <==> match event {
            Event::Execute => state == State::Received,
            Event::Dispute => state == State::Executed,
            Event::Resolve => state == State::Disputed,
            Event::Revert => state == State::Disputed,
        },
        state.moved_by(event) ==> state.spec_on(event) == match event {
            Event::Execute => State::Executed,
            Event::Dispute => State::Disputed,
            Event::Resolve => State::Executed,
            Event::Revert => State::Reverted,
        },
{
}

/// Whether `records` holds deposits only.
pub open spec fn deposits_only(records: Seq<Transaction>) -> bool {
    forall|i: int| 0 <= i < records.len() ==> (#[trigger] records[i]).ty == Some(Tx::Deposit)
}

/// Whether the record at `i` counts: it has the shape of its kind, and no
/// record of that shape before it carries the same id.
pub open spec fn counts(records: Seq<Transaction>, i: int) -> bool {
    &&& records[i].well_shaped()
    &&& forall|j: int|
        0 <= j < i && (#[trigger] records[j]).well_shaped() ==> records[j].id != records[i].id
}

/// The sum of the amounts of the records of `client` that count.
pub open spec fn deposited_sum(records: Seq<Transaction>, client: u32) -> nat
    decreases records.len(),
{
    if records.len() == 0 {
        0
    } else {
        let before = deposited_sum(records.drop_last(), client);
        let last = records.last();
        if last.client == client && counts(records, records.len() - 1) && last.amount is Some {
            before + last.amount->Some_0 as nat
        } else {
            before
        }
    }
}

/// What deposits alone make of an empty ledger, as long as no balance
/// would pass `u64::MAX`: each client owns the sum of its deposits that
/// count, nothing is held and nobody is locked; and an id is stored exactly
/// when a record of the right shape carries it.
proof fn lemma_deposits_ledger(records: Seq<Transaction>)
    requires
        deposits_only(records),
        forall|c: u32| deposited_sum(records, c) <= u64::MAX,
    ensures
        forall|c: u32|
            {
                let a = #[trigger] Ledger::empty().run(records).account(c);
                a.total == deposited_sum(records, c) && a.held == 0 && !a.locked
            },
        forall|id: u32|
            #[trigger] Ledger::empty().run(records).transactions.contains_key(id) <==> exists|
                j: int,
            |
                0 <= j < records.len() && (#[trigger] records[j]).well_shaped() && records[j].id
                    == id,
    decreases records.len(),
{
    let after = Ledger::empty().run(records);
    if records.len() == 0 {
    } else {
        let rest = records.drop_last();
        let last = records.last();
        let n = records.len() - 1;
        let before = Ledger::empty().run(rest);
        assert(deposits_only(rest)) by {
            assert forall|i: int| 0 <= i < rest.len() implies (#[trigger] rest[i]).ty == Some(
                Tx::Deposit,
            ) by {
                assert(rest[i] == records[i]);
            }
        }
        assert(forall|c: u32| deposited_sum(rest, c) <= deposited_sum(records, c));
        lemma_deposits_ledger(rest);
        assert(after == before.load(last));
        assert(last == records[n]);
        assert(last.ty == Some(Tx::Deposit));
        let stored = before.transactions.contains_key(last.id);
        assert(stored <==> exists|j: int|
            0 <= j < n && (#[trigger] records[j]).well_shaped() && records[j].id == last.id) by {
            if stored {
                let j = choose|j: int|
                    0 <= j < rest.len() && (#[trigger] rest[j]).well_shaped() && rest[j].id
                        == last.id;
                assert(records[j] == rest[j]);
            }
            if exists|j: int|
                0 <= j < n && (#[trigger] records[j]).well_shaped() && records[j].id == last.id {
                let j = choose|j: int|
                    0 <= j < n && (#[trigger] records[j]).well_shaped() && records[j].id
                        == last.id;
                assert(rest[j] == records[j]);
            }
        }
        assert(counts(records, n) <==> last.well_shaped() && !stored);
        assert forall|c: u32|
            {
                let a = #[trigger] after.account(c);
                a.total == deposited_sum(records, c) && a.held == 0 && !a.locked
            } by {
            let b = before.account(c);
            assert(b.total == deposited_sum(rest, c) && b.held == 0 && !b.locked);
            let own = before.account(last.client);
            assert(own.total == deposited_sum(rest, last.client));
        }
        assert forall|id: u32| #[trigger]
            after.transactions.contains_key(id) <==> exists|j: int|
                0 <= j < records.len() && (#[trigger] records[j]).well_shaped() && records[j].id
                    == id by {
            if before.transactions.contains_key(id) {
                let j = choose|j: int|
                    0 <= j < rest.len() && (#[trigger] rest[j]).well_shaped() && rest[j].id == id;
                assert(records[j] == rest[j]);
            }
            if exists|j: int|
                0 <= j < records.len() && (#[trigger] records[j]).well_shaped() && records[j].id
                    == id {
                let j = choose|j: int|
                    0 <= j < records.len() && (#[trigger] records[j]).well_shaped()
                        && records[j].id == id;
                if j < n {
                    assert(rest[j] == records[j]);
                }
            }
        }
    }
}

/// After deposits alone, each client owns the sum of the amounts of its
/// deposits, where of several deposits with one id only the first counts.
///
/// It is stated for the sequences on which no client's sum passes
/// `u64::MAX`: a deposit that would pass it is declined.
pub proof fn lemma_deposits_sum(records: Seq<Transaction>, client: u32)
    requires
        deposits_only(records),
        forall|c: u32| deposited_sum(records, c) <= u64::MAX,
    ensures
        Ledger::empty().run(records).account(client).total == deposited_sum(records, client),
        Ledger::empty().run(records).account(client).held == 0,
        !Ledger::empty().run(records).account(client).locked,
{
    lemma_deposits_ledger(records);
}

} // verus!
