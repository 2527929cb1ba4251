//! Records and their lifecycle.
//!
//! A deposit or a withdrawal is a transaction: it moves money and is kept by
//! the engine. A dispute, a resolve and a chargeback are events: each names
//! an earlier transaction by its id and moves that transaction through its
//! lifecycle.

use vstd::prelude::*;
use crate::error::Error;

verus! {

/// The kinds of record.
#[derive(Debug, Copy, Clone, PartialEq, Eq, Structural)]
pub enum Tx {
    /// A credit to the client's account.
    Deposit,
    /// A debit from the client's account.
    Withdrawal,
    /// A claim that a transaction was made in error: its amount is held.
    Dispute,
    /// The end of a dispute in the transaction's favour: the amount is
    /// released.
    Resolve,
    /// The end of a dispute against the transaction: the amount is taken
    /// back and the account locked.
    Chargeback,
}

/// Where a transaction stands in its lifecycle.
#[derive(Debug, Copy, Clone, PartialEq, Eq, Structural)]
pub enum State {
    /// Loaded, not yet applied.
    Received,
    /// Applied to the account.
    Executed,
    /// Under dispute.
    Disputed,
    /// Charged back. Nothing leads on from here.
    Reverted,
    /// Not loaded. Nothing leads on from here.
    Undefined,
}

/// What can happen to a transaction.
#[derive(Debug, Copy, Clone, PartialEq, Eq, Structural)]
pub enum Event {
    Execute,
    Dispute,
    Resolve,
    Revert,
}

impl State {
    /// The state that `event` leads to from here. An event that does not
    /// apply leaves the state as it is.
    pub open spec fn spec_on(self, event: Event) -> State {
        match (self, event) {
            (State::Received, Event::Execute) => State::Executed,
            (State::Executed, Event::Dispute) => State::Disputed,
            (State::Disputed, Event::Resolve) => State::Executed,
            (State::Disputed, Event::Revert) => State::Reverted,
            _ => self,
        }
    }

    /// Whether `event` applies here, that is, leads to another state.
    pub open spec fn moved_by(self, event: Event) -> bool {
        self.spec_on(event) != self
    }

    /// Returns the state that `event` leads to from here.
    #[verifier::when_used_as_spec(spec_on)]
    pub fn on(self, event: Event) -> (next: State)
        ensures
            next == self.spec_on(event),
    {
        match (self, event) {
            (State::Received, Event::Execute) => State::Executed,
            (State::Executed, Event::Dispute) => State::Disputed,
            (State::Disputed, Event::Resolve) => State::Executed,
            (State::Disputed, Event::Revert) => State::Reverted,
            _ => self,
        }
    }
}

/// A state object: a value that names one state of the lifecycle.
pub trait TxState {
    /// The state that this object names.
    spec fn spec_state(&self) -> State;

    /// Returns the state that this object names.
    fn state(&self) -> (s: State)
        ensures
            s == self.spec_state(),
    ;
}

/// Names [`State::Received`].
#[derive(Debug, Default)]
pub struct Received;

/// Names [`State::Executed`].
#[derive(Debug)]
pub struct Executed;

/// Names [`State::Disputed`].
#[derive(Debug)]
pub struct Disputed;

/// Names [`State::Reverted`].
#[derive(Debug)]
pub struct Reverted;

impl TxState for Received {
    open spec fn spec_state(&self) -> State {
        State::Received
    }

    fn state(&self) -> (s: State) {
        State::Received
    }
}

impl TxState for Executed {
    open spec fn spec_state(&self) -> State {
        State::Executed
    }

    fn state(&self) -> (s: State) {
        State::Executed
    }
}

impl TxState for Disputed {
    open spec fn spec_state(&self) -> State {
        State::Disputed
    }

    fn state(&self) -> (s: State) {
        State::Disputed
    }
}

impl TxState for Reverted {
    open spec fn spec_state(&self) -> State {
        State::Reverted
    }

    fn state(&self) -> (s: State) {
        State::Reverted
    }
}

/// One record of the input.
#[derive(Debug, Copy, Clone)]
pub struct Transaction {
    /// Transaction id. An event carries the id of the transaction that it
    /// is about.
    pub id: u32,
    /// Kind of record.
    pub ty: Option<Tx>,
    /// The client that the record claims to belong to.
    pub client: u32,
    /// Amount in stored units. Events carry none that is read.
    pub amount: Option<u64>,
    /// Where the transaction stands.
    pub state: State,
}

impl Default for Transaction {
    fn default() -> (t: Transaction)
        ensures
            t == (Transaction {
                id: 0,
                ty: None,
                client: 0,
                amount: None,
                state: State::Undefined,
            }),
    {
        Transaction { id: 0, ty: None, client: 0, amount: None, state: State::Undefined }
    }
}

impl Transaction {
    /// Whether the record moves money.
    pub open spec fn moves_money(self) -> bool {
        self.ty == Some(Tx::Deposit) || self.ty == Some(Tx::Withdrawal)
    }

    /// Whether the record has the shape that its kind asks for: a deposit
    /// or a withdrawal names an amount above zero.
    pub open spec fn well_shaped(self) -> bool {
        self.moves_money() ==> self.amount is Some && self.amount != Some(0u64)
    }

    /// The record in state `state`.
    pub open spec fn in_state(self, state: State) -> Transaction {
        Transaction { state, ..self }
    }

    /// The record after `event`.
    pub open spec fn after(self, event: Event) -> Transaction {
        self.in_state(self.state.spec_on(event))
    }

    /// Loads the record: puts it in the state that `state` names and checks
    /// its shape.
    pub fn init(&mut self, state: Box<dyn TxState>) -> (r: Result<(), Error>)
        ensures
            *final(self) == old(self).in_state(state.spec_state()),
            old(self).well_shaped() ==> r == Ok::<(), Error>(()),
            !old(self).well_shaped() ==> r == Err::<(), Error>(Error::Validation),
    {
        self.state = state.state();
        match self.ty {
            Some(Tx::Deposit) | Some(Tx::Withdrawal) => match self.amount {
                None | Some(0) => Err(Error::Validation),
                _ => Ok(()),
            },
            _ => Ok(()),
        }
    }

    /// Returns the state of the record.
    pub fn state(&self) -> (s: State)
        ensures
            s == self.state,
    {
        self.state
    }

    /// Applies the event `Execute`.
    pub fn execute(&mut self)
        ensures
            *final(self) == old(self).after(Event::Execute),
    {
        self.state = self.state.on(Event::Execute);
    }

    /// Applies the event `Dispute`.
    pub fn dispute(&mut self)
        ensures
            *final(self) == old(self).after(Event::Dispute),
    {
        self.state = self.state.on(Event::Dispute);
    }

    /// Applies the event `Resolve`.
    pub fn resolve(&mut self)
        ensures
            *final(self) == old(self).after(Event::Resolve),
    {
        self.state = self.state.on(Event::Resolve);
    }

    /// Applies the event `Revert`.
    pub fn revert(&mut self)
        ensures
            *final(self) == old(self).after(Event::Revert),
    {
        self.state = self.state.on(Event::Revert);
    }
}

} // verus!
