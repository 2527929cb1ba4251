//! Why a record was declined.

use vstd::prelude::*;

verus! {

/// The reasons for which a record is declined. Every one of them is
/// recoverable: the record is dropped and the engine carries on.
#[derive(Debug, Copy, Clone, PartialEq, Eq, Structural)]
pub enum Error {
    /// A malformed record, such as a deposit without an amount.
    Validation,
    /// A deposit or withdrawal reuses the id of a stored transaction.
    DuplicateId,
    /// The account is locked and accepts no operation.
    LockedAccount,
    /// A withdrawal exceeds the available balance.
    InsufficientFunds,
    /// A deposit would exceed the largest representable balance.
    Overflow,
    /// A dispute, resolve or chargeback names an unknown transaction.
    NotFound,
    /// The transaction named belongs to another client.
    OwnershipMismatch,
    /// The transaction named cannot be disputed, or is not in the state
    /// that the event needs.
    IllegalTransition,
}

} // verus!
