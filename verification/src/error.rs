//! The reasons for which an event is refused.

use crate::amount::Amount;
use crate::transaction::{ClientId, TxId};
use vstd::prelude::*;

verus! {

/// Why an event was refused.
#[derive(Clone, Copy, Debug)]
pub enum Error {
    /// The event's client (first) does not own the account (second).
    Unauthorized(ClientId, ClientId),
    /// The account is locked.
    Locked(ClientId),
    /// Adding or subtracting the first amount to or from the second does not
    /// give a decimal.
    Overflow(Amount, Amount),
    /// The account holds less than the withdrawal asks for.
    InsufficientFunds(ClientId),
    /// The account has no disputable record of the transaction.
    TransactionNotFound(TxId, ClientId),
    /// The transaction is not in dispute.
    NotInDispute(TxId),
    /// The transaction is in dispute already.
    AlreadyDisputed(TxId),
    /// A deposit or a withdrawal of zero or less.
    AmountTooLow,
    /// The transaction id was used by an earlier deposit or withdrawal.
    DuplicateTxId(TxId),
    /// The dispute of the transaction is over.
    DisputedSolved(TxId),
}

} // verus!
