//! Transaction events and the dispute state of a recorded deposit.

use crate::amount::Amount;
use vstd::prelude::*;

verus! {

/// Identifies an account holder.
pub type ClientId = u16;

/// Identifies a deposit or a withdrawal. Disputes, resolutions and chargebacks
/// refer to the id of an earlier event.
pub type TxId = u32;

/// One event of the input stream.
#[derive(Clone, Copy, Debug)]
pub enum Transaction {
    Deposit { id: TxId, client: ClientId, amount: Amount },
    Withdrawal { id: TxId, client: ClientId, amount: Amount },
    Dispute { id: TxId, client: ClientId },
    Resolve { id: TxId, client: ClientId },
    Chargeback { id: TxId, client: ClientId },
}

/// Where a recorded deposit stands: it only ever moves from `Normal` to
/// `Disputed` and from there to `ResolvedOrChargedback`.
#[derive(Clone, Copy, Debug, PartialEq, Eq, Structural)]
pub enum TransactionState {
    Normal,
    Disputed,
    ResolvedOrChargedback,
}

impl TransactionState {
    /// The position of a state on its one-way path.
    pub open spec fn rank(self) -> nat {
        match self {
            TransactionState::Normal => 0,
            TransactionState::Disputed => 1,
            TransactionState::ResolvedOrChargedback => 2,
        }
    }
}

impl Transaction {
    /// The transaction id that the event carries.
    pub open spec fn spec_id(self) -> TxId {
        match self {
            Transaction::Deposit { id, .. } => id,
            Transaction::Withdrawal { id, .. } => id,
            Transaction::Dispute { id, .. } => id,
            Transaction::Resolve { id, .. } => id,
            Transaction::Chargeback { id, .. } => id,
        }
    }

    /// The client that the event is for.
    pub open spec fn spec_client(self) -> ClientId {
        match self {
            Transaction::Deposit { client, .. } => client,
            Transaction::Withdrawal { client, .. } => client,
            Transaction::Dispute { client, .. } => client,
            Transaction::Resolve { client, .. } => client,
            Transaction::Chargeback { client, .. } => client,
        }
    }

    /// The amount of a deposit or a withdrawal; other events have none.
    pub open spec fn spec_amount(self) -> Option<Amount> {
        match self {
            Transaction::Deposit { amount, .. } => Some(amount),
            Transaction::Withdrawal { amount, .. } => Some(amount),
            _ => None,
        }
    }

    /// The event moves money: it is a deposit or a withdrawal.
    pub open spec fn moves_money(self) -> bool {
        self is Deposit || self is Withdrawal
    }

    /// The transaction id that the event carries.
    pub fn id(&self) -> (r: TxId)
        ensures
            r == self.spec_id(),
    {
        match *self {
            Transaction::Deposit { id, .. }
            | Transaction::Withdrawal { id, .. }
            | Transaction::Dispute { id, .. }
            | Transaction::Resolve { id, .. }
            | Transaction::Chargeback { id, .. } => id,
        }
    }

    /// The client that the event is for.
    pub fn client(&self) -> (r: ClientId)
        ensures
            r == self.spec_client(),
    {
        match *self {
            Transaction::Deposit { client, .. }
            | Transaction::Withdrawal { client, .. }
            | Transaction::Dispute { client, .. }
            | Transaction::Resolve { client, .. }
            | Transaction::Chargeback { client, .. } => client,
        }
    }

    /// The amount of a deposit or a withdrawal; other events have none.
    pub fn amount(&self) -> (r: Option<Amount>)
        ensures
            r == self.spec_amount(),
    {
        match *self {
            Transaction::Deposit { amount, .. } | Transaction::Withdrawal { amount, .. } => Some(
                amount,
            ),
            _ => None,
        }
    }
}

} // verus!
