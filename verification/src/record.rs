//! Input records: one row of the input as it was read, and the event that it
//! stands for.

use crate::amount::Amount;
use crate::transaction::{ClientId, Transaction, TxId};
use vstd::prelude::*;
use vstd::std_specs::convert::TryFromSpecImpl;

verus! {

/// The kind of event that a record names.
#[derive(Clone, Copy, Debug, PartialEq, Eq, Structural)]
pub enum TxType {
    Deposit,
    Withdrawal,
    Dispute,
    Resolve,
    Chargeback,
}

/// One row of the input. The amount is missing where the row had none, or
/// none that could be read.
#[derive(Clone, Copy, Debug)]
pub struct TransactionRecord {
    pub tx_type: TxType,
    pub client: ClientId,
    pub tx: TxId,
    pub amount: Option<Amount>,
}

/// A deposit or a withdrawal without an amount.
#[derive(Clone, Copy, Debug, PartialEq, Eq, Structural)]
pub struct RecordError;

impl TxType {
    /// Deposits and withdrawals need an amount.
    pub open spec fn needs_amount(self) -> bool {
        self is Deposit || self is Withdrawal
    }
}

impl TransactionRecord {
    /// The event that the record stands for. A deposit or a withdrawal takes
    /// the record's amount and is refused without one; the other events
    /// ignore it.
    pub open spec fn event(self) -> Result<Transaction, RecordError> {
        if self.tx_type.needs_amount() && self.amount is None {
            Err(RecordError)
        } else {
            Ok(
                match self.tx_type {
                    TxType::Deposit => Transaction::Deposit {
                        id: self.tx,
                        client: self.client,
                        amount: self.amount.unwrap(),
                    },
                    TxType::Withdrawal => Transaction::Withdrawal {
                        id: self.tx,
                        client: self.client,
                        amount: self.amount.unwrap(),
                    },
                    TxType::Dispute => Transaction::Dispute { id: self.tx, client: self.client },
                    TxType::Resolve => Transaction::Resolve { id: self.tx, client: self.client },
                    TxType::Chargeback => Transaction::Chargeback {
                        id: self.tx,
                        client: self.client,
                    },
                },
            )
        }
    }
}

impl TryFrom<TransactionRecord> for Transaction {
    type Error = RecordError;

    /// The event that a record stands for: [`TransactionRecord::event`].
    fn try_from(record: TransactionRecord) -> (r: Result<Self, RecordError>) {
        let id = record.tx;
        let client = record.client;
        match record.tx_type {
            TxType::Deposit => match record.amount {
                Some(amount) => Ok(Transaction::Deposit { id, client, amount }),
                None => Err(RecordError),
            },
            TxType::Withdrawal => match record.amount {
                Some(amount) => Ok(Transaction::Withdrawal { id, client, amount }),
                None => Err(RecordError),
            },
            TxType::Dispute => Ok(Transaction::Dispute { id, client }),
            TxType::Resolve => Ok(Transaction::Resolve { id, client }),
            TxType::Chargeback => Ok(Transaction::Chargeback { id, client }),
        }
    }
}

impl TryFromSpecImpl<TransactionRecord> for Transaction {
    open spec fn obeys_try_from_spec() -> bool {
        true
    }

    open spec fn try_from_spec(record: TransactionRecord) -> Result<Self, RecordError> {
        record.event()
    }
}

/// A record is refused exactly when it is a deposit or a withdrawal without
/// an amount. The event of any other record has the record's kind,
/// transaction id and client, and moves money exactly when the record's kind
/// needs an amount: then it carries the record's amount.
pub proof fn law_record_to_event(record: TransactionRecord)
    ensures
        record.event() is Err <==> record.tx_type.needs_amount()
            && record.amount is None,
        record.event() matches Ok(tx) ==> {
            &&& tx.spec_id() == record.tx
            &&& tx.spec_client() == record.client
            &&& tx.moves_money() == record.tx_type.needs_amount()
            &&& tx.spec_amount() == (if record.tx_type.needs_amount() {
                record.amount
            } else {
                None
            })
            &&& (tx is Deposit <==> record.tx_type is Deposit)
            &&& (tx is Withdrawal <==> record.tx_type is Withdrawal)
            &&& (tx is Dispute <==> record.tx_type is Dispute)
            &&& (tx is Resolve <==> record.tx_type is Resolve)
            &&& (tx is Chargeback <==> record.tx_type is Chargeback)
        },
{
}

} // verus!
