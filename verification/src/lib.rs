//! Per-client ledgers built from a stream of transaction events.
//!
//! An [`Account`] applies one event at a time to one client's balances and
//! keeps the history that later disputes refer to. A [`Ledger`] owns the
//! accounts, creates them on first sight, and lets each transaction id move
//! money only once. Amounts are decimal numbers whose arithmetic is done by
//! `rust_decimal`.

pub mod account;
pub mod amount;
pub mod decimal;
pub mod error;
pub mod laws;
pub mod ledger;
pub mod record;
pub mod transaction;

pub use account::Account;
pub use amount::Amount;
pub use ledger::Ledger;
pub use record::{RecordError, TransactionRecord, TxType};
pub use transaction::{ClientId, Transaction, TransactionState, TxId};
