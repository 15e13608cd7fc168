//! The ledger: every client's account, and the transaction ids that have
//! moved money.
//!
//! The rules are written once as a function on the ledger's view,
//! [`LedgerView::apply`]; [`Ledger::process_tx`] is proved to compute it.

use crate::account::{Account, AccountView};
use crate::error::Error;
use crate::transaction::{ClientId, Transaction, TransactionState, TxId};
use std::collections::{HashMap, HashSet};
use vstd::prelude::*;
use vstd::std_specs::hash::*;
use vstd::std_specs::iter::IteratorSpec;

verus! {

broadcast use group_hash_axioms;

/// The mathematical model of a [`Ledger`].
pub struct LedgerView {
    /// The account of every client that an event has named.
    pub accounts: Map<ClientId, AccountView>,
    /// The ids of all deposits and withdrawals that were let through to an
    /// account, whether the account then accepted them or not.
    pub used: Set<TxId>,
}

impl LedgerView {
    /// The ledger before its first event.
    pub open spec fn empty() -> LedgerView {
        LedgerView { accounts: Map::empty(), used: Set::empty() }
    }

    /// The invariant of a ledger: every account is well formed and filed
    /// under its owner, and every transaction id in an account's history is
    /// marked as used.
    pub open spec fn wf(self) -> bool {
        &&& self.accounts.dom().finite()
        &&& self.used.finite()
        &&& forall|client: ClientId| #[trigger]
            self.accounts.contains_key(client) ==> self.accounts[client].wf()
                && self.accounts[client].id == client
        &&& forall|client: ClientId, id: TxId|
            self.accounts.contains_key(client)
                && #[trigger] self.accounts[client].transactions.contains_key(id)
                ==> self.used.contains(id)
    }

    /// In every account, a transaction with a dispute state is in the history,
    /// and a transaction in the history is marked as used. This part of the
    /// invariant does not depend on any balance.
    pub open spec fn history_is_marked(self) -> bool {
        forall|client: ClientId, id: TxId|
            #![trigger self.accounts[client].tx_state.contains_key(id)]
            #![trigger self.accounts[client].transactions.contains_key(id)]
            self.accounts.contains_key(client) ==> {
                &&& self.accounts[client].tx_state.contains_key(id)
                    ==> self.accounts[client].transactions.contains_key(id)
                &&& self.accounts[client].transactions.contains_key(id) ==> self.used.contains(id)
            }
    }

    /// The dispute state that `client`'s account holds for `id`, if any.
    pub open spec fn state_of(self, client: ClientId, id: TxId) -> Option<TransactionState> {
        if self.accounts.contains_key(client) && self.accounts[client].tx_state.contains_key(id) {
            Some(self.accounts[client].tx_state[id])
        } else {
            None
        }
    }

    /// The account that events for `client` go to: the one on file, or a fresh
    /// one.
    pub open spec fn account_for(self, client: ClientId) -> AccountView {
        if self.accounts.contains_key(client) {
            self.accounts[client]
        } else {
            AccountView::fresh(client)
        }
    }

    /// What one event does to the ledger, and what it returns. The client's
    /// account is created if it is missing. A deposit or withdrawal whose id
    /// is used already is a `DuplicateTxId` and does not reach the account;
    /// otherwise its id is marked as used. Every other event goes to the
    /// account, whose answer is returned.
    pub open spec fn apply(self, tx: Transaction) -> (LedgerView, Result<(), Error>) {
        let client = tx.spec_client();
        let id = tx.spec_id();
        let account = self.account_for(client);
        if tx.moves_money() && self.used.contains(id) {
            (
                LedgerView { accounts: self.accounts.insert(client, account), ..self },
                Err(Error::DuplicateTxId(id)),
            )
        } else {
            let (next, result) = account.apply(tx);
            (
                LedgerView {
                    accounts: self.accounts.insert(client, next),
                    used: if tx.moves_money() {
                        self.used.insert(id)
                    } else {
                        self.used
                    },
                },
                result,
            )
        }
    }

    /// The ledger after a sequence of events, whatever each of them returned.
    pub open spec fn apply_all(self, txs: Seq<Transaction>) -> LedgerView
        decreases txs.len(),
    {
        if txs.len() == 0 {
            self
        } else {
            self.apply_all(txs.drop_last()).apply(txs.last()).0
        }
    }
}

/// A sequence that holds the accounts on file and is as long as there are
/// clients holds each account once.
proof fn lemma_listed_once(filed: Map<ClientId, Account>, listed: Seq<Account>)
    requires
        filed.dom().finite(),
        forall|client: ClientId| #[trigger]
            filed.contains_key(client) ==> filed[client]@.id == client,
        listed.to_set() == filed.values(),
        listed.len() == filed.dom().len(),
    ensures
        forall|i: int|
            0 <= i < listed.len() ==> filed.contains_key((#[trigger] listed[i])@.id)
                && filed[listed[i]@.id] == listed[i],
        forall|client: ClientId| #[trigger]
            filed.contains_key(client) ==> exists|i: int|
                0 <= i < listed.len() && #[trigger] listed[i] == filed[client],
        forall|i: int, j: int|
            0 <= i < j < listed.len() ==> (#[trigger] listed[i])@.id != (#[trigger] listed[j])@.id,
{
    assert forall|i: int| 0 <= i < listed.len() implies filed.contains_key(
        (#[trigger] listed[i])@.id,
    ) && filed[listed[i]@.id] == listed[i] by {
        assert(listed.to_set().contains(listed[i]));
        assert(filed.values().contains(listed[i]));
    }
    assert forall|client: ClientId| #[trigger] filed.contains_key(client) implies exists|i: int|
        0 <= i < listed.len() && #[trigger] listed[i] == filed[client] by {
        assert(filed.values().contains(filed[client]));
        assert(listed.to_set().contains(filed[client]));
    }
    assert(filed.is_injective());
    filed.lemma_injective_values_len();
    listed.lemma_no_dup_set_cardinality();
}

/// All accounts of one run, and the transaction ids that have moved money.
pub struct Ledger {
    accounts: HashMap<ClientId, Account>,
    transactions: HashSet<TxId>,
}

impl View for Ledger {
    type V = LedgerView;

    closed spec fn view(&self) -> LedgerView {
        LedgerView {
            accounts: self.accounts@.map_values(|account: Account| account@),
            used: self.transactions@,
        }
    }
}

impl Default for Ledger {
    /// A ledger without accounts.
    fn default() -> (r: Ledger)
        ensures
            r@ == LedgerView::empty(),
            r.wf(),
    {
        Ledger::new()
    }
}

impl Ledger {
    /// The invariant of a ledger, see [`LedgerView::wf`].
    pub open spec fn wf(&self) -> bool {
        self@.wf()
    }

    /// A ledger without accounts.
    pub fn new() -> (r: Ledger)
        ensures
            r@ == LedgerView::empty(),
            r.wf(),
    {
        let r = Ledger { accounts: HashMap::new(), transactions: HashSet::new() };
        assert(r@.accounts =~= Map::empty());
        r
    }

    /// Applies one event: see [`LedgerView::apply`] for what it does and when
    /// it is refused.
    pub fn process_tx(&mut self, tx: Transaction) -> (r: Result<(), Error>)
        requires
            old(self).wf(),
        ensures
            final(self).wf(),
            final(self)@ == old(self)@.apply(tx).0,
            r == old(self)@.apply(tx).1,
    {
        let id = tx.id();
        let client = tx.client();
        let ghost before = self@;
        let ghost account_before = before.account_for(client);
        let account = self.accounts.entry(client).or_insert(Account::new(client));
        assert(account@ == account_before);
        let result = if let Transaction::Deposit { .. } | Transaction::Withdrawal { .. } = tx {
            if self.transactions.contains(&id) {
                Err(Error::DuplicateTxId(id))
            } else {
                self.transactions.insert(id);
                account.process_tx(tx)
            }
        } else {
            account.process_tx(tx)
        };
        proof {
            account_before.lemma_apply_history(tx);
            assert(self@.accounts =~= before.apply(tx).0.accounts);
        }
        result
    }

    /// All accounts, each once, in no particular order. Each is well formed:
    /// its `total` is the sum of `available` and `held`.
    pub fn get_accounts(&self) -> (r: Vec<&Account>)
        requires
            self.wf(),
        ensures
            r@.len() == self@.accounts.dom().len(),
            forall|i: int|
                0 <= i < r@.len() ==> self@.accounts.contains_key((#[trigger] r@[i])@.id)
                    && self@.accounts[r@[i]@.id] == r@[i]@ && r@[i].wf(),
            forall|client: ClientId| #[trigger]
                self@.accounts.contains_key(client) ==> exists|i: int|
                    0 <= i < r@.len() && (#[trigger] r@[i])@.id == client,
            forall|i: int, j: int|
                0 <= i < j < r@.len() ==> (#[trigger] r@[i])@.id != (#[trigger] r@[j])@.id,
    {
        let mut out: Vec<&Account> = Vec::new();
        let ghost all = self.accounts.values().remaining();
        for account in it: self.accounts.values()
            invariant
                it.seq() == all,
                out@.len() == it.index(),
                forall|j: int| 0 <= j < out@.len() ==> out@[j] == all[j],
        {
            out.push(account);
        }
        proof {
            assert(out@ =~= all);
            assert(self@.accounts.dom() =~= self.accounts@.dom());
            lemma_listed_once(self.accounts@, all.unref());
            assert forall|i: int| 0 <= i < out@.len() implies *(#[trigger] out@[i])
                == all.unref()[i] by {}
        }
        out
    }
}

} // verus!
