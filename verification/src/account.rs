//! One client's account: balances, lock and transaction history, and the
//! rules by which a single event changes them.
//!
//! The rules are written once as a function on the account's view,
//! [`AccountView::apply`]; [`Account::process_tx`] is proved to compute it.

use crate::amount::{
    checked_difference, checked_sum, common_scale, lemma_exact_sum_value, sum_is_exact, Amount,
    Dec, FRACTION_DIGITS,
};
use crate::error::Error;
use crate::transaction::{ClientId, Transaction, TransactionState, TxId};
use std::collections::HashMap;
use vstd::prelude::*;
use vstd::std_specs::hash::*;

verus! {

broadcast use {group_hash_axioms, Amount::lemma_from_view, Amount::lemma_view_from_view};

/// The mathematical model of an [`Account`].
pub struct AccountView {
    /// The client that owns the account.
    pub id: ClientId,
    /// Funds that can be withdrawn.
    pub available: Dec,
    /// Funds frozen by open disputes.
    pub held: Dec,
    /// `available + held`.
    pub total: Dec,
    /// Set by a chargeback, for good.
    pub locked: bool,
    /// Every deposit and withdrawal that was applied, by transaction id, with
    /// the amount that was applied.
    pub transactions: Map<TxId, Transaction>,
    /// The dispute state of every deposit that was applied.
    pub tx_state: Map<TxId, TransactionState>,
}

/// A balance: a well-formed decimal with at most four fractional digits.
pub open spec fn is_balance(d: Dec) -> bool {
    d.wf() && d.scale <= FRACTION_DIGITS
}

/// An event as the history holds it: a deposit or a withdrawal whose amount is
/// a balance.
pub open spec fn is_record(tx: Transaction) -> bool {
    match tx.spec_amount() {
        Some(a) => is_balance(a@),
        None => false,
    }
}

impl AccountView {
    /// The account of `id` before its first event.
    pub open spec fn fresh(id: ClientId) -> AccountView {
        AccountView {
            id,
            available: Dec { mantissa: 0, scale: 0 },
            held: Dec { mantissa: 0, scale: 0 },
            total: Dec { mantissa: 0, scale: 0 },
            locked: false,
            transactions: Map::empty(),
            tx_state: Map::empty(),
        }
    }

    /// The invariant of an account: the three balances have at most four
    /// fractional digits, `total` is the sum of the other two, the history
    /// holds deposits and withdrawals only, and every transaction with a
    /// dispute state is in the history.
    pub open spec fn wf(self) -> bool {
        &&& is_balance(self.available)
        &&& is_balance(self.held)
        &&& is_balance(self.total)
        &&& checked_sum(self.available, self.held) == Some(self.total)
        &&& forall|id: TxId| #[trigger]
            self.tx_state.contains_key(id) ==> self.transactions.contains_key(id)
        &&& forall|id: TxId| #[trigger]
            self.transactions.contains_key(id) ==> is_record(self.transactions[id])
    }

    /// The account with new `available` and `held` balances and the total that
    /// belongs to them, or the overflow that computing the total ends in.
    pub open spec fn with_balances(self, available: Dec, held: Dec) -> Result<AccountView, Error> {
        match checked_sum(available, held) {
            Some(total) => Ok(AccountView { available, held, total, ..self }),
            None => Err(Error::Overflow(Amount::from_view(available), Amount::from_view(held))),
        }
    }

    /// The amount that the history holds for `id`.
    pub open spec fn recorded_amount(self, id: TxId) -> Dec {
        self.transactions[id].spec_amount().unwrap()@
    }

    /// The account with the dispute state of `id` set to `state`.
    pub open spec fn with_state(self, id: TxId, state: TransactionState) -> AccountView {
        AccountView { tx_state: self.tx_state.insert(id, state), ..self }
    }

    /// A deposit of `amount` under `id`. The amount must be above zero and is
    /// rounded to four fractional digits. It is added to `available`; the
    /// event is recorded with that amount, in state `Normal`.
    pub open spec fn deposit(self, id: TxId, amount: Dec) -> (AccountView, Result<(), Error>) {
        if amount.mantissa <= 0 {
            (self, Err(Error::AmountTooLow))
        } else {
            let amount = amount.limited();
            match checked_sum(self.available, amount) {
                None => (
                    self,
                    Err(
                        Error::Overflow(
                            Amount::from_view(amount),
                            Amount::from_view(self.available),
                        ),
                    ),
                ),
                Some(available) => match self.with_balances(available, self.held) {
                    Err(e) => (self, Err(e)),
                    Ok(next) => (
                        AccountView {
                            transactions: self.transactions.insert(
                                id,
                                Transaction::Deposit {
                                    id,
                                    client: self.id,
                                    amount: Amount::from_view(amount),
                                },
                            ),
                            tx_state: self.tx_state.insert(id, TransactionState::Normal),
                            ..next
                        },
                        Ok(()),
                    ),
                },
            }
        }
    }

    /// A withdrawal of `amount` under `id`. The amount must be above zero and
    /// at most `available`. Rounded to four fractional digits it is taken
    /// from `available`, and the event is recorded with that amount; it gets
    /// no dispute state.
    pub open spec fn withdrawal(self, id: TxId, amount: Dec) -> (AccountView, Result<(), Error>) {
        if amount.mantissa <= 0 {
            (self, Err(Error::AmountTooLow))
        } else if !amount.le(self.available) {
            (self, Err(Error::InsufficientFunds(self.id)))
        } else {
            let amount = amount.limited();
            match checked_difference(self.available, amount) {
                None => (
                    self,
                    Err(
                        Error::Overflow(
                            Amount::from_view(amount),
                            Amount::from_view(self.available),
                        ),
                    ),
                ),
                Some(available) => match self.with_balances(available, self.held) {
                    Err(e) => (self, Err(e)),
                    Ok(next) => (
                        AccountView {
                            transactions: self.transactions.insert(
                                id,
                                Transaction::Withdrawal {
                                    id,
                                    client: self.id,
                                    amount: Amount::from_view(amount),
                                },
                            ),
                            ..next
                        },
                        Ok(()),
                    ),
                },
            }
        }
    }

    /// A dispute of the transaction `id`, which must be in state `Normal`. It
    /// becomes `Disputed`, and its amount moves from `available` to `held`;
    /// `available` may go below zero. Where `held` overflows, the event fails
    /// with the transaction marked `Disputed` all the same and the balances as
    /// they were. Where `available` or the total overflows, it fails and
    /// leaves the account as it was.
    pub open spec fn dispute(self, id: TxId) -> (AccountView, Result<(), Error>) {
        if !self.tx_state.contains_key(id) {
            (self, Err(Error::TransactionNotFound(id, self.id)))
        } else {
            match self.tx_state[id] {
                TransactionState::Disputed => (self, Err(Error::AlreadyDisputed(id))),
                TransactionState::ResolvedOrChargedback => (self, Err(Error::DisputedSolved(id))),
                TransactionState::Normal => {
                    let amount = self.recorded_amount(id);
                    match checked_sum(self.held, amount) {
                        None => (
                            self.with_state(id, TransactionState::Disputed),
                            Err(
                                Error::Overflow(
                                    Amount::from_view(amount),
                                    Amount::from_view(self.held),
                                ),
                            ),
                        ),
                        Some(held) => match checked_difference(self.available, amount) {
                            None => (
                                self,
                                Err(
                                    Error::Overflow(
                                        Amount::from_view(amount),
                                        Amount::from_view(self.available),
                                    ),
                                ),
                            ),
                            Some(available) => match self.with_balances(available, held) {
                                Err(e) => (self, Err(e)),
                                Ok(next) => (
                                    next.with_state(id, TransactionState::Disputed),
                                    Ok(()),
                                ),
                            },
                        },
                    }
                },
            }
        }
    }

    /// The end of the dispute of `id` in the client's favour. The transaction
    /// must be `Disputed`; it becomes `ResolvedOrChargedback`, and its amount
    /// moves back from `held` to `available`. Where a balance overflows, the
    /// event fails and leaves the account as it was, the transaction still
    /// `Disputed`.
    pub open spec fn resolve(self, id: TxId) -> (AccountView, Result<(), Error>) {
        if !self.tx_state.contains_key(id) {
            (self, Err(Error::TransactionNotFound(id, self.id)))
        } else {
            match self.tx_state[id] {
                TransactionState::ResolvedOrChargedback => (self, Err(Error::DisputedSolved(id))),
                TransactionState::Normal => (self, Err(Error::NotInDispute(id))),
                TransactionState::Disputed => {
                    let amount = self.recorded_amount(id);
                    match checked_sum(self.available, amount) {
                        None => (
                            self,
                            Err(
                                Error::Overflow(
                                    Amount::from_view(amount),
                                    Amount::from_view(self.available),
                                ),
                            ),
                        ),
                        Some(available) => match checked_difference(self.held, amount) {
                            None => (
                                self,
                                Err(
                                    Error::Overflow(
                                        Amount::from_view(amount),
                                        Amount::from_view(self.held),
                                    ),
                                ),
                            ),
                            Some(held) => match self.with_balances(available, held) {
                                Err(e) => (self, Err(e)),
                                Ok(next) => (
                                    next.with_state(id, TransactionState::ResolvedOrChargedback),
                                    Ok(()),
                                ),
                            },
                        },
                    }
                },
            }
        }
    }

    /// The end of the dispute of `id` against the client. The transaction
    /// must be `Disputed`; it becomes `ResolvedOrChargedback`, its amount
    /// leaves `held`, and the account is locked. Where a balance overflows,
    /// the event fails and leaves the account as it was: the transaction
    /// still `Disputed`, the account unlocked.
    pub open spec fn chargeback(self, id: TxId) -> (AccountView, Result<(), Error>) {
        if !self.tx_state.contains_key(id) {
            (self, Err(Error::TransactionNotFound(id, self.id)))
        } else {
            match self.tx_state[id] {
                TransactionState::ResolvedOrChargedback => (self, Err(Error::DisputedSolved(id))),
                TransactionState::Normal => (self, Err(Error::NotInDispute(id))),
                TransactionState::Disputed => {
                    let amount = self.recorded_amount(id);
                    match checked_difference(self.held, amount) {
                        None => (
                            self,
                            Err(
                                Error::Overflow(
                                    Amount::from_view(amount),
                                    Amount::from_view(self.held),
                                ),
                            ),
                        ),
                        Some(held) => match self.with_balances(self.available, held) {
                            Err(e) => (self, Err(e)),
                            Ok(next) => (
                                AccountView {
                                    locked: true,
                                    ..next.with_state(id, TransactionState::ResolvedOrChargedback)
                                },
                                Ok(()),
                            ),
                        },
                    }
                },
            }
        }
    }

    /// What one event does to the account, and what it returns. An event for
    /// another client is `Unauthorized`; a locked account refuses every event
    /// of its own client with `Locked`; both leave the account as it was.
    pub open spec fn apply(self, tx: Transaction) -> (AccountView, Result<(), Error>) {
        if tx.spec_client() != self.id {
            (self, Err(Error::Unauthorized(tx.spec_client(), self.id)))
        } else if self.locked {
            (self, Err(Error::Locked(self.id)))
        } else {
            match tx {
                Transaction::Deposit { id, amount, .. } => self.deposit(id, amount@),
                Transaction::Withdrawal { id, amount, .. } => self.withdrawal(id, amount@),
                Transaction::Dispute { id, .. } => self.dispute(id),
                Transaction::Resolve { id, .. } => self.resolve(id),
                Transaction::Chargeback { id, .. } => self.chargeback(id),
            }
        }
    }

    /// The account after a sequence of events, whatever each of them returned.
    pub open spec fn apply_all(self, txs: Seq<Transaction>) -> AccountView
        decreases txs.len(),
    {
        if txs.len() == 0 {
            self
        } else {
            self.apply_all(txs.drop_last()).apply(txs.last()).0
        }
    }

    /// An event leaves the owner as it is, removes nothing from the history,
    /// and adds to it at most its own id, and that only if it is a deposit or
    /// a withdrawal.
    pub proof fn lemma_apply_history(self, tx: Transaction)
        ensures
            self.apply(tx).0.id == self.id,
            forall|id: TxId| #[trigger]
                self.transactions.contains_key(id) ==> self.apply(tx).0.transactions.contains_key(
                    id,
                ),
            forall|id: TxId| #[trigger]
                self.apply(tx).0.transactions.contains_key(id) ==> self.transactions.contains_key(
                    id,
                ) || (tx.moves_money() && id == tx.spec_id()),
    {
    }
}

/// One client's balances and transaction history.
#[derive(Debug)]
pub struct Account {
    id: ClientId,
    available: Amount,
    held: Amount,
    total: Amount,
    locked: bool,
    transactions: HashMap<TxId, Transaction>,
    tx_state: HashMap<TxId, TransactionState>,
}

impl View for Account {
    type V = AccountView;

    closed spec fn view(&self) -> AccountView {
        AccountView {
            id: self.id,
            available: self.available@,
            held: self.held@,
            total: self.total@,
            locked: self.locked,
            transactions: self.transactions@,
            tx_state: self.tx_state@,
        }
    }
}

impl Account {
    /// The invariant of an account, see [`AccountView::wf`].
    pub open spec fn wf(&self) -> bool {
        self@.wf()
    }

    /// An account for `id` with zero balances, unlocked, with no history.
    pub fn new(id: ClientId) -> (r: Account)
        ensures
            r@ == AccountView::fresh(id),
            r.wf(),
    {
        Account {
            id,
            available: Amount::zero(),
            held: Amount::zero(),
            total: Amount::zero(),
            locked: false,
            transactions: HashMap::new(),
            tx_state: HashMap::new(),
        }
    }

    /// The client that owns the account.
    pub fn id(&self) -> (r: ClientId)
        ensures
            r == self@.id,
    {
        self.id
    }

    /// The funds that can be withdrawn.
    pub fn available(&self) -> (r: Amount)
        ensures
            r@ == self@.available,
    {
        self.available
    }

    /// The funds frozen by open disputes.
    pub fn held(&self) -> (r: Amount)
        ensures
            r@ == self@.held,
    {
        self.held
    }

    /// `available + held`.
    pub fn total(&self) -> (r: Amount)
        ensures
            r@ == self@.total,
    {
        self.total
    }

    /// Whether a chargeback has locked the account.
    pub fn locked(&self) -> (r: bool)
        ensures
            r == self@.locked,
    {
        self.locked
    }

    /// The deposit or withdrawal that the history holds under `id`, if any.
    pub fn transaction(&self, id: TxId) -> (r: Option<Transaction>)
        ensures
            r == self@.transactions.get(id),
    {
        match self.transactions.get(&id) {
            Some(tx) => Some(*tx),
            None => None,
        }
    }

    /// The dispute state of the transaction `id`, if it has one.
    pub fn tx_state(&self, id: TxId) -> (r: Option<TransactionState>)
        ensures
            r == self@.tx_state.get(id),
    {
        match self.tx_state.get(&id) {
            Some(state) => Some(*state),
            None => None,
        }
    }

    /// The total that belongs to two balances: `available + held` as
    /// `rust_decimal` computes it, which is their sum as a number where that
    /// needs no rounding, or the overflow that the sum ends in.
    pub fn compute_total(available: Amount, held: Amount) -> (r: Result<Amount, Error>)
        ensures
            match r {
                Ok(total) => checked_sum(available@, held@) == Some(total@),
                Err(e) => checked_sum(available@, held@) is None && e == Error::Overflow(
                    available,
                    held,
                ),
            },
            r matches Ok(total) ==> total@.scale <= common_scale(available@, held@),
            sum_is_exact(available@, held@) ==> r is Ok,
            sum_is_exact(available@, held@) ==> (r matches Ok(total) ==> total@.value()
                == available@.value() + held@.value()),
    {
        proof {
            use_type_invariant(available);
            use_type_invariant(held);
            lemma_exact_sum_value(available@, held@);
        }
        match available.checked_add(held) {
            Some(total) => Ok(total),
            None => Err(Error::Overflow(available, held)),
        }
    }

    fn deposit(&mut self, id: TxId, amount: Amount) -> (r: Result<(), Error>)
        requires
            old(self).wf(),
        ensures
            final(self).wf(),
            final(self)@ == old(self)@.deposit(id, amount@).0,
            r == old(self)@.deposit(id, amount@).1,
    {
        if !amount.is_positive() {
            return Err(Error::AmountTooLow);
        }
        let amount = amount.limited();
        let available = match self.available.checked_add(amount) {
            Some(sum) => sum,
            None => { return Err(Error::Overflow(amount, self.available)); },
        };
        let total = Self::compute_total(available, self.held)?;
        proof {
            use_type_invariant(amount);
            use_type_invariant(available);
            use_type_invariant(total);
        }
        self.available = available;
        self.total = total;
        self.tx_state.insert(id, TransactionState::Normal);
        self.transactions.insert(id, Transaction::Deposit { id, client: self.id, amount });
        Ok(())
    }

    fn withdrawal(&mut self, id: TxId, amount: Amount) -> (r: Result<(), Error>)
        requires
            old(self).wf(),
        ensures
            final(self).wf(),
            final(self)@ == old(self)@.withdrawal(id, amount@).0,
            r == old(self)@.withdrawal(id, amount@).1,
    {
        if !amount.is_positive() {
            return Err(Error::AmountTooLow);
        }
        if !amount.le(self.available) {
            return Err(Error::InsufficientFunds(self.id));
        }
        let amount = amount.limited();
        let available = match self.available.checked_sub(amount) {
            Some(difference) => difference,
            None => { return Err(Error::Overflow(amount, self.available)); },
        };
        let total = Self::compute_total(available, self.held)?;
        proof {
            use_type_invariant(amount);
            use_type_invariant(available);
            use_type_invariant(total);
        }
        self.available = available;
        self.total = total;
        self.transactions.insert(id, Transaction::Withdrawal { id, client: self.id, amount });
        Ok(())
    }

    /// The amount that the history holds for `id`, which has a dispute state.
    fn recorded(&self, id: TxId) -> (r: Amount)
        requires
            self.wf(),
            self@.tx_state.contains_key(id),
        ensures
            r@ == self@.recorded_amount(id),
            is_balance(r@),
    {
        assert(self@.transactions.contains_key(id));
        assert(is_record(self@.transactions[id]));
        let tx = self.transactions.get(&id).unwrap();
        tx.amount().unwrap()
    }

    fn dispute(&mut self, id: TxId) -> (r: Result<(), Error>)
        requires
            old(self).wf(),
        ensures
            final(self).wf(),
            final(self)@ == old(self)@.dispute(id).0,
            r == old(self)@.dispute(id).1,
    {
        match self.tx_state.get(&id) {
            None => { return Err(Error::TransactionNotFound(id, self.id)); },
            Some(state) => match *state {
                TransactionState::Disputed => { return Err(Error::AlreadyDisputed(id)); },
                TransactionState::ResolvedOrChargedback => {
                    return Err(Error::DisputedSolved(id));
                },
                TransactionState::Normal => {},
            },
        }
        let amount = self.recorded(id);
        let held = match self.held.checked_add(amount) {
            Some(sum) => sum,
            None => {
                self.tx_state.insert(id, TransactionState::Disputed);
                return Err(Error::Overflow(amount, self.held));
            },
        };
        let available = match self.available.checked_sub(amount) {
            Some(difference) => difference,
            None => { return Err(Error::Overflow(amount, self.available)); },
        };
        let total = Self::compute_total(available, held)?;
        proof {
            use_type_invariant(available);
            use_type_invariant(held);
            use_type_invariant(total);
        }
        self.tx_state.insert(id, TransactionState::Disputed);
        self.held = held;
        self.available = available;
        self.total = total;
        Ok(())
    }

    fn resolve(&mut self, id: TxId) -> (r: Result<(), Error>)
        requires
            old(self).wf(),
        ensures
            final(self).wf(),
            final(self)@ == old(self)@.resolve(id).0,
            r == old(self)@.resolve(id).1,
    {
        match self.tx_state.get(&id) {
            None => { return Err(Error::TransactionNotFound(id, self.id)); },
            Some(state) => match *state {
                TransactionState::ResolvedOrChargedback => {
                    return Err(Error::DisputedSolved(id));
                },
                TransactionState::Normal => { return Err(Error::NotInDispute(id)); },
                TransactionState::Disputed => {},
            },
        }
        let amount = self.recorded(id);
        let available = match self.available.checked_add(amount) {
            Some(sum) => sum,
            None => { return Err(Error::Overflow(amount, self.available)); },
        };
        let held = match self.held.checked_sub(amount) {
            Some(difference) => difference,
            None => { return Err(Error::Overflow(amount, self.held)); },
        };
        let total = Self::compute_total(available, held)?;
        proof {
            use_type_invariant(available);
            use_type_invariant(held);
            use_type_invariant(total);
        }
        self.tx_state.insert(id, TransactionState::ResolvedOrChargedback);
        self.available = available;
        self.held = held;
        self.total = total;
        Ok(())
    }

    fn chargeback(&mut self, id: TxId) -> (r: Result<(), Error>)
        requires
            old(self).wf(),
        ensures
            final(self).wf(),
            final(self)@ == old(self)@.chargeback(id).0,
            r == old(self)@.chargeback(id).1,
    {
        match self.tx_state.get(&id) {
            None => { return Err(Error::TransactionNotFound(id, self.id)); },
            Some(state) => match *state {
                TransactionState::ResolvedOrChargedback => {
                    return Err(Error::DisputedSolved(id));
                },
                TransactionState::Normal => { return Err(Error::NotInDispute(id)); },
                TransactionState::Disputed => {},
            },
        }
        let amount = self.recorded(id);
        let held = match self.held.checked_sub(amount) {
            Some(difference) => difference,
            None => { return Err(Error::Overflow(amount, self.held)); },
        };
        let total = Self::compute_total(self.available, held)?;
        proof {
            use_type_invariant(held);
            use_type_invariant(total);
        }
        self.tx_state.insert(id, TransactionState::ResolvedOrChargedback);
        self.held = held;
        self.total = total;
        self.locked = true;
        Ok(())
    }

    /// Applies one event to the account: see [`AccountView::apply`] for what
    /// each event does and when it is refused.
    pub fn process_tx(&mut self, tx: Transaction) -> (r: Result<(), Error>)
        requires
            old(self).wf(),
        ensures
            final(self).wf(),
            final(self)@ == old(self)@.apply(tx).0,
            r == old(self)@.apply(tx).1,
    {
        if tx.client() != self.id {
            return Err(Error::Unauthorized(tx.client(), self.id));
        }
        if self.locked {
            return Err(Error::Locked(self.id));
        }
        match tx {
            Transaction::Deposit { id, amount, .. } => self.deposit(id, amount),
            Transaction::Withdrawal { id, amount, .. } => self.withdrawal(id, amount),
            Transaction::Dispute { id, .. } => self.dispute(id),
            Transaction::Resolve { id, .. } => self.resolve(id),
            Transaction::Chargeback { id, .. } => self.chargeback(id),
        }
    }
}

} // verus!
