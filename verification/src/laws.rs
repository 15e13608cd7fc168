//! What holds of accounts and ledgers whatever events arrive, proved from the
//! rules in [`AccountView::apply`] and [`LedgerView::apply`].

use crate::account::{is_record, AccountView};
use crate::amount::{
    both_whole, checked_sum, difference_is_exact, exact_difference, exact_sum,
    lemma_exact_difference_value, lemma_exact_sum_value, lemma_limited_wf, pow10, sum_is_exact,
    Amount, Dec, MAX_MANTISSA, MAX_SCALE,
};
use crate::error::Error;
use crate::ledger::LedgerView;
use crate::transaction::{ClientId, Transaction, TransactionState, TxId};
use vstd::prelude::*;

verus! {

/// In a well-formed account whose `available` and `held` add up without
/// rounding, `total` is their sum as a number.
pub proof fn law_total_is_available_plus_held(s: AccountView)
    requires
        s.wf(),
        sum_is_exact(s.available, s.held),
    ensures
        s.total.value() == s.available.value() + s.held.value(),
{
    lemma_exact_sum_value(s.available, s.held);
}

/// A locked account refuses every event, those of its own client with
/// `Locked`, and stays as it is.
pub proof fn law_locked_account_refuses(s: AccountView, tx: Transaction)
    requires
        s.locked,
    ensures
        s.apply(tx).0 == s,
        tx.spec_client() == s.id ==> s.apply(tx).1 == Err::<(), Error>(Error::Locked(s.id)),
        tx.spec_client() != s.id ==> s.apply(tx).1 == Err::<(), Error>(
            Error::Unauthorized(tx.spec_client(), s.id),
        ),
{
}

/// No sequence of events changes a locked account.
pub proof fn law_locked_account_never_changes(s: AccountView, txs: Seq<Transaction>)
    requires
        s.locked,
    ensures
        s.apply_all(txs) == s,
    decreases txs.len(),
{
    if txs.len() > 0 {
        law_locked_account_never_changes(s, txs.drop_last());
    }
}

/// The result is an `Overflow`.
pub open spec fn is_overflow(result: Result<(), Error>) -> bool {
    match result {
        Err(e) => e is Overflow,
        Ok(_) => false,
    }
}

/// An event that an account refuses leaves the account as it was. The one
/// exception is a dispute whose amount does not fit in `held`: it marks the
/// transaction `Disputed` and changes nothing else.
pub proof fn law_refused_event_changes_nothing(s: AccountView, tx: Transaction)
    requires
        s.apply(tx).1 is Err,
    ensures
        s.apply(tx).0 == (if tx is Dispute && is_overflow(s.apply(tx).1) && checked_sum(
            s.held,
            s.recorded_amount(tx.spec_id()),
        ) is None {
            s.with_state(tx.spec_id(), TransactionState::Disputed)
        } else {
            s
        }),
{
}

/// An event that ends in `Overflow` leaves the balances, the lock and the
/// history as they were; unless it is a dispute, it leaves the whole account
/// as it was.
pub proof fn law_overflow_keeps_balances(s: AccountView, tx: Transaction)
    requires
        is_overflow(s.apply(tx).1),
    ensures
        s.apply(tx).0.available == s.available,
        s.apply(tx).0.held == s.held,
        s.apply(tx).0.total == s.total,
        s.apply(tx).0.locked == s.locked,
        s.apply(tx).0.transactions == s.transactions,
        tx !is Dispute ==> s.apply(tx).0 == s,
{
}

/// Adding a whole amount to a whole balance overflows as soon as the sum has
/// more than 96 bits: such a deposit is refused with `Overflow`, and the
/// account stays as it was.
pub proof fn law_whole_deposit_overflows(s: AccountView, id: TxId, amount: Amount)
    requires
        !s.locked,
        amount@.wf(),
        amount@.mantissa > 0,
        both_whole(s.available, amount@),
        s.available.mantissa + amount@.mantissa > MAX_MANTISSA,
    ensures
        s.apply(Transaction::Deposit { id, client: s.id, amount }) == (
            s,
            Err::<(), Error>(Error::Overflow(amount, Amount::from_view(s.available))),
        ),
{
    amount.lemma_from_view();
    assert(pow10(0) == 1);
}

/// The dispute state of a recorded transaction stays where it is or moves one
/// step forward. The one event left out is an accepted deposit under the id of
/// a transaction that has been disputed: it starts the record anew. A ledger
/// lets no such deposit through.
pub proof fn law_state_moves_forward(s: AccountView, tx: Transaction, id: TxId)
    requires
        s.tx_state.contains_key(id),
        tx is Deposit && tx.spec_id() == id ==> s.apply(tx).1 is Err || s.tx_state[id] is Normal,
    ensures
        s.apply(tx).0.tx_state.contains_key(id),
        s.tx_state[id].rank() <= s.apply(tx).0.tx_state[id].rank() <= s.tx_state[id].rank() + 1,
{
}

/// An account answers a dispute, a resolution or a chargeback that does not
/// fit the state of its transaction with the error for that state, and stays
/// as it was.
pub proof fn law_wrong_state_is_refused(s: AccountView, tx: Transaction)
    requires
        tx.spec_client() == s.id,
        !s.locked,
        s.tx_state.contains_key(tx.spec_id()),
    ensures
        tx is Dispute && s.tx_state[tx.spec_id()] is Disputed ==> s.apply(tx) == (
            s,
            Err::<(), Error>(Error::AlreadyDisputed(tx.spec_id())),
        ),
        tx is Dispute && s.tx_state[tx.spec_id()] is ResolvedOrChargedback ==> s.apply(tx) == (
            s,
            Err::<(), Error>(Error::DisputedSolved(tx.spec_id())),
        ),
        (tx is Resolve || tx is Chargeback) && s.tx_state[tx.spec_id()] is Normal ==> s.apply(tx)
            == (s, Err::<(), Error>(Error::NotInDispute(tx.spec_id()))),
        (tx is Resolve || tx is Chargeback) && s.tx_state[tx.spec_id()] is ResolvedOrChargedback
            ==> s.apply(tx) == (s, Err::<(), Error>(Error::DisputedSolved(tx.spec_id()))),
{
}

/// The sums and the difference that a dispute of `id` computes need no
/// rounding: the new `held`, the new `available`, and their total.
pub open spec fn dispute_is_exact(s: AccountView, id: TxId) -> bool {
    let amount = s.recorded_amount(id);
    &&& sum_is_exact(s.held, amount)
    &&& difference_is_exact(s.available, amount)
    &&& sum_is_exact(exact_difference(s.available, amount), exact_sum(s.held, amount))
}

/// The sums and the difference that a resolution of `id` computes need no
/// rounding.
pub open spec fn resolve_is_exact(s: AccountView, id: TxId) -> bool {
    let amount = s.recorded_amount(id);
    &&& sum_is_exact(s.available, amount)
    &&& difference_is_exact(s.held, amount)
    &&& sum_is_exact(exact_sum(s.available, amount), exact_difference(s.held, amount))
}

/// The difference and the sum that a chargeback of `id` computes need no
/// rounding.
pub open spec fn chargeback_is_exact(s: AccountView, id: TxId) -> bool {
    let amount = s.recorded_amount(id);
    &&& difference_is_exact(s.held, amount)
    &&& sum_is_exact(s.available, exact_difference(s.held, amount))
}

/// What the laws below rest on, for an account of which only the scales are
/// known to be in range.
proof fn lemma_dispute_then_end(s: AccountView, client: ClientId, id: TxId)
    requires
        s.available.scale <= MAX_SCALE,
        s.held.scale <= MAX_SCALE,
        s.recorded_amount(id).scale <= MAX_SCALE,
        client == s.id,
        !s.locked,
        s.tx_state.contains_key(id),
        s.tx_state[id] is Normal,
        dispute_is_exact(s, id),
    ensures
        ({
            let amount = s.recorded_amount(id);
            let disputed = s.apply(Transaction::Dispute { id, client }).0;
            let resolved = disputed.apply(Transaction::Resolve { id, client }).0;
            let charged = disputed.apply(Transaction::Chargeback { id, client }).0;
            &&& s.apply(Transaction::Dispute { id, client }).1 is Ok
            &&& disputed.tx_state == s.tx_state.insert(id, TransactionState::Disputed)
            &&& disputed.transactions == s.transactions
            &&& !disputed.locked
            &&& disputed.held.value() == s.held.value() + amount.value()
            &&& disputed.available.value() == s.available.value() - amount.value()
            &&& disputed.total.value() == s.available.value() + s.held.value()
            &&& resolve_is_exact(disputed, id) ==> {
                &&& disputed.apply(Transaction::Resolve { id, client }).1 is Ok
                &&& resolved.available.value() == s.available.value()
                &&& resolved.held.value() == s.held.value()
                &&& resolved.total.value() == s.available.value() + s.held.value()
                &&& resolved.tx_state == s.tx_state.insert(
                    id,
                    TransactionState::ResolvedOrChargedback,
                )
                &&& resolved.transactions == s.transactions
                &&& !resolved.locked
            }
            &&& chargeback_is_exact(disputed, id) ==> {
                &&& disputed.apply(Transaction::Chargeback { id, client }).1 is Ok
                &&& charged.available == disputed.available
                &&& charged.held.value() == s.held.value()
                &&& charged.total.value() == s.available.value() - amount.value()
                    + s.held.value()
                &&& charged.tx_state == s.tx_state.insert(
                    id,
                    TransactionState::ResolvedOrChargedback,
                )
                &&& charged.transactions == s.transactions
                &&& charged.locked
            }
        }),
{
    let amount = s.recorded_amount(id);
    let disputed = s.apply(Transaction::Dispute { id, client }).0;
    lemma_exact_sum_value(s.held, amount);
    lemma_exact_difference_value(s.available, amount);
    lemma_exact_sum_value(disputed.available, disputed.held);
    assert(disputed.recorded_amount(id) == amount);
    if resolve_is_exact(disputed, id) {
        let resolved = disputed.apply(Transaction::Resolve { id, client }).0;
        lemma_exact_sum_value(disputed.available, amount);
        lemma_exact_difference_value(disputed.held, amount);
        lemma_exact_sum_value(resolved.available, resolved.held);
        assert(resolved.tx_state =~= s.tx_state.insert(
            id,
            TransactionState::ResolvedOrChargedback,
        ));
    }
    if chargeback_is_exact(disputed, id) {
        let charged = disputed.apply(Transaction::Chargeback { id, client }).0;
        lemma_exact_difference_value(disputed.held, amount);
        lemma_exact_sum_value(charged.available, charged.held);
        assert(charged.tx_state =~= s.tx_state.insert(
            id,
            TransactionState::ResolvedOrChargedback,
        ));
    }
}

/// A dispute of a transaction in state `Normal` succeeds, and the resolution
/// that follows succeeds and gives `available`, `held` and `total` back as
/// numbers, with the transaction `ResolvedOrChargedback` and the account
/// unlocked. This holds where the sums and differences on the way need no
/// rounding.
pub proof fn law_dispute_then_resolve_restores(s: AccountView, client: ClientId, id: TxId)
    requires
        s.wf(),
        client == s.id,
        !s.locked,
        s.tx_state.contains_key(id),
        s.tx_state[id] is Normal,
        dispute_is_exact(s, id),
        resolve_is_exact(s.apply(Transaction::Dispute { id, client }).0, id),
    ensures
        ({
            let disputed = s.apply(Transaction::Dispute { id, client }).0;
            let resolved = disputed.apply(Transaction::Resolve { id, client }).0;
            &&& s.apply(Transaction::Dispute { id, client }).1 is Ok
            &&& disputed.apply(Transaction::Resolve { id, client }).1 is Ok
            &&& disputed.held.value() == s.held.value() + s.recorded_amount(id).value()
            &&& disputed.available.value() == s.available.value() - s.recorded_amount(id).value()
            &&& resolved.available.value() == s.available.value()
            &&& resolved.held.value() == s.held.value()
            &&& resolved.total.value() == resolved.available.value() + resolved.held.value()
            &&& sum_is_exact(s.available, s.held) ==> resolved.total.value() == s.total.value()
            &&& resolved.tx_state[id] is ResolvedOrChargedback
            &&& resolved.transactions == s.transactions
            &&& !resolved.locked
        }),
{
    assert(s.transactions.contains_key(id));
    assert(is_record(s.transactions[id]));
    lemma_dispute_then_end(s, client, id);
    lemma_exact_sum_value(s.available, s.held);
}

/// A dispute of a transaction in state `Normal` succeeds, and the chargeback
/// that follows succeeds, takes the amount out of `held` again, leaves
/// `available` as the dispute left it, and locks the account. This holds where
/// the sums and differences on the way need no rounding.
pub proof fn law_dispute_then_chargeback_locks(s: AccountView, client: ClientId, id: TxId)
    requires
        s.wf(),
        client == s.id,
        !s.locked,
        s.tx_state.contains_key(id),
        s.tx_state[id] is Normal,
        dispute_is_exact(s, id),
        chargeback_is_exact(s.apply(Transaction::Dispute { id, client }).0, id),
    ensures
        ({
            let disputed = s.apply(Transaction::Dispute { id, client }).0;
            let charged = disputed.apply(Transaction::Chargeback { id, client }).0;
            &&& s.apply(Transaction::Dispute { id, client }).1 is Ok
            &&& disputed.apply(Transaction::Chargeback { id, client }).1 is Ok
            &&& charged.held.value() == s.held.value()
            &&& charged.available == disputed.available
            &&& charged.available.value() == s.available.value() - s.recorded_amount(id).value()
            &&& charged.total.value() == charged.available.value() + charged.held.value()
            &&& charged.tx_state[id] is ResolvedOrChargedback
            &&& charged.transactions == s.transactions
            &&& charged.locked
        }),
{
    assert(s.transactions.contains_key(id));
    assert(is_record(s.transactions[id]));
    lemma_dispute_then_end(s, client, id);
}

/// An accepted deposit is recorded in state `Normal` with the amount that was
/// added to `available`: the deposit's amount, rounded to four fractional
/// digits. So a dispute of it may follow at once.
pub proof fn law_deposit_is_disputable(
    s: AccountView,
    id: TxId,
    client: ClientId,
    amount: Amount,
)
    requires
        amount@.wf(),
        s.apply(Transaction::Deposit { id, client, amount }).1 is Ok,
    ensures
        ({
            let next = s.apply(Transaction::Deposit { id, client, amount }).0;
            &&& next.tx_state.contains_key(id)
            &&& next.tx_state[id] is Normal
            &&& next.transactions.contains_key(id)
            &&& next.recorded_amount(id) == amount@.limited()
            &&& checked_sum(s.available, amount@.limited()) == Some(next.available)
            &&& next.held == s.held
            &&& next.locked == s.locked
        }),
{
    lemma_limited_wf(amount@);
    Amount::lemma_view_from_view(amount@.limited());
}

/// The sums that a deposit of `amount` computes need no rounding: the new
/// `available` and the new total.
pub open spec fn deposit_is_exact(s: AccountView, amount: Dec) -> bool {
    &&& sum_is_exact(s.available, amount.limited())
    &&& sum_is_exact(exact_sum(s.available, amount.limited()), s.held)
}

/// A deposit above zero succeeds and adds its amount, rounded to four digits,
/// to `available`. Its dispute then succeeds; resolved, `available` and `held`
/// are again as the deposit left them; charged back instead, `available` and
/// `held` are as they were before the deposit and the account is locked. This
/// holds where the sums and differences on the way need no rounding.
pub proof fn law_deposit_round_trip(s: AccountView, id: TxId, client: ClientId, amount: Amount)
    requires
        s.wf(),
        amount@.wf(),
        client == s.id,
        !s.locked,
        amount@.mantissa > 0,
        deposit_is_exact(s, amount@),
        dispute_is_exact(s.apply(Transaction::Deposit { id, client, amount }).0, id),
    ensures
        ({
            let deposited = s.apply(Transaction::Deposit { id, client, amount }).0;
            let disputed = deposited.apply(Transaction::Dispute { id, client }).0;
            let resolved = disputed.apply(Transaction::Resolve { id, client }).0;
            let charged = disputed.apply(Transaction::Chargeback { id, client }).0;
            &&& s.apply(Transaction::Deposit { id, client, amount }).1 is Ok
            &&& deposited.available.value() == s.available.value() + amount@.limited().value()
            &&& deposited.held == s.held
            &&& deposited.apply(Transaction::Dispute { id, client }).1 is Ok
            &&& disputed.available.value() == s.available.value()
            &&& disputed.held.value() == s.held.value() + amount@.limited().value()
            &&& resolve_is_exact(disputed, id) ==> {
                &&& disputed.apply(Transaction::Resolve { id, client }).1 is Ok
                &&& resolved.available.value() == deposited.available.value()
                &&& resolved.held.value() == deposited.held.value()
                &&& resolved.total.value() == resolved.available.value() + resolved.held.value()
                &&& resolved.tx_state[id] is ResolvedOrChargedback
                &&& !resolved.locked
            }
            &&& chargeback_is_exact(disputed, id) ==> {
                &&& disputed.apply(Transaction::Chargeback { id, client }).1 is Ok
                &&& charged.available.value() == s.available.value()
                &&& charged.held.value() == s.held.value()
                &&& charged.total.value() == charged.available.value() + charged.held.value()
                &&& charged.tx_state[id] is ResolvedOrChargedback
                &&& charged.locked
            }
        }),
{
    let deposited = s.apply(Transaction::Deposit { id, client, amount }).0;
    lemma_limited_wf(amount@);
    Amount::lemma_view_from_view(amount@.limited());
    lemma_exact_sum_value(s.available, amount@.limited());
    law_deposit_is_disputable(s, id, client, amount);
    lemma_dispute_then_end(deposited, client, id);
}

/// The total that belongs to two balances is their sum as `rust_decimal`
/// computes it, and their sum as a number where that needs no rounding;
/// nothing else of the account changes with it.
pub proof fn law_total_follows_balances(s: AccountView, available: Dec, held: Dec)
    requires
        available.scale <= MAX_SCALE,
        held.scale <= MAX_SCALE,
    ensures
        s.with_balances(available, held) is Ok <==> checked_sum(available, held) is Some,
        sum_is_exact(available, held) ==> s.with_balances(available, held) is Ok,
        s.with_balances(available, held) matches Ok(next) ==> {
            &&& next == (AccountView { available, held, total: next.total, ..s })
            &&& checked_sum(available, held) == Some(next.total)
            &&& sum_is_exact(available, held) ==> next.total.value() == available.value()
                + held.value()
        },
{
    lemma_exact_sum_value(available, held);
}

/// An event marks its id as used if it is a deposit or a withdrawal, and
/// never clears a mark.
pub proof fn law_used_ids_only_grow(l: LedgerView, tx: Transaction)
    ensures
        l.used.subset_of(l.apply(tx).0.used),
        tx.moves_money() ==> l.apply(tx).0.used.contains(tx.spec_id()),
        !tx.moves_money() ==> l.apply(tx).0.used == l.used,
{
}

/// A deposit or withdrawal under an id that is marked as used is refused as a
/// duplicate, whatever client it names. It reaches no account: the ledger
/// changes only in that the client gets an account if it had none.
pub proof fn law_used_id_is_refused(l: LedgerView, tx: Transaction)
    requires
        tx.moves_money(),
        l.used.contains(tx.spec_id()),
    ensures
        l.apply(tx).1 == Err::<(), Error>(Error::DuplicateTxId(tx.spec_id())),
        l.apply(tx).0.used == l.used,
        l.apply(tx).0.accounts == l.accounts.insert(
            tx.spec_client(),
            l.account_for(tx.spec_client()),
        ),
{
}

/// Every id that an earlier event of a sequence has marked as used is still
/// marked after the sequence.
pub proof fn lemma_used_after(l: LedgerView, txs: Seq<Transaction>, i: int)
    requires
        0 <= i < txs.len(),
        txs[i].moves_money(),
    ensures
        l.apply_all(txs).used.contains(txs[i].spec_id()),
    decreases txs.len(),
{
    let before = l.apply_all(txs.drop_last());
    law_used_ids_only_grow(before, txs.last());
    if i < txs.len() - 1 {
        lemma_used_after(l, txs.drop_last(), i);
    }
}

/// Of the deposits and withdrawals of a sequence of events that carry one
/// transaction id, only the first can be accepted: each later one is refused
/// as a duplicate, whatever client it names and whatever happened to the
/// first.
pub proof fn law_second_use_of_id_is_refused(l: LedgerView, txs: Seq<Transaction>, i: int, j: int)
    requires
        0 <= i < j < txs.len(),
        txs[i].moves_money(),
        txs[j].moves_money(),
        txs[i].spec_id() == txs[j].spec_id(),
    ensures
        l.apply_all(txs.take(j)).apply(txs[j]).1 == Err::<(), Error>(
            Error::DuplicateTxId(txs[j].spec_id()),
        ),
{
    lemma_used_after(l, txs.take(j), i);
    law_used_id_is_refused(l.apply_all(txs.take(j)), txs[j]);
}

/// An event keeps the part of the ledger's invariant that says which ids are
/// recorded and marked.
pub proof fn lemma_history_stays_marked(l: LedgerView, tx: Transaction)
    requires
        l.history_is_marked(),
    ensures
        l.apply(tx).0.history_is_marked(),
{
    let client = tx.spec_client();
    let account = l.account_for(client);
    let next = l.apply(tx).0;
    account.lemma_apply_history(tx);
    lemma_apply_states(account, tx);
    assert forall|c: ClientId, id: TxId|
        #![trigger next.accounts[c].tx_state.contains_key(id)]
        #![trigger next.accounts[c].transactions.contains_key(id)]
        next.accounts.contains_key(c) implies {
        &&& next.accounts[c].tx_state.contains_key(id)
            ==> next.accounts[c].transactions.contains_key(id)
        &&& next.accounts[c].transactions.contains_key(id) ==> next.used.contains(id)
    } by {
        if c != client {
            assert(l.accounts.contains_key(c));
            assert(next.accounts[c] == l.accounts[c]);
        } else if l.accounts.contains_key(c) {
            let account = l.accounts[c];
            assert(account.tx_state.contains_key(id) ==> account.transactions.contains_key(id));
            assert(account.transactions.contains_key(id) ==> l.used.contains(id));
        }
    }
}

/// With an event, an account gains a dispute state only together with a
/// record in its history, and only under the event's own id.
pub proof fn lemma_apply_states(s: AccountView, tx: Transaction)
    ensures
        forall|id: TxId| #[trigger]
            s.apply(tx).0.tx_state.contains_key(id) ==> s.tx_state.contains_key(id) || (tx
                is Deposit && id == tx.spec_id() && s.apply(tx).0.transactions.contains_key(id)),
        forall|id: TxId| #[trigger]
            s.tx_state.contains_key(id) ==> s.apply(tx).0.tx_state.contains_key(id),
{
}

/// In a ledger, the dispute state of a recorded transaction stays where it is
/// or moves one step forward, whatever event arrives.
pub proof fn law_ledger_state_moves_forward(
    l: LedgerView,
    tx: Transaction,
    client: ClientId,
    id: TxId,
)
    requires
        l.history_is_marked(),
        l.state_of(client, id) is Some,
    ensures
        l.apply(tx).0.state_of(client, id) is Some,
        l.state_of(client, id).unwrap().rank() <= l.apply(tx).0.state_of(client, id).unwrap().rank()
            <= l.state_of(client, id).unwrap().rank() + 1,
{
    if tx.spec_client() == client {
        let account = l.accounts[client];
        assert(account.tx_state.contains_key(id));
        assert(account.transactions.contains_key(id));
        assert(l.used.contains(id));
        if !(tx.moves_money() && l.used.contains(tx.spec_id())) {
            law_state_moves_forward(account, tx, id);
        }
    }
}

/// In a ledger, no sequence of events takes the dispute state of a recorded
/// transaction back: it is `Normal`, then `Disputed`, then
/// `ResolvedOrChargedback`.
pub proof fn law_ledger_state_never_goes_back(
    l: LedgerView,
    txs: Seq<Transaction>,
    client: ClientId,
    id: TxId,
)
    requires
        l.history_is_marked(),
        l.state_of(client, id) is Some,
    ensures
        l.apply_all(txs).history_is_marked(),
        l.apply_all(txs).state_of(client, id) is Some,
        l.state_of(client, id).unwrap().rank() <= l.apply_all(txs).state_of(
            client,
            id,
        ).unwrap().rank(),
    decreases txs.len(),
{
    if txs.len() > 0 {
        law_ledger_state_never_goes_back(l, txs.drop_last(), client, id);
        let before = l.apply_all(txs.drop_last());
        lemma_history_stays_marked(before, txs.last());
        law_ledger_state_moves_forward(before, txs.last(), client, id);
    }
}

/// In a ledger, a locked account stays as it is whatever event arrives, and an
/// event for its client is refused: as a duplicate if it is a deposit or
/// withdrawal under a used id, with `Locked` otherwise.
pub proof fn law_locked_account_in_ledger(l: LedgerView, tx: Transaction, client: ClientId)
    requires
        l.wf(),
        l.accounts.contains_key(client),
        l.accounts[client].locked,
    ensures
        l.apply(tx).0.accounts.contains_key(client),
        l.apply(tx).0.accounts[client] == l.accounts[client],
        tx.spec_client() == client ==> l.apply(tx).1 == (if tx.moves_money() && l.used.contains(
            tx.spec_id(),
        ) {
            Err::<(), Error>(Error::DuplicateTxId(tx.spec_id()))
        } else {
            Err::<(), Error>(Error::Locked(client))
        }),
{
    if tx.spec_client() == client {
        law_locked_account_refuses(l.accounts[client], tx);
    }
}

/// A well-formed ledger has its ids recorded and marked.
pub proof fn lemma_wf_is_marked(l: LedgerView)
    requires
        l.wf(),
    ensures
        l.history_is_marked(),
{
}

} // verus!
