use ledger_rs::error::Error;
use ledger_rs::{Account, Amount, Ledger, Transaction, TransactionState};
use rust_decimal::Decimal;

fn to_amount(d: Decimal) -> Amount {
    Amount::from_parts(d.mantissa(), d.scale()).unwrap()
}

fn to_decimal(a: Amount) -> Decimal {
    Decimal::from_i128_with_scale(a.mantissa(), a.scale())
}

fn deposit_of(id: u32, client: u16, num: i64, scale: u32) -> Transaction {
    Transaction::Deposit { id, client, amount: to_amount(Decimal::new(num, scale)) }
}

fn withdrawal_of(id: u32, client: u16, num: i64, scale: u32) -> Transaction {
    Transaction::Withdrawal { id, client, amount: to_amount(Decimal::new(num, scale)) }
}

fn balances(account: &Account) -> (Decimal, Decimal, Decimal) {
    (
        to_decimal(account.available()),
        to_decimal(account.held()),
        to_decimal(account.total()),
    )
}

#[test]
fn fresh_account_is_empty() {
    let account = Account::new(7);
    assert_eq!(account.id(), 7);
    assert_eq!(balances(&account), (Decimal::ZERO, Decimal::ZERO, Decimal::ZERO));
    assert!(!account.locked());
    assert!(account.transaction(1).is_none());
    assert!(account.tx_state(1).is_none());
}

#[test]
fn deposit_on_fresh_account() {
    let mut account = Account::new(1);
    assert!(account.process_tx(deposit_of(1, 1, 20, 1)).is_ok());
    assert_eq!(
        balances(&account),
        (Decimal::new(2, 0), Decimal::ZERO, Decimal::new(2, 0))
    );
    assert!(!account.locked());
    assert_eq!(account.tx_state(1), Some(TransactionState::Normal));
}

#[test]
fn withdrawal_of_whole_deposit() {
    let mut account = Account::new(1);
    assert!(account.process_tx(deposit_of(1, 1, 20, 1)).is_ok());
    assert!(account.process_tx(withdrawal_of(2, 1, 20, 1)).is_ok());
    assert_eq!(balances(&account), (Decimal::ZERO, Decimal::ZERO, Decimal::ZERO));
    assert!(!account.locked());
}

#[test]
fn dispute_then_chargeback() {
    let mut account = Account::new(1);
    assert!(account.process_tx(deposit_of(1, 1, 20, 1)).is_ok());

    assert!(account.process_tx(Transaction::Dispute { id: 1, client: 1 }).is_ok());
    assert_eq!(
        balances(&account),
        (Decimal::ZERO, Decimal::new(2, 0), Decimal::new(2, 0))
    );
    assert!(!account.locked());

    assert!(account.process_tx(Transaction::Chargeback { id: 1, client: 1 }).is_ok());
    assert_eq!(balances(&account), (Decimal::ZERO, Decimal::ZERO, Decimal::ZERO));
    assert!(account.locked());
}

#[test]
fn withdrawal_from_empty_account_changes_nothing() {
    let mut account = Account::new(1);
    let result = account.process_tx(withdrawal_of(1, 1, 20, 1));
    assert!(matches!(result, Err(Error::InsufficientFunds(1))));
    assert_eq!(balances(&account), (Decimal::ZERO, Decimal::ZERO, Decimal::ZERO));
    assert!(!account.locked());
    assert!(account.transaction(1).is_none());
    assert!(account.tx_state(1).is_none());
}

#[test]
fn deposit_with_five_digits_is_rounded_to_four() {
    let mut account = Account::new(1);
    assert!(account.process_tx(deposit_of(1, 1, 123456, 5)).is_ok());
    assert_eq!(account.available().mantissa(), 12346);
    assert_eq!(account.available().scale(), 4);
    assert_eq!(account.total().mantissa(), 12346);
    assert_eq!(account.total().scale(), 4);
    // the history holds the amount that was applied
    let recorded = account.transaction(1).unwrap().amount().unwrap();
    assert_eq!(recorded.mantissa(), 12346);
    assert_eq!(recorded.scale(), 4);
}

#[test]
fn deposit_beyond_the_maximum_overflows() {
    let mut account = Account::new(1);
    let max = to_amount(Decimal::MAX);
    assert!(account
        .process_tx(Transaction::Deposit { id: 1, client: 1, amount: max })
        .is_ok());
    assert_eq!(to_decimal(account.available()), Decimal::MAX);

    let result = account.process_tx(deposit_of(2, 1, 20, 1));
    match result {
        Err(Error::Overflow(added, to)) => {
            assert_eq!(to_decimal(added), Decimal::new(2, 0));
            assert_eq!(to_decimal(to), Decimal::MAX);
        }
        other => panic!("expected an overflow, got {:?}", other),
    }
    assert_eq!(
        balances(&account),
        (Decimal::MAX, Decimal::ZERO, Decimal::MAX)
    );
    assert!(account.transaction(2).is_none());
    assert!(account.tx_state(2).is_none());
}

#[test]
fn total_is_available_plus_held_after_every_event() {
    let mut account = Account::new(3);
    let events = vec![
        deposit_of(1, 3, 10050, 2),
        deposit_of(2, 3, 25, 1),
        withdrawal_of(3, 3, 4, 0),
        Transaction::Dispute { id: 1, client: 3 },
        deposit_of(4, 3, 123456, 5),
        Transaction::Resolve { id: 1, client: 3 },
        Transaction::Dispute { id: 2, client: 3 },
        withdrawal_of(5, 3, 1000, 0),
        Transaction::Dispute { id: 4, client: 3 },
        Transaction::Chargeback { id: 2, client: 3 },
        deposit_of(6, 3, 1, 0),
    ];
    for event in events {
        let _ = account.process_tx(event);
        let (available, held, total) = balances(&account);
        assert_eq!(total, available + held);
        assert!(account.available().scale() <= 4);
        assert!(account.held().scale() <= 4);
        assert!(account.total().scale() <= 4);
    }
    // 100.50 + 2.5 - 4 + 1.2346, with 2.5 charged back and 1.2346 held
    let (available, held, total) = balances(&account);
    assert_eq!(available, Decimal::new(965, 1));
    assert_eq!(held, Decimal::new(12346, 4));
    assert_eq!(total, Decimal::new(977346, 4));
    assert!(account.locked());
}

#[test]
fn locked_account_never_changes() {
    let mut account = Account::new(1);
    assert!(account.process_tx(deposit_of(1, 1, 5, 0)).is_ok());
    assert!(account.process_tx(deposit_of(2, 1, 7, 0)).is_ok());
    assert!(account.process_tx(Transaction::Dispute { id: 1, client: 1 }).is_ok());
    assert!(account.process_tx(Transaction::Chargeback { id: 1, client: 1 }).is_ok());
    assert!(account.locked());
    let before = balances(&account);
    assert_eq!(before, (Decimal::new(7, 0), Decimal::ZERO, Decimal::new(7, 0)));

    let events = vec![
        deposit_of(3, 1, 1, 0),
        withdrawal_of(4, 1, 1, 0),
        Transaction::Dispute { id: 2, client: 1 },
        Transaction::Resolve { id: 1, client: 1 },
        Transaction::Chargeback { id: 2, client: 1 },
    ];
    for event in events {
        assert!(matches!(account.process_tx(event), Err(Error::Locked(1))));
        assert_eq!(balances(&account), before);
        assert!(account.locked());
    }
    assert_eq!(account.tx_state(2), Some(TransactionState::Normal));
    assert!(account.transaction(3).is_none());
    assert!(account.transaction(4).is_none());
    // another client's event is unauthorized, locked or not
    assert!(matches!(
        account.process_tx(deposit_of(5, 2, 1, 0)),
        Err(Error::Unauthorized(2, 1))
    ));
}

#[test]
fn dispute_state_only_moves_forward() {
    let mut account = Account::new(1);
    assert!(account.process_tx(deposit_of(1, 1, 5, 0)).is_ok());
    assert_eq!(account.tx_state(1), Some(TransactionState::Normal));

    // from Normal only a dispute moves on
    assert!(matches!(
        account.process_tx(Transaction::Resolve { id: 1, client: 1 }),
        Err(Error::NotInDispute(1))
    ));
    assert!(matches!(
        account.process_tx(Transaction::Chargeback { id: 1, client: 1 }),
        Err(Error::NotInDispute(1))
    ));
    assert_eq!(account.tx_state(1), Some(TransactionState::Normal));
    assert!(!account.locked());

    assert!(account.process_tx(Transaction::Dispute { id: 1, client: 1 }).is_ok());
    assert_eq!(account.tx_state(1), Some(TransactionState::Disputed));
    assert!(matches!(
        account.process_tx(Transaction::Dispute { id: 1, client: 1 }),
        Err(Error::AlreadyDisputed(1))
    ));
    assert_eq!(account.tx_state(1), Some(TransactionState::Disputed));

    assert!(account.process_tx(Transaction::Resolve { id: 1, client: 1 }).is_ok());
    assert_eq!(account.tx_state(1), Some(TransactionState::ResolvedOrChargedback));
    assert!(matches!(
        account.process_tx(Transaction::Dispute { id: 1, client: 1 }),
        Err(Error::DisputedSolved(1))
    ));
    assert!(matches!(
        account.process_tx(Transaction::Resolve { id: 1, client: 1 }),
        Err(Error::DisputedSolved(1))
    ));
    assert!(matches!(
        account.process_tx(Transaction::Chargeback { id: 1, client: 1 }),
        Err(Error::DisputedSolved(1))
    ));
    assert_eq!(account.tx_state(1), Some(TransactionState::ResolvedOrChargedback));
    assert!(!account.locked());
    assert_eq!(
        balances(&account),
        (Decimal::new(5, 0), Decimal::ZERO, Decimal::new(5, 0))
    );
}

#[test]
fn dispute_then_resolve_restores_balances() {
    let mut account = Account::new(1);
    assert!(account.process_tx(deposit_of(1, 1, 1005, 1)).is_ok());
    assert!(account.process_tx(deposit_of(2, 1, 31415, 4)).is_ok());
    assert!(account.process_tx(deposit_of(3, 1, 7, 0)).is_ok());
    assert!(account.process_tx(Transaction::Dispute { id: 3, client: 1 }).is_ok());
    let before = balances(&account);
    assert_eq!(
        before,
        (Decimal::new(1036415, 4), Decimal::new(7, 0), Decimal::new(1106415, 4))
    );

    assert!(account.process_tx(Transaction::Dispute { id: 2, client: 1 }).is_ok());
    assert_eq!(
        balances(&account),
        (Decimal::new(1005, 1), Decimal::new(101415, 4), Decimal::new(1106415, 4))
    );
    assert!(account.process_tx(Transaction::Resolve { id: 2, client: 1 }).is_ok());
    assert_eq!(balances(&account), before);
    assert!(!account.locked());
}

#[test]
fn chargeback_removes_the_held_amount_and_locks() {
    let mut account = Account::new(1);
    assert!(account.process_tx(deposit_of(1, 1, 1005, 1)).is_ok());
    assert!(account.process_tx(deposit_of(2, 1, 31415, 4)).is_ok());
    assert!(account.process_tx(Transaction::Dispute { id: 1, client: 1 }).is_ok());
    assert!(account.process_tx(Transaction::Dispute { id: 2, client: 1 }).is_ok());
    assert_eq!(
        balances(&account),
        (Decimal::ZERO, Decimal::new(1036415, 4), Decimal::new(1036415, 4))
    );
    assert!(account.process_tx(Transaction::Chargeback { id: 2, client: 1 }).is_ok());
    assert_eq!(
        balances(&account),
        (Decimal::ZERO, Decimal::new(1005, 1), Decimal::new(1005, 1))
    );
    assert!(account.locked());
}

#[test]
fn dispute_may_take_available_below_zero() {
    let mut account = Account::new(1);
    assert!(account.process_tx(deposit_of(1, 1, 10, 0)).is_ok());
    assert!(account.process_tx(withdrawal_of(2, 1, 8, 0)).is_ok());
    assert!(account.process_tx(Transaction::Dispute { id: 1, client: 1 }).is_ok());
    assert_eq!(
        balances(&account),
        (Decimal::new(-8, 0), Decimal::new(10, 0), Decimal::new(2, 0))
    );
    // nothing can be withdrawn from a negative balance
    assert!(matches!(
        account.process_tx(withdrawal_of(3, 1, 1, 0)),
        Err(Error::InsufficientFunds(1))
    ));
    assert!(account.process_tx(Transaction::Chargeback { id: 1, client: 1 }).is_ok());
    assert_eq!(
        balances(&account),
        (Decimal::new(-8, 0), Decimal::ZERO, Decimal::new(-8, 0))
    );
    assert!(account.locked());
}

#[test]
fn withdrawal_cannot_be_disputed() {
    let mut account = Account::new(1);
    assert!(account.process_tx(deposit_of(1, 1, 10, 0)).is_ok());
    assert!(account.process_tx(withdrawal_of(2, 1, 4, 0)).is_ok());
    assert!(account.transaction(2).is_some());
    assert!(account.tx_state(2).is_none());
    assert!(matches!(
        account.process_tx(Transaction::Dispute { id: 2, client: 1 }),
        Err(Error::TransactionNotFound(2, 1))
    ));
    assert!(matches!(
        account.process_tx(Transaction::Resolve { id: 2, client: 1 }),
        Err(Error::TransactionNotFound(2, 1))
    ));
    assert!(matches!(
        account.process_tx(Transaction::Chargeback { id: 2, client: 1 }),
        Err(Error::TransactionNotFound(2, 1))
    ));
    assert_eq!(
        balances(&account),
        (Decimal::new(6, 0), Decimal::ZERO, Decimal::new(6, 0))
    );
}

#[test]
fn amounts_of_zero_or_less_are_refused() {
    let mut account = Account::new(1);
    assert!(account.process_tx(deposit_of(1, 1, 10, 0)).is_ok());
    assert!(matches!(
        account.process_tx(deposit_of(2, 1, 0, 3)),
        Err(Error::AmountTooLow)
    ));
    assert!(matches!(
        account.process_tx(deposit_of(3, 1, -5, 0)),
        Err(Error::AmountTooLow)
    ));
    assert!(matches!(
        account.process_tx(withdrawal_of(4, 1, 0, 0)),
        Err(Error::AmountTooLow)
    ));
    assert!(matches!(
        account.process_tx(withdrawal_of(5, 1, -1, 2)),
        Err(Error::AmountTooLow)
    ));
    assert_eq!(
        balances(&account),
        (Decimal::new(10, 0), Decimal::ZERO, Decimal::new(10, 0))
    );
    for id in 2..6 {
        assert!(account.transaction(id).is_none());
    }
}

#[test]
fn unauthorized_names_both_clients() {
    let mut account = Account::new(4);
    assert!(matches!(
        account.process_tx(Transaction::Dispute { id: 1, client: 9 }),
        Err(Error::Unauthorized(9, 4))
    ));
}

#[test]
fn overflow_in_total_refuses_a_deposit() {
    let mut account = Account::new(1);
    let max = to_amount(Decimal::MAX);
    assert!(account
        .process_tx(Transaction::Deposit { id: 1, client: 1, amount: max })
        .is_ok());
    assert!(account.process_tx(Transaction::Dispute { id: 1, client: 1 }).is_ok());
    assert_eq!(balances(&account), (Decimal::ZERO, Decimal::MAX, Decimal::MAX));
    // available is zero again, so a second deposit fits there, but not in the total
    let second = account.process_tx(deposit_of(2, 1, 1, 0));
    match second {
        Err(Error::Overflow(added, to)) => {
            assert_eq!(to_decimal(added), Decimal::new(1, 0));
            assert_eq!(to_decimal(to), Decimal::MAX);
        }
        other => panic!("expected an overflow, got {:?}", other),
    }
    assert_eq!(balances(&account), (Decimal::ZERO, Decimal::MAX, Decimal::MAX));
    assert!(account.transaction(2).is_none());
    assert!(account.tx_state(2).is_none());
}

#[test]
fn overflow_in_dispute_keeps_the_new_state() {
    let mut account = Account::new(1);
    let max = to_amount(Decimal::MAX);
    assert!(account
        .process_tx(Transaction::Deposit { id: 1, client: 1, amount: max })
        .is_ok());
    assert!(account
        .process_tx(Transaction::Withdrawal { id: 2, client: 1, amount: max })
        .is_ok());
    assert!(account
        .process_tx(Transaction::Deposit { id: 3, client: 1, amount: max })
        .is_ok());
    assert!(account.process_tx(Transaction::Dispute { id: 3, client: 1 }).is_ok());
    assert_eq!(balances(&account), (Decimal::ZERO, Decimal::MAX, Decimal::MAX));

    // held is at the maximum: the amount of transaction 1 does not fit
    let result = account.process_tx(Transaction::Dispute { id: 1, client: 1 });
    match result {
        Err(Error::Overflow(added, to)) => {
            assert_eq!(to_decimal(added), Decimal::MAX);
            assert_eq!(to_decimal(to), Decimal::MAX);
        }
        other => panic!("expected an overflow, got {:?}", other),
    }
    assert_eq!(balances(&account), (Decimal::ZERO, Decimal::MAX, Decimal::MAX));
    assert!(!account.locked());
    assert_eq!(account.tx_state(1), Some(TransactionState::Disputed));
    assert!(matches!(
        account.process_tx(Transaction::Dispute { id: 1, client: 1 }),
        Err(Error::AlreadyDisputed(1))
    ));

    // the resolution finds available at zero and held at the maximum
    assert!(account.process_tx(Transaction::Resolve { id: 1, client: 1 }).is_ok());
    assert_eq!(balances(&account), (Decimal::MAX, Decimal::ZERO, Decimal::MAX));
    assert_eq!(account.tx_state(1), Some(TransactionState::ResolvedOrChargedback));
}

#[test]
fn overflow_in_resolve_changes_nothing() {
    let mut account = Account::new(1);
    let max = to_amount(Decimal::MAX);
    assert!(account
        .process_tx(Transaction::Deposit { id: 1, client: 1, amount: max })
        .is_ok());
    assert!(account
        .process_tx(Transaction::Withdrawal { id: 2, client: 1, amount: max })
        .is_ok());
    assert!(account
        .process_tx(Transaction::Deposit { id: 3, client: 1, amount: max })
        .is_ok());
    assert!(account.process_tx(Transaction::Dispute { id: 3, client: 1 }).is_ok());
    assert!(matches!(
        account.process_tx(Transaction::Dispute { id: 1, client: 1 }),
        Err(Error::Overflow(..))
    ));
    assert_eq!(account.tx_state(1), Some(TransactionState::Disputed));
    assert!(account.process_tx(Transaction::Resolve { id: 3, client: 1 }).is_ok());
    assert_eq!(balances(&account), (Decimal::MAX, Decimal::ZERO, Decimal::MAX));

    // available is at the maximum: the amount of transaction 1 does not fit
    let result = account.process_tx(Transaction::Resolve { id: 1, client: 1 });
    match result {
        Err(Error::Overflow(added, to)) => {
            assert_eq!(to_decimal(added), Decimal::MAX);
            assert_eq!(to_decimal(to), Decimal::MAX);
        }
        other => panic!("expected an overflow, got {:?}", other),
    }
    assert_eq!(balances(&account), (Decimal::MAX, Decimal::ZERO, Decimal::MAX));
    assert_eq!(account.tx_state(1), Some(TransactionState::Disputed));
    assert_eq!(account.tx_state(3), Some(TransactionState::ResolvedOrChargedback));
    assert!(!account.locked());

    // the dispute is still open: once there is room, it can be resolved
    assert!(account
        .process_tx(Transaction::Withdrawal { id: 4, client: 1, amount: max })
        .is_ok());
    assert!(account.process_tx(Transaction::Resolve { id: 1, client: 1 }).is_ok());
    assert_eq!(account.tx_state(1), Some(TransactionState::ResolvedOrChargedback));
    assert_eq!(
        balances(&account),
        (Decimal::MAX, Decimal::MIN, Decimal::ZERO)
    );
}

#[test]
fn overflow_in_chargeback_changes_nothing() {
    let mut account = Account::new(1);
    let max = to_amount(Decimal::MAX);
    assert!(account
        .process_tx(Transaction::Deposit { id: 1, client: 1, amount: max })
        .is_ok());
    assert!(account
        .process_tx(Transaction::Withdrawal { id: 2, client: 1, amount: max })
        .is_ok());
    assert!(account.process_tx(deposit_of(5, 1, 1, 0)).is_ok());
    assert!(account.process_tx(withdrawal_of(6, 1, 1, 0)).is_ok());
    assert!(account
        .process_tx(Transaction::Deposit { id: 3, client: 1, amount: max })
        .is_ok());
    assert!(account.process_tx(Transaction::Dispute { id: 3, client: 1 }).is_ok());
    // transactions 1 and 5 are marked although held had no room for their amounts
    assert!(matches!(
        account.process_tx(Transaction::Dispute { id: 1, client: 1 }),
        Err(Error::Overflow(..))
    ));
    assert!(matches!(
        account.process_tx(Transaction::Dispute { id: 5, client: 1 }),
        Err(Error::Overflow(..))
    ));
    assert!(account.process_tx(Transaction::Resolve { id: 3, client: 1 }).is_ok());
    assert!(account
        .process_tx(Transaction::Withdrawal { id: 4, client: 1, amount: max })
        .is_ok());
    assert!(account.process_tx(Transaction::Resolve { id: 1, client: 1 }).is_ok());
    assert_eq!(balances(&account), (Decimal::MAX, Decimal::MIN, Decimal::ZERO));

    // held is at the minimum: the amount of transaction 5 cannot leave it
    let result = account.process_tx(Transaction::Chargeback { id: 5, client: 1 });
    match result {
        Err(Error::Overflow(taken, from)) => {
            assert_eq!(to_decimal(taken), Decimal::ONE);
            assert_eq!(to_decimal(from), Decimal::MIN);
        }
        other => panic!("expected an overflow, got {:?}", other),
    }
    assert_eq!(balances(&account), (Decimal::MAX, Decimal::MIN, Decimal::ZERO));
    assert_eq!(account.tx_state(5), Some(TransactionState::Disputed));
    assert!(!account.locked());
}

#[test]
fn ledger_runs_a_small_stream() {
    let mut ledger = Ledger::new();
    let events = vec![
        deposit_of(1, 1, 10, 1),
        deposit_of(2, 2, 20, 1),
        deposit_of(3, 1, 20, 1),
        withdrawal_of(4, 1, 15, 1),
        withdrawal_of(5, 2, 30, 1),
    ];
    let mut results = Vec::new();
    for event in events {
        results.push(ledger.process_tx(event));
    }
    assert!(results[0].is_ok());
    assert!(results[1].is_ok());
    assert!(results[2].is_ok());
    assert!(results[3].is_ok());
    assert!(matches!(results[4], Err(Error::InsufficientFunds(2))));

    let accounts = ledger.get_accounts();
    assert_eq!(accounts.len(), 2);
    for account in accounts {
        let (available, held, total) = balances(account);
        assert_eq!(held, Decimal::ZERO);
        assert_eq!(total, available);
        assert!(!account.locked());
        if account.id() == 1 {
            assert_eq!(available, Decimal::new(15, 1));
        } else {
            assert_eq!(account.id(), 2);
            assert_eq!(available, Decimal::new(2, 0));
        }
    }
}

#[test]
fn total_is_rounded_where_the_sum_does_not_fit() {
    let mut account = Account::new(1);
    assert!(account.process_tx(deposit_of(1, 1, 5, 1)).is_ok());
    assert!(account.process_tx(Transaction::Dispute { id: 1, client: 1 }).is_ok());
    let nearly_max = Decimal::MAX - Decimal::ONE;
    assert!(account
        .process_tx(Transaction::Deposit { id: 2, client: 1, amount: to_amount(nearly_max) })
        .is_ok());
    let (available, held, total) = balances(&account);
    assert_eq!(available, nearly_max);
    assert_eq!(held, Decimal::new(5, 1));
    // the sum has a digit too many for 96 bits: the half is rounded to the even neighbour
    assert_eq!(total, available.checked_add(held).unwrap());
    assert_eq!(total, nearly_max);
    assert_eq!(account.total().scale(), 0);
}
