// Tests of the ledger: lazy account creation, routing by client id,
// and the precondition guard.

use payments_core::apply_transaction;
use payments_core::can_apply_to_ledger;
use payments_core::new_ledger;
use payments_core::process_transactions;
use payments_core::Transaction;
use payments_core::TransactionError;

#[test]
fn accounts_are_created_lazily_and_routed_by_client() {
    let mut ledger = new_ledger();
    assert!(ledger.is_empty());

    assert!(apply_transaction(&mut ledger, Transaction::Deposit(1, 1, 100)).is_ok());
    assert!(apply_transaction(&mut ledger, Transaction::Deposit(2, 2, 200)).is_ok());
    assert!(apply_transaction(&mut ledger, Transaction::Withdrawal(1, 3, 40)).is_ok());

    assert_eq!(ledger.len(), 2);
    let one = ledger.get(&1).expect("client 1 should have an account");
    assert_eq!(one.available(), 60);
    assert_eq!(one.total(), 60);
    let two = ledger.get(&2).expect("client 2 should have an account");
    assert_eq!(two.available(), 200);
    assert_eq!(two.total(), 200);
}

#[test]
fn a_failed_transaction_leaves_the_ledger_usable() {
    let mut ledger = new_ledger();
    assert!(apply_transaction(&mut ledger, Transaction::Deposit(1, 1, 10)).is_ok());

    let res = apply_transaction(&mut ledger, Transaction::Withdrawal(1, 2, 50));
    assert_eq!(res, Err(TransactionError::InsufficientFunds));

    // a rejected withdrawal creates no record and later work goes on
    assert!(apply_transaction(&mut ledger, Transaction::Withdrawal(1, 3, 5)).is_ok());
    let one = ledger.get(&1).expect("client 1 should have an account");
    assert_eq!(one.available(), 5);
    assert_eq!(one.record_at(2), None);
}

#[test]
fn a_transaction_for_an_unseen_client_opens_its_account() {
    let mut ledger = new_ledger();
    // a dispute for a fresh client still creates the (empty) account
    let res = apply_transaction(&mut ledger, Transaction::Dispute(9, 1, 0));
    assert_eq!(res, Err(TransactionError::UnknownTransaction));
    let nine = ledger.get(&9).expect("client 9 should have an account");
    assert_eq!(nine.total(), 0);
    assert_eq!(nine.client_id(), 9);
}

#[test]
fn a_batch_is_processed_in_arrival_order() {
    // a deposit fully withdrawn, the withdrawal disputed and charged
    // back: the account ends empty and frozen
    let txs = vec![
        Transaction::Deposit(2, 1, 3),
        Transaction::Withdrawal(2, 2, 3),
        Transaction::Dispute(2, 2, 0),
        Transaction::Chargeback(2, 2, 0),
        // rejected once the account is frozen
        Transaction::Deposit(2, 3, 7),
        // an independent client is unaffected
        Transaction::Deposit(4, 4, 9),
    ];
    let ledger = process_transactions(&txs);

    assert_eq!(ledger.len(), 2);
    let two = ledger.get(&2).expect("client 2 should have an account");
    assert_eq!(two.summary().as_str(), "0,0,0,true");
    assert_eq!(two.record_at(3), None);
    let four = ledger.get(&4).expect("client 4 should have an account");
    assert_eq!(four.summary().as_str(), "9,0,9,false");
}

#[test]
fn a_batch_skips_what_would_not_fit_the_machine_word() {
    let txs = vec![
        Transaction::Deposit(1, 1, u64::MAX),
        // this one would overflow the total and is skipped
        Transaction::Deposit(1, 2, 1),
        Transaction::Withdrawal(1, 3, 5),
    ];
    let ledger = process_transactions(&txs);
    let one = ledger.get(&1).expect("client 1 should have an account");
    assert_eq!(one.available(), u64::MAX - 5);
    assert_eq!(one.record_at(2), None);
}

#[test]
fn ledger_guard_matches_the_account_guard() {
    let mut ledger = new_ledger();
    // any deposit fits a fresh account
    assert!(can_apply_to_ledger(&ledger, &Transaction::Deposit(1, 1, u64::MAX)));
    assert!(apply_transaction(&mut ledger, Transaction::Deposit(1, 1, u64::MAX)).is_ok());

    assert!(!can_apply_to_ledger(&ledger, &Transaction::Deposit(1, 2, 1)));
    // other clients are unaffected
    assert!(can_apply_to_ledger(&ledger, &Transaction::Deposit(2, 2, u64::MAX)));
}
