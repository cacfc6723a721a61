// Concrete-value checks of the stated account laws: conservation of
// funds, dispute exclusivity, the frozen-account lockout, the
// repeated-dispute boundary and the dispute/resolve round trip, plus
// the machine-word overflow guard.

use payments_core::Account;
use payments_core::Transaction;
use payments_core::TransactionError;

fn conserved(account: &Account) -> bool {
    account.total() == account.available() + account.held()
}

fn exclusive(account: &Account, tx: u32) -> bool {
    !(account.record_at(tx).is_some() && account.disputed_at(tx).is_some())
}

#[test]
fn conservation_holds_along_a_run() {
    let mut account = Account::new(7);
    let run = vec![
        Transaction::Deposit(7, 1, 500),
        Transaction::Deposit(7, 2, 250),
        Transaction::Withdrawal(7, 3, 100),
        Transaction::Dispute(7, 1, 0),
        Transaction::Resolve(7, 1, 0),
        Transaction::Dispute(7, 3, 0),
        Transaction::Withdrawal(7, 4, 10_000),
        Transaction::Chargeback(7, 3, 0),
        Transaction::Deposit(7, 5, 1),
    ];
    for t in run {
        let _ = account.process(t);
        assert!(conserved(&account));
    }
}

#[test]
fn records_and_disputes_stay_exclusive() {
    let mut account = Account::new(7);
    let run = vec![
        Transaction::Deposit(7, 1, 500),
        Transaction::Withdrawal(7, 2, 200),
        Transaction::Dispute(7, 2, 0),
        Transaction::Dispute(7, 2, 0),
        Transaction::Resolve(7, 2, 0),
        Transaction::Dispute(7, 1, 0),
    ];
    for t in run {
        let _ = account.process(t);
        for tx in 1..3u32 {
            assert!(exclusive(&account, tx));
        }
    }
}

#[test]
fn frozen_account_rejects_everything_unchanged() {
    let mut account = Account::new(3);
    assert!(account.process(Transaction::Deposit(3, 1, 40)).is_ok());
    assert!(account.process(Transaction::Deposit(3, 2, 60)).is_ok());
    assert!(account.process(Transaction::Dispute(3, 1, 0)).is_ok());
    assert!(account.process(Transaction::Chargeback(3, 1, 0)).is_ok());
    assert!(account.is_frozen());

    let attempts = vec![
        Transaction::Deposit(3, 9, 5),
        Transaction::Withdrawal(3, 10, 5),
        Transaction::Dispute(3, 2, 0),
        Transaction::Resolve(3, 2, 0),
        Transaction::Chargeback(3, 2, 0),
    ];
    for t in attempts {
        let res = account.process(t);
        assert_eq!(res, Err(TransactionError::AccountFrozen));
        assert_eq!(account.available(), 60);
        assert_eq!(account.held(), 0);
        assert_eq!(account.total(), 60);
        assert!(account.is_frozen());
        assert_eq!(account.record_at(2), Some(Transaction::Deposit(3, 2, 60)));
        assert_eq!(account.records_count(), 1);
        assert_eq!(account.disputed_count(), 0);
    }
}

#[test]
fn second_dispute_of_same_id_fails() {
    let mut account = Account::new(5);
    assert!(account.process(Transaction::Deposit(5, 1, 10)).is_ok());
    assert!(account.process(Transaction::Dispute(5, 1, 0)).is_ok());

    let res = account.process(Transaction::Dispute(5, 1, 0));
    assert_eq!(res, Err(TransactionError::UnknownTransaction));
}

#[test]
fn dispute_then_resolve_restores_the_state() {
    let mut account = Account::new(5);
    assert!(account.process(Transaction::Deposit(5, 1, 10)).is_ok());
    assert!(account.process(Transaction::Withdrawal(5, 2, 4)).is_ok());

    // round trip on the withdrawal
    assert!(account.process(Transaction::Dispute(5, 2, 0)).is_ok());
    assert!(account.process(Transaction::Resolve(5, 2, 0)).is_ok());
    assert_eq!(account.available(), 6);
    assert_eq!(account.held(), 0);
    assert_eq!(account.total(), 6);
    assert_eq!(account.record_at(2), Some(Transaction::Withdrawal(5, 2, 4)));

    // round trip on the deposit, once its funds are covered again
    assert!(account.process(Transaction::Deposit(5, 3, 5)).is_ok());
    assert!(account.process(Transaction::Dispute(5, 1, 0)).is_ok());
    assert!(account.process(Transaction::Resolve(5, 1, 0)).is_ok());
    assert_eq!(account.available(), 11);
    assert_eq!(account.held(), 0);
    assert_eq!(account.total(), 11);
    assert!(!account.is_frozen());
    assert_eq!(account.record_at(1), Some(Transaction::Deposit(5, 1, 10)));
    assert_eq!(account.record_at(3), Some(Transaction::Deposit(5, 3, 5)));
    assert_eq!(account.disputed_count(), 0);
}

#[test]
fn chargeback_of_a_disputed_withdrawal_freezes() {
    // records hold a deposit and a withdrawal, balances back at zero
    let mut account = Account::new(12);
    assert!(account.process(Transaction::Deposit(12, 1, 1)).is_ok());
    assert!(account.process(Transaction::Withdrawal(12, 2, 1)).is_ok());
    assert!(account.process(Transaction::Dispute(12, 2, 0)).is_ok());

    let res = account.process(Transaction::Chargeback(12, 2, 0));
    assert!(res.is_ok());
    assert_eq!(account.available(), 0);
    assert_eq!(account.held(), 0);
    assert_eq!(account.total(), 0);
    assert!(account.is_frozen());
    assert_eq!(account.disputed_count(), 0);
}

#[test]
fn overflow_guard_on_deposits() {
    let mut account = Account::new(1);
    assert!(account.can_apply(&Transaction::Deposit(1, 1, u64::MAX)));
    assert!(account.process(Transaction::Deposit(1, 1, u64::MAX)).is_ok());
    assert_eq!(account.total(), u64::MAX);

    // one more unit would no longer fit the machine word
    assert!(!account.can_apply(&Transaction::Deposit(1, 2, 1)));
    // withdrawals only shrink balances and always fit
    assert!(account.can_apply(&Transaction::Withdrawal(1, 2, 5)));
}

#[test]
fn overflow_guard_on_disputed_withdrawal() {
    let mut account = Account::new(1);
    assert!(account.process(Transaction::Deposit(1, 1, u64::MAX)).is_ok());
    assert!(account
        .process(Transaction::Withdrawal(1, 2, u64::MAX))
        .is_ok());
    assert!(account.process(Transaction::Deposit(1, 3, 10)).is_ok());

    // re-materializing the withdrawn funds would overflow the total
    assert!(!account.can_apply(&Transaction::Dispute(1, 2, 0)));
    // disputing the small deposit fits
    assert!(account.can_apply(&Transaction::Dispute(1, 3, 0)));
}

#[test]
fn summary_renders_the_four_quantities() {
    let mut account = Account::new(2);
    assert!(account.process(Transaction::Deposit(2, 1, 3)).is_ok());
    assert_eq!(account.summary().as_str(), "3,0,3,false");
    assert!(account.process(Transaction::Withdrawal(2, 2, 3)).is_ok());
    assert!(account.process(Transaction::Dispute(2, 2, 0)).is_ok());
    assert!(account.process(Transaction::Chargeback(2, 2, 0)).is_ok());
    assert_eq!(account.summary().as_str(), "0,0,0,true");

    let mut other = Account::new(1);
    assert!(other.process(Transaction::Deposit(1, 1, 12045)).is_ok());
    assert_eq!(other.summary().as_str(), "12045,0,12045,false");
}

#[test]
fn settlement_reusing_a_disputed_id_is_refused_by_the_guard() {
    let mut account = Account::new(1);
    assert!(account.process(Transaction::Deposit(1, 1, 10)).is_ok());
    assert!(account.process(Transaction::Dispute(1, 1, 0)).is_ok());

    // transaction ids are unique per client; a deposit reusing a
    // disputed id falls outside the data model and the guard says so
    assert!(!account.can_apply(&Transaction::Deposit(1, 1, 5)));
    assert!(account.can_apply(&Transaction::Deposit(1, 2, 5)));
}
