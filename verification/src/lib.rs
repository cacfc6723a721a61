//! Core of a small payment engine: per-client accounts that process
//! deposits, withdrawals and the dispute lifecycle (dispute, resolve,
//! chargeback), with conservation of funds and frozen-account lockout
//! stated and proved as contracts.

mod account;
mod ledger;

pub use account::Account;
pub use account::AccountV;
pub use account::Amount;
pub use account::ClientId;
pub use account::Transaction;
pub use account::TransactionError;
pub use account::Tx;
pub use account::lemma_conservation_of_funds;
pub use account::lemma_dispute_exclusivity;
pub use account::lemma_dispute_resolve_round_trip;
pub use account::lemma_frozen_rejects_everything;
pub use account::lemma_repeated_dispute_fails;
pub use account::lemma_step_preserves_wf;
pub use account::step;
pub use account::summary_seq;
pub use ledger::account_view_for;
pub use ledger::ledger_wf;
pub use ledger::Ledger;
pub use ledger::apply_transaction;
pub use ledger::can_apply_to_ledger;
pub use ledger::ledger_step;
pub use ledger::ledger_views;
pub use ledger::new_ledger;
pub use ledger::process_transactions;
pub use ledger::run_ledger;
