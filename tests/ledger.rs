use payment_engine::{Client, LedgerError, ProcessTransactionsTask, Snapshot, Transaction, TransactionEnum};

fn tx(kind: TransactionEnum, client_id: u16, tx_id: u32, tx_amount: u64) -> Transaction {
    Transaction { tx_type: kind, client_id, tx_id, tx_amount }
}

fn balances(task: &ProcessTransactionsTask, client_id: u16) -> Snapshot {
    *task
        .send_acccount_balances()
        .iter()
        .find(|s| s.client_id == client_id)
        .unwrap()
}

fn snap(client_id: u16, available: u64, held: u64, total: u64, frozen: bool) -> Snapshot {
    Snapshot { client_id, available, held, total, frozen }
}

#[test]
fn client_creation() {
    let client = Client::new(123456, TransactionEnum::Deposit, 50001234);
    assert_eq!(client.snapshot(1), snap(1, 50001234, 0, 50001234, false));
    assert_eq!(client.get_tx_val(123456), Ok(50001234));
    assert_eq!(client.get_tx_val(5546465), Err(LedgerError::UnknownTransaction));
}

#[test]
fn new_client_from_other_kinds_starts_empty() {
    let client = Client::new(7, TransactionEnum::Withdrawal, 10000);
    assert_eq!(client.snapshot(4), snap(4, 0, 0, 0, false));
    assert_eq!(client.get_tx_val(7), Err(LedgerError::UnknownTransaction));
    let client = Client::new(7, TransactionEnum::Dispute, 0);
    assert_eq!(client.snapshot(4), snap(4, 0, 0, 0, false));
}

#[test]
fn scenario_deposit_withdraw_dispute() {
    let mut task = ProcessTransactionsTask::new();
    assert_eq!(task.process_tx(tx(TransactionEnum::Deposit, 1, 1, 100000)), Ok(()));
    assert_eq!(balances(&task, 1), snap(1, 100000, 0, 100000, false));
    assert_eq!(task.process_tx(tx(TransactionEnum::Withdrawal, 1, 2, 30000)), Ok(()));
    assert_eq!(balances(&task, 1), snap(1, 70000, 0, 70000, false));
    assert_eq!(
        task.process_tx(tx(TransactionEnum::Dispute, 1, 1, 0)),
        Err(LedgerError::InsufficientFunds)
    );
    assert_eq!(balances(&task, 1), snap(1, 70000, 0, 70000, false));
}

#[test]
fn scenario_dispute_then_resolve() {
    let mut task = ProcessTransactionsTask::new();
    assert_eq!(task.process_tx(tx(TransactionEnum::Deposit, 2, 10, 1000000)), Ok(()));
    assert_eq!(task.process_tx(tx(TransactionEnum::Dispute, 2, 10, 0)), Ok(()));
    assert_eq!(balances(&task, 2), snap(2, 0, 1000000, 1000000, false));
    assert_eq!(task.process_tx(tx(TransactionEnum::Resolve, 2, 10, 0)), Ok(()));
    assert_eq!(balances(&task, 2), snap(2, 1000000, 0, 1000000, false));
}

#[test]
fn scenario_chargeback_freezes() {
    let mut task = ProcessTransactionsTask::new();
    assert_eq!(task.process_tx(tx(TransactionEnum::Deposit, 3, 20, 500000)), Ok(()));
    assert_eq!(task.process_tx(tx(TransactionEnum::Dispute, 3, 20, 0)), Ok(()));
    assert_eq!(task.process_tx(tx(TransactionEnum::Chargeback, 3, 20, 0)), Ok(()));
    assert_eq!(balances(&task, 3), snap(3, 0, 0, 0, true));
    assert_eq!(
        task.process_tx(tx(TransactionEnum::Deposit, 3, 21, 50000)),
        Err(LedgerError::AccountFrozen)
    );
    assert_eq!(balances(&task, 3), snap(3, 0, 0, 0, true));
    assert_eq!(
        task.process_tx(tx(TransactionEnum::Dispute, 3, 20, 0)),
        Err(LedgerError::AccountFrozen)
    );
}

#[test]
fn resolve_without_dispute_fails() {
    let mut c = Client::new(1, TransactionEnum::Deposit, 5000);
    assert_eq!(c.process_tx(1, TransactionEnum::Resolve, 0), Err(LedgerError::NotDisputed));
    assert_eq!(c.process_tx(1, TransactionEnum::Chargeback, 0), Err(LedgerError::NotDisputed));
    assert_eq!(c.snapshot(1), snap(1, 5000, 0, 5000, false));
}

#[test]
fn resolve_twice_fails_the_second_time() {
    let mut c = Client::new(1, TransactionEnum::Deposit, 5000);
    assert_eq!(c.process_tx(1, TransactionEnum::Dispute, 0), Ok(()));
    assert_eq!(c.disputed_status(1, true), Ok(()));
    assert_eq!(c.process_tx(1, TransactionEnum::Resolve, 0), Ok(()));
    assert_eq!(c.disputed_status(1, false), Ok(()));
    assert_eq!(c.process_tx(1, TransactionEnum::Resolve, 0), Err(LedgerError::NotDisputed));
    assert_eq!(c.snapshot(1), snap(1, 5000, 0, 5000, false));
}

#[test]
fn dispute_twice_fails_the_second_time() {
    let mut c = Client::new(1, TransactionEnum::Deposit, 5000);
    assert_eq!(c.process_tx(2, TransactionEnum::Deposit, 7000), Ok(()));
    assert_eq!(c.process_tx(1, TransactionEnum::Dispute, 0), Ok(()));
    assert_eq!(c.snapshot(1), snap(1, 7000, 5000, 12000, false));
    assert_eq!(c.process_tx(1, TransactionEnum::Dispute, 0), Err(LedgerError::AlreadyDisputed));
    assert_eq!(c.snapshot(1), snap(1, 7000, 5000, 12000, false));
}

#[test]
fn deposit_then_full_withdrawal_restores_balances() {
    let mut c = Client::new(1, TransactionEnum::Deposit, 12345);
    assert_eq!(c.process_tx(2, TransactionEnum::Deposit, 99999), Ok(()));
    assert_eq!(c.process_tx(3, TransactionEnum::Withdrawal, 99999), Ok(()));
    assert_eq!(c.snapshot(1), snap(1, 12345, 0, 12345, false));
}

#[test]
fn boundary_refusals_change_nothing() {
    let mut c = Client::new(1, TransactionEnum::Deposit, 10000);
    assert_eq!(c.process_tx(2, TransactionEnum::Withdrawal, 10001), Err(LedgerError::InsufficientFunds));
    assert_eq!(c.process_tx(9, TransactionEnum::Dispute, 0), Err(LedgerError::UnknownTransaction));
    assert_eq!(c.process_tx(3, TransactionEnum::Withdrawal, 10000), Ok(()));
    assert_eq!(c.process_tx(1, TransactionEnum::Dispute, 0), Err(LedgerError::InsufficientFunds));
    assert_eq!(c.snapshot(1), snap(1, 0, 0, 0, false));
    assert_eq!(c.sufficient_funds(0), Ok(()));
    assert_eq!(c.sufficient_funds(1), Err(LedgerError::InsufficientFunds));
    assert_eq!(c.account_frozen(4), Ok(false));
}

#[test]
fn disputing_a_withdrawal_holds_its_amount() {
    let mut c = Client::new(1, TransactionEnum::Deposit, 10000);
    assert_eq!(c.process_tx(2, TransactionEnum::Withdrawal, 3000), Ok(()));
    assert_eq!(c.process_tx(2, TransactionEnum::Dispute, 0), Ok(()));
    assert_eq!(c.snapshot(1), snap(1, 4000, 3000, 7000, false));
    assert_eq!(c.process_tx(2, TransactionEnum::Chargeback, 0), Ok(()));
    assert_eq!(c.snapshot(1), snap(1, 4000, 0, 4000, true));
    assert_eq!(c.account_frozen(5), Err(LedgerError::AccountFrozen));
}

#[test]
fn deposit_past_the_largest_total_overflows() {
    let mut c = Client::new(1, TransactionEnum::Deposit, u64::MAX - 5);
    assert_eq!(c.process_tx(2, TransactionEnum::Deposit, 6), Err(LedgerError::BalanceOverflow));
    assert_eq!(c.process_tx(3, TransactionEnum::Deposit, 5), Ok(()));
    assert_eq!(c.snapshot(1), snap(1, u64::MAX, 0, u64::MAX, false));
}

#[test]
fn accounts_are_independent_and_ordered() {
    let mut task = ProcessTransactionsTask::new();
    let txs = vec![
        tx(TransactionEnum::Deposit, 5, 1, 20000),
        tx(TransactionEnum::Withdrawal, 6, 2, 10000),
        tx(TransactionEnum::Deposit, 6, 3, 10000),
        tx(TransactionEnum::Withdrawal, 5, 4, 5000),
        tx(TransactionEnum::Withdrawal, 6, 5, 2500),
    ];
    let out = task.run(&txs);
    assert_eq!(
        out,
        vec![snap(5, 15000, 0, 15000, false), snap(6, 7500, 0, 7500, false)]
    );
}

#[test]
fn empty_registry_reports_nothing() {
    let mut task = ProcessTransactionsTask::new();
    assert!(task.send_acccount_balances().is_empty());
    assert!(task.run(&Vec::new()).is_empty());
}
